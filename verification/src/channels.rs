use bevy::platform::collections::HashMap;
use vstd::prelude::*;

verus! {

/// What installing a message channel into a world did.
#[derive(Debug, Clone, Copy, PartialEq, Eq, Structural)]
pub enum ChannelInstall {
    /// The world already had a channel for this message type; nothing changed.
    AlreadyPresent,
    /// The channel was installed; the system that forwards its messages was added
    /// exactly when the world has a pre-update schedule.
    Installed { system_added: bool },
}

/// Installing the channel of message type `key` into a world whose channels are `before`:
/// the channels afterwards, and what was done.
pub open spec fn world_install(before: Set<u64>, key: u64, has_pre_update: bool) -> (Set<u64>, ChannelInstall) {
    if before.contains(key) {
        (before, ChannelInstall::AlreadyPresent)
    } else {
        (before.insert(key), ChannelInstall::Installed { system_added: has_pre_update })
    }
}

/// The message types for which an application or world has a message channel,
/// each identified by a number that is unique to its type.
pub struct MessageChannels {
    keys: Vec<u64>,
}

impl View for MessageChannels {
    type V = Set<u64>;

    closed spec fn view(&self) -> Set<u64> {
        self.keys@.to_set()
    }
}

impl MessageChannels {
    /// No channel yet.
    pub fn new() -> (r: Self)
        ensures
            r@ == Set::<u64>::empty(),
    {
        let r = MessageChannels { keys: Vec::new() };
        proof {
            assert(r@ =~= Set::<u64>::empty());
        }
        r
    }

    /// Whether a channel for message type `key` is present.
    pub fn contains(&self, key: u64) -> (r: bool)
        ensures
            r == self@.contains(key),
    {
        let mut i: usize = 0;
        while i < self.keys.len()
            invariant
                i <= self.keys@.len(),
                forall|j: int| 0 <= j < i ==> self.keys@[j] != key,
            decreases self.keys@.len() - i,
        {
            if self.keys[i] == key {
                proof {
                    assert(self.keys@.contains(key));
                }
                return true;
            }
            i = i + 1;
        }
        false
    }

    /// Installs the channel of message type `key` into an application. An application
    /// accepts each message type's channel once only.
    pub fn add_to_app(&mut self, key: u64)
        requires
            !old(self)@.contains(key),
        ensures
            final(self)@ == old(self)@.insert(key),
    {
        self.keys.push(key);
        proof {
            let s = self.keys@;
            assert(s.drop_last() == old(self).keys@);
            assert forall|x: u64| s.contains(x) <==> (old(self).keys@.contains(x) || x == key) by {
                if s.contains(x) && x != key {
                    let j = choose|j: int| 0 <= j < s.len() && s[j] == x;
                    assert(old(self).keys@[j] == x);
                }
                if old(self).keys@.contains(x) {
                    let j = choose|j: int| 0 <= j < old(self).keys@.len() && old(self).keys@[j] == x;
                    assert(s[j] == x);
                }
                if x == key {
                    assert(s[s.len() - 1] == key);
                }
            }
            assert(self@ =~= old(self)@.insert(key));
        }
    }

    /// Installs the channel of message type `key` into a world, unless the world
    /// already has one. `pre_update_schedule` is `None` for a world without schedules,
    /// which cannot take a new channel, and otherwise tells whether the world has a
    /// pre-update schedule: only then is the forwarding system added.
    pub fn add_to_world(&mut self, key: u64, pre_update_schedule: Option<bool>) -> (r: ChannelInstall)
        requires
            !old(self)@.contains(key) ==> pre_update_schedule is Some,
        ensures
            (final(self)@, r) == world_install(old(self)@, key, pre_update_schedule == Some(true)),
            !old(self)@.contains(key) ==> final(self)@.contains(key) && r == (ChannelInstall::Installed {
                system_added: pre_update_schedule == Some(true),
            }),
    {
        if self.contains(key) {
            ChannelInstall::AlreadyPresent
        } else {
            self.add_to_app(key);
            let system_added = match pre_update_schedule {
                Some(present) => present,
                None => false,
            };
            ChannelInstall::Installed { system_added }
        }
    }
}

/// `slot` is the first position of `key` in `keys`.
pub open spec fn is_slot_of(keys: Seq<u64>, key: u64, slot: int) -> bool {
    &&& 0 <= slot < keys.len()
    &&& keys[slot] == key
    &&& forall|j: int| 0 <= j < slot ==> keys[j] != key
}

/// Obtaining the sender of message type `key` turns the sender list `before` into `after`,
/// with the sender at `slot`, newly made exactly when `created`.
pub open spec fn obtained(before: Seq<u64>, key: u64, after: Seq<u64>, slot: int, created: bool) -> bool {
    if before.contains(key) {
        after == before && !created && is_slot_of(before, key, slot)
    } else {
        after == before.push(key) && created && slot == before.len()
    }
}

/// Where the sender of a message type stands, and whether it was just made.
#[derive(Debug, Clone, Copy, PartialEq, Eq, Structural)]
pub struct SenderSlot {
    /// The position of the sender among the plugin's senders.
    pub slot: usize,
    /// Whether the sender (and its channel) was made by this call.
    pub created: bool,
}

/// Declares Bevy's fixed hasher, which the map below uses.
#[verifier::external_type_specification]
#[verifier::external_body]
pub struct ExFixedHasher(bevy::platform::hash::FixedHasher);

/// Declares Bevy's hash map.
#[verifier::external_type_specification]
#[verifier::external_body]
#[verifier::reject_recursive_types(K)]
#[verifier::reject_recursive_types(V)]
#[verifier::reject_recursive_types(S)]
pub struct ExHashMap<K, V, S>(bevy::platform::collections::HashMap<K, V, S>);

/// A map from message types to sender positions.
pub type SlotMap = HashMap<u64, usize>;

/// What a map from message types to sender positions holds.
pub uninterp spec fn slot_map_contents(m: SlotMap) -> Map<u64, usize>;

/// Calls Bevy's `HashMap::new`: the map it makes holds nothing.
#[verifier::external_body]
fn slot_map_new() -> (r: SlotMap)
    ensures
        slot_map_contents(r).is_empty(),
{
    HashMap::new()
}

/// Calls Bevy's `HashMap::get`: the position stored for `key`, if any.
#[verifier::external_body]
fn slot_map_get(m: &SlotMap, key: u64) -> (r: Option<usize>)
    ensures
        r == (if slot_map_contents(*m).contains_key(key) {
            Some(slot_map_contents(*m)[key])
        } else {
            None::<usize>
        }),
{
    m.get(&key).copied()
}

/// Calls Bevy's `HashMap::insert`: afterwards `key` maps to `slot`, and every other key is
/// as before.
#[verifier::external_body]
fn slot_map_insert(m: &mut SlotMap, key: u64, slot: usize)
    ensures
        slot_map_contents(*final(m)) == slot_map_contents(*old(m)).insert(key, slot),
{
    m.insert(key, slot);
}

/// The message types of a list of senders, in order.
pub open spec fn keys_of<S>(entries: Seq<(u64, S)>) -> Seq<u64> {
    entries.map_values(|e: (u64, S)| e.0)
}

/// Obtaining the sender of message type `key` turns the senders `before` into `after`: the
/// message types change as `obtained` says, the sender at `slot` belongs to `key`, and every
/// sender made before stays where it was, unchanged.
pub open spec fn senders_obtained<S>(before: Seq<(u64, S)>, key: u64, after: Seq<(u64, S)>, slot: int, created: bool) -> bool {
    &&& obtained(keys_of(before), key, keys_of(after), slot, created)
    &&& after[slot].0 == key
    &&& forall|i: int| 0 <= i < before.len() ==> after[i] == before[i]
}

/// The senders a plugin holds, one per message type, each with its message type, in the
/// order in which they were made.
pub struct MessageSenders<S> {
    slots: SlotMap,
    senders: Vec<(u64, S)>,
}

impl<S> View for MessageSenders<S> {
    type V = Seq<(u64, S)>;

    closed spec fn view(&self) -> Seq<(u64, S)> {
        self.senders@
    }
}

impl<S> MessageSenders<S> {
    /// The map finds each sender by its message type: it holds exactly the message types of
    /// the senders, each with its position.
    pub closed spec fn wf(&self) -> bool {
        let m = slot_map_contents(self.slots);
        &&& forall|k: u64|
            #[trigger] m.contains_key(k) ==> m[k] < self.senders@.len() && self.senders@[m[k] as int].0 == k
        &&& forall|i: int|
            0 <= i < self.senders@.len() ==> m.contains_key(#[trigger] self.senders@[i].0) && m[self.senders@[i].0] == i
    }

    /// No sender yet.
    pub fn new() -> (r: Self)
        ensures
            r.wf(),
            r@ == Seq::<(u64, S)>::empty(),
    {
        MessageSenders { slots: slot_map_new(), senders: Vec::new() }
    }

    /// Whether a sender of message type `key` was made.
    pub fn contains(&self, key: u64) -> (r: bool)
        requires
            self.wf(),
        ensures
            r == keys_of(self@).contains(key),
    {
        let found = slot_map_get(&self.slots, key);
        proof {
            let m = slot_map_contents(self.slots);
            if keys_of(self@).contains(key) {
                let i = choose|i: int| 0 <= i < keys_of(self@).len() && keys_of(self@)[i] == key;
                assert(self.senders@[i].0 == key);
            }
            if m.contains_key(key) {
                assert(keys_of(self@)[m[key] as int] == key);
            }
        }
        found.is_some()
    }

    /// The sender at position `slot`.
    pub fn sender(&self, slot: usize) -> (r: &S)
        requires
            slot < self@.len(),
        ensures
            *r == self@[slot as int].1,
    {
        &self.senders[slot].1
    }

    /// The sender of message type `key`: the one made before, if any; otherwise the one that
    /// `make` makes, whose channel is installed into the application. An application accepts
    /// each message type's channel once only, hence the `requires`.
    pub fn sender_slot<G: FnOnce() -> S>(&mut self, channels: &mut MessageChannels, key: u64, make: G) -> (r: SenderSlot)
        requires
            old(self).wf(),
            !keys_of(old(self)@).contains(key) ==> !old(channels)@.contains(key),
            make.requires(()),
        ensures
            final(self).wf(),
            senders_obtained(old(self)@, key, final(self)@, r.slot as int, r.created),
            r.created ==> make.ensures((), final(self)@[r.slot as int].1),
            r.created ==> final(channels)@ == old(channels)@.insert(key),
            !r.created ==> final(channels)@ == old(channels)@,
    {
        let ghost old_senders = self.senders@;
        let ghost m0 = slot_map_contents(self.slots);
        match slot_map_get(&self.slots, key) {
            Some(slot) => {
                proof {
                    let ks = keys_of(old_senders);
                    assert(ks[slot as int] == key);
                    assert forall|j: int| 0 <= j < slot implies ks[j] != key by {
                        if ks[j] == key {
                            assert(old_senders[j].0 == key);
                        }
                    }
                    assert(ks.contains(key));
                }
                SenderSlot { slot, created: false }
            },
            None => {
                proof {
                    let ks = keys_of(old_senders);
                    if ks.contains(key) {
                        let i = choose|i: int| 0 <= i < ks.len() && ks[i] == key;
                        assert(old_senders[i].0 == key);
                    }
                }
                channels.add_to_app(key);
                let sender = make();
                let slot = self.senders.len();
                self.senders.push((key, sender));
                slot_map_insert(&mut self.slots, key, slot);
                proof {
                    let m1 = slot_map_contents(self.slots);
                    assert(m1 == m0.insert(key, slot));
                    assert forall|k: u64| #[trigger] m1.contains_key(k) implies m1[k] < self.senders@.len()
                        && self.senders@[m1[k] as int].0 == k by {
                        if k != key {
                            assert(self.senders@[m0[k] as int] == old_senders[m0[k] as int]);
                        }
                    }
                    assert forall|i: int| 0 <= i < self.senders@.len() implies m1.contains_key(
                        #[trigger] self.senders@[i].0,
                    ) && m1[self.senders@[i].0] == i by {
                        if i < old_senders.len() {
                            assert(self.senders@[i] == old_senders[i]);
                            assert(m0.contains_key(old_senders[i].0));
                            if old_senders[i].0 == key {
                                assert(keys_of(old_senders)[i] == key);
                            }
                        }
                    }
                    assert(keys_of(self.senders@) =~= keys_of(old_senders).push(key));
                }
                SenderSlot { slot, created: true }
            },
        }
    }
}

/// Installing a message channel into a world is idempotent: once the channel of a message
/// type is installed, installing it again changes nothing and reports it as already present.
pub proof fn lemma_world_install_idempotent(before: Set<u64>, key: u64, first: bool, second: bool)
    ensures
        world_install(world_install(before, key, first).0, key, second) == (
            world_install(before, key, first).0,
            ChannelInstall::AlreadyPresent,
        ),
        world_install(before, key, first).0.contains(key),
{
}

/// A plugin holds one sender per message type: obtaining the sender of a message type a
/// second time makes no new sender (and so installs no second channel) and yields the
/// sender obtained the first time.
pub proof fn lemma_sender_obtained_once(
    s0: Seq<u64>,
    key: u64,
    s1: Seq<u64>,
    slot1: int,
    created1: bool,
    s2: Seq<u64>,
    slot2: int,
    created2: bool,
)
    requires
        obtained(s0, key, s1, slot1, created1),
        obtained(s1, key, s2, slot2, created2),
    ensures
        s2 == s1,
        !created2,
        slot2 == slot1,
        s1[slot1] == key,
{
    if !s0.contains(key) {
        assert(s1[s0.len() as int] == key);
        assert(s1.contains(key));
        assert forall|j: int| 0 <= j < slot1 implies s1[j] != key by {
            assert(s1[j] == s0[j]);
        }
    }
    assert(s1.contains(key)) by {
        assert(s1[slot1] == key);
    }
    if slot2 < slot1 {
        assert(s1[slot2] == key);
    }
    if slot1 < slot2 {
        assert(s1[slot1] == key);
    }
}

/// Every message type with a sender has its channel installed: obtaining senders keeps
/// this so.
pub proof fn lemma_senders_keep_channels(
    s0: Seq<u64>,
    c0: Set<u64>,
    key: u64,
    s1: Seq<u64>,
    c1: Set<u64>,
    slot: int,
    created: bool,
)
    requires
        forall|k: u64| s0.contains(k) ==> c0.contains(k),
        obtained(s0, key, s1, slot, created),
        created ==> c1 == c0.insert(key),
        !created ==> c1 == c0,
    ensures
        forall|k: u64| s1.contains(k) ==> c1.contains(k),
{
    assert forall|k: u64| s1.contains(k) implies c1.contains(k) by {
        let j = choose|j: int| 0 <= j < s1.len() && s1[j] == k;
        if created && j < s0.len() {
            assert(s0[j] == k);
        }
        if !created {
            assert(s0[j] == k);
        }
    }
}

/// Whatever holds of every sender together with its message type (such as: the sender has
/// the type of channel that its message type names) keeps holding when a sender is obtained,
/// provided a newly made sender has it too.
pub proof fn lemma_senders_keep_property<S>(
    before: Seq<(u64, S)>,
    key: u64,
    after: Seq<(u64, S)>,
    slot: int,
    created: bool,
    p: spec_fn((u64, S)) -> bool,
)
    requires
        senders_obtained(before, key, after, slot, created),
        forall|i: int| 0 <= i < before.len() ==> #[trigger] p(before[i]),
        created ==> p(after[slot]),
    ensures
        forall|i: int| 0 <= i < after.len() ==> #[trigger] p(after[i]),
        p(after[slot]),
{
    let kb = keys_of(before);
    let ka = keys_of(after);
    assert(kb.len() == before.len());
    assert(ka.len() == after.len());
    assert forall|i: int| 0 <= i < after.len() implies #[trigger] p(after[i]) by {
        if i < before.len() {
            assert(after[i] == before[i]);
            assert(p(before[i]));
        } else {
            assert(created);
            assert(i == slot);
        }
    }
    if !created {
        assert(0 <= slot < before.len());
        assert(after[slot] == before[slot]);
        assert(p(before[slot]));
    }
}

/// A new channel gets its forwarding system exactly when the world has a pre-update
/// schedule, whatever other channels the world already holds: two worlds that both lack
/// the channel are answered alike.
pub proof fn lemma_world_install_system_depends_on_schedule_only(
    before1: Set<u64>,
    before2: Set<u64>,
    key: u64,
    has_pre_update: bool,
)
    requires
        !before1.contains(key),
        !before2.contains(key),
    ensures
        world_install(before1, key, has_pre_update).1 == (ChannelInstall::Installed { system_added: has_pre_update }),
        world_install(before1, key, has_pre_update).1 == world_install(before2, key, has_pre_update).1,
        world_install(before1, key, has_pre_update).0.contains(key),
        forall|k: u64| #[trigger] before1.contains(k) ==> world_install(before1, key, has_pre_update).0.contains(k),
{
}

} // verus!
