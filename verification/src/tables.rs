use vstd::prelude::*;

verus! {

/// One kind of Bevy message that a registered table can emit.
#[derive(Debug, Clone, Copy, PartialEq, Eq, Structural)]
pub enum MessageKind {
    /// A row was inserted.
    Insert,
    /// A row was deleted.
    Delete,
    /// A row was updated (tables with a primary key only).
    Update,
    /// A row was inserted or updated (tables with a primary key only).
    InsertUpdate,
}

/// Selects which messages a table with a primary key registers.
#[derive(Debug, Clone, Copy)]
pub struct TableMessages {
    /// Register the insert message (and, together with `update`, the insert-or-update message).
    pub insert: bool,
    /// Register the update message (and, together with `insert`, the insert-or-update message).
    pub update: bool,
    /// Register the delete message.
    pub delete: bool,
}

/// Selects which messages a table without a primary key registers.
#[derive(Debug, Clone, Copy)]
pub struct TableMessagesWithoutPrimaryKey {
    /// Register the insert message.
    pub insert: bool,
    /// Register the delete message.
    pub delete: bool,
}

/// `seq![k]` when `on` holds, the empty sequence otherwise.
pub open spec fn kind_if(on: bool, k: MessageKind) -> Seq<MessageKind> {
    if on { seq![k] } else { Seq::empty() }
}

/// The messages a table with a primary key registers, in the order in which they are set up:
/// insert, delete, update, and insert-or-update exactly when both insert and update are chosen.
pub open spec fn table_message_kinds(m: TableMessages) -> Seq<MessageKind> {
    kind_if(m.insert, MessageKind::Insert) + kind_if(m.delete, MessageKind::Delete) + kind_if(
        m.update,
        MessageKind::Update,
    ) + kind_if(m.update && m.insert, MessageKind::InsertUpdate)
}

/// The messages a table without a primary key registers, in order: insert, then delete.
pub open spec fn table_message_kinds_without_pk(m: TableMessagesWithoutPrimaryKey) -> Seq<MessageKind> {
    kind_if(m.insert, MessageKind::Insert) + kind_if(m.delete, MessageKind::Delete)
}

impl Default for TableMessages {
    fn default() -> (r: Self)
        ensures
            !r.insert && !r.update && !r.delete,
    {
        TableMessages { insert: false, update: false, delete: false }
    }
}

impl Default for TableMessagesWithoutPrimaryKey {
    fn default() -> (r: Self)
        ensures
            !r.insert && !r.delete,
    {
        TableMessagesWithoutPrimaryKey { insert: false, delete: false }
    }
}

impl TableMessages {
    /// Register all table messages.
    pub fn all() -> (r: Self)
        ensures
            r.insert && r.update && r.delete,
    {
        Self { insert: true, update: true, delete: true }
    }

    /// Register insertions and deletions, but not updates.
    pub fn no_update() -> (r: Self)
        ensures
            r.insert && !r.update && r.delete,
    {
        Self { insert: true, update: false, delete: true }
    }

    /// The messages this selection registers, in the order in which they are set up.
    pub fn message_kinds(&self) -> (r: Vec<MessageKind>)
        ensures
            r@ == table_message_kinds(*self),
    {
        let mut r: Vec<MessageKind> = Vec::new();
        if self.insert {
            r.push(MessageKind::Insert);
        }
        if self.delete {
            r.push(MessageKind::Delete);
        }
        if self.update {
            r.push(MessageKind::Update);
        }
        if self.update && self.insert {
            r.push(MessageKind::InsertUpdate);
        }
        proof {
            assert(r@ =~= table_message_kinds(*self));
        }
        r
    }
}

impl TableMessagesWithoutPrimaryKey {
    /// Register all available table messages.
    pub fn all() -> (r: Self)
        ensures
            r.insert && r.delete,
    {
        Self { insert: true, delete: true }
    }

    /// The messages this selection registers, in the order in which they are set up.
    pub fn message_kinds(&self) -> (r: Vec<MessageKind>)
        ensures
            r@ == table_message_kinds_without_pk(*self),
    {
        let mut r: Vec<MessageKind> = Vec::new();
        if self.insert {
            r.push(MessageKind::Insert);
        }
        if self.delete {
            r.push(MessageKind::Delete);
        }
        proof {
            assert(r@ =~= table_message_kinds_without_pk(*self));
        }
        r
    }
}

/// A table with a primary key registers each chosen message exactly once: insert, delete
/// and update as chosen, and insert-or-update exactly when both insert and update are chosen.
pub proof fn lemma_table_message_kinds(m: TableMessages)
    ensures
        table_message_kinds(m).contains(MessageKind::Insert) <==> m.insert,
        table_message_kinds(m).contains(MessageKind::Delete) <==> m.delete,
        table_message_kinds(m).contains(MessageKind::Update) <==> m.update,
        table_message_kinds(m).contains(MessageKind::InsertUpdate) <==> (m.insert && m.update),
        table_message_kinds(m).no_duplicates(),
{
    let s = table_message_kinds(m);
    let a = kind_if(m.insert, MessageKind::Insert);
    let b = kind_if(m.delete, MessageKind::Delete);
    let c = kind_if(m.update, MessageKind::Update);
    let d = kind_if(m.update && m.insert, MessageKind::InsertUpdate);
    assert(s == a + b + c + d);
    assert forall|k: MessageKind| s.contains(k) <==> (a.contains(k) || b.contains(k) || c.contains(k) || d.contains(k)) by {
        if s.contains(k) {
            let i = choose|i: int| 0 <= i < s.len() && s[i] == k;
            if i < a.len() {
                assert(a[i] == k);
            } else if i < a.len() + b.len() {
                assert(b[i - a.len()] == k);
            } else if i < a.len() + b.len() + c.len() {
                assert(c[i - a.len() - b.len()] == k);
            } else {
                assert(d[i - a.len() - b.len() - c.len()] == k);
            }
        }
        if a.contains(k) {
            assert(s[0] == k);
        }
        if b.contains(k) {
            assert(s[a.len() as int] == k);
        }
        if c.contains(k) {
            assert(s[(a.len() + b.len()) as int] == k);
        }
        if d.contains(k) {
            assert(s[(a.len() + b.len() + c.len()) as int] == k);
        }
    }
    if m.insert {
        assert(a[0] == MessageKind::Insert);
    }
    if m.delete {
        assert(b[0] == MessageKind::Delete);
    }
    if m.update {
        assert(c[0] == MessageKind::Update);
    }
    if m.update && m.insert {
        assert(d[0] == MessageKind::InsertUpdate);
    }
    assert forall|i: int, j: int| 0 <= i < s.len() && 0 <= j < s.len() && i != j implies s[i] != s[j] by {
        assert(s[i] == (a + b + c + d)[i]);
        assert(s[j] == (a + b + c + d)[j]);
    }
}

/// A table without primary key registers the insert and delete messages as chosen, each
/// once, and never an update or insert-or-update message.
pub proof fn lemma_table_message_kinds_without_pk(m: TableMessagesWithoutPrimaryKey)
    ensures
        table_message_kinds_without_pk(m).contains(MessageKind::Insert) <==> m.insert,
        table_message_kinds_without_pk(m).contains(MessageKind::Delete) <==> m.delete,
        !table_message_kinds_without_pk(m).contains(MessageKind::Update),
        !table_message_kinds_without_pk(m).contains(MessageKind::InsertUpdate),
        table_message_kinds_without_pk(m).no_duplicates(),
{
    let s = table_message_kinds_without_pk(m);
    let a = kind_if(m.insert, MessageKind::Insert);
    let b = kind_if(m.delete, MessageKind::Delete);
    assert forall|k: MessageKind| s.contains(k) <==> (a.contains(k) || b.contains(k)) by {
        if s.contains(k) {
            let i = choose|i: int| 0 <= i < s.len() && s[i] == k;
            if i < a.len() {
                assert(a[i] == k);
            } else {
                assert(b[i - a.len()] == k);
            }
        }
        if a.contains(k) {
            assert(s[0] == k);
        }
        if b.contains(k) {
            assert(s[a.len() as int] == k);
        }
    }
    if m.insert {
        assert(a[0] == MessageKind::Insert);
    }
    if m.delete {
        assert(b[0] == MessageKind::Delete);
    }
}

/// The ready-made selections: `all` registers every message, `no_update` the insert and
/// delete messages only, and `all` without primary key the insert and delete messages.
pub proof fn lemma_ready_made_selections()
    ensures
        table_message_kinds(TableMessages { insert: true, update: true, delete: true }) == seq![
            MessageKind::Insert,
            MessageKind::Delete,
            MessageKind::Update,
            MessageKind::InsertUpdate,
        ],
        table_message_kinds(TableMessages { insert: true, update: false, delete: true }) == seq![
            MessageKind::Insert,
            MessageKind::Delete,
        ],
        table_message_kinds_without_pk(TableMessagesWithoutPrimaryKey { insert: true, delete: true })
            == seq![MessageKind::Insert, MessageKind::Delete],
{
    assert(table_message_kinds(TableMessages { insert: true, update: true, delete: true }) =~= seq![
        MessageKind::Insert,
        MessageKind::Delete,
        MessageKind::Update,
        MessageKind::InsertUpdate,
    ]);
    assert(table_message_kinds(TableMessages { insert: true, update: false, delete: true }) =~= seq![
        MessageKind::Insert,
        MessageKind::Delete,
    ]);
    assert(table_message_kinds_without_pk(TableMessagesWithoutPrimaryKey { insert: true, delete: true })
        =~= seq![MessageKind::Insert, MessageKind::Delete]);
}

} // verus!
