use bevy_spacetimedb::{ChannelInstall, MessageChannels, MessageSenders, SenderSlot};

#[test]
fn app_channel_is_recorded() {
    let mut channels = MessageChannels::new();
    assert!(!channels.contains(7));
    channels.add_to_app(7);
    assert!(channels.contains(7));
    assert!(!channels.contains(8));
}

#[test]
fn world_channel_is_installed_once() {
    let mut channels = MessageChannels::new();
    assert_eq!(
        channels.add_to_world(3, Some(true)),
        ChannelInstall::Installed { system_added: true }
    );
    assert_eq!(channels.add_to_world(3, Some(true)), ChannelInstall::AlreadyPresent);
    assert_eq!(channels.add_to_world(3, Some(false)), ChannelInstall::AlreadyPresent);
    assert!(channels.contains(3));
}

#[test]
fn world_without_pre_update_gets_no_forwarding_system() {
    let mut channels = MessageChannels::new();
    assert_eq!(
        channels.add_to_world(5, Some(false)),
        ChannelInstall::Installed { system_added: false }
    );
    assert!(channels.contains(5));
}

#[test]
fn world_skips_a_channel_the_app_already_has() {
    let mut channels = MessageChannels::new();
    channels.add_to_app(9);
    assert_eq!(channels.add_to_world(9, Some(true)), ChannelInstall::AlreadyPresent);
}

#[test]
fn world_without_schedules_still_skips_a_present_channel() {
    let mut channels = MessageChannels::new();
    channels.add_to_app(11);
    assert_eq!(channels.add_to_world(11, None), ChannelInstall::AlreadyPresent);
}

#[test]
fn one_sender_per_message_type() {
    let mut channels = MessageChannels::new();
    let mut senders: MessageSenders<&'static str> = MessageSenders::new();
    assert_eq!(
        senders.sender_slot(&mut channels, 10, || "ten"),
        SenderSlot { slot: 0, created: true }
    );
    assert!(channels.contains(10));
    assert_eq!(
        senders.sender_slot(&mut channels, 20, || "twenty"),
        SenderSlot { slot: 1, created: true }
    );
    assert_eq!(
        senders.sender_slot(&mut channels, 10, || "again"),
        SenderSlot { slot: 0, created: false }
    );
    assert_eq!(
        senders.sender_slot(&mut channels, 20, || "again"),
        SenderSlot { slot: 1, created: false }
    );
    assert!(channels.contains(20));
    assert_eq!(*senders.sender(0), "ten");
    assert_eq!(*senders.sender(1), "twenty");
}

#[test]
fn senders_remember_their_message_types() {
    let mut channels = MessageChannels::new();
    let mut senders: MessageSenders<u8> = MessageSenders::new();
    assert!(!senders.contains(4));
    senders.sender_slot(&mut channels, 4, || 1);
    assert!(senders.contains(4));
    assert!(!senders.contains(5));
}
