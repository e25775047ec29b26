use bevy_spacetimedb::{MessageKind, TableMessages, TableMessagesWithoutPrimaryKey};

#[test]
fn table_messages_all_selects_everything() {
    let m = TableMessages::all();
    assert!(m.insert && m.update && m.delete);
    assert_eq!(
        m.message_kinds(),
        vec![
            MessageKind::Insert,
            MessageKind::Delete,
            MessageKind::Update,
            MessageKind::InsertUpdate
        ]
    );
}

#[test]
fn table_messages_no_update_skips_updates() {
    let m = TableMessages::no_update();
    assert!(m.insert && !m.update && m.delete);
    assert_eq!(m.message_kinds(), vec![MessageKind::Insert, MessageKind::Delete]);
}

#[test]
fn table_messages_default_selects_nothing() {
    let m = TableMessages::default();
    assert!(!m.insert && !m.update && !m.delete);
    assert!(m.message_kinds().is_empty());
}

#[test]
fn insert_update_needs_both_insert_and_update() {
    let m = TableMessages { insert: true, update: true, delete: false };
    assert_eq!(
        m.message_kinds(),
        vec![MessageKind::Insert, MessageKind::Update, MessageKind::InsertUpdate]
    );
    let m = TableMessages { insert: false, update: true, delete: true };
    assert_eq!(m.message_kinds(), vec![MessageKind::Delete, MessageKind::Update]);
    let m = TableMessages { insert: true, update: false, delete: false };
    assert_eq!(m.message_kinds(), vec![MessageKind::Insert]);
}

#[test]
fn without_primary_key_all_selects_insert_and_delete() {
    let m = TableMessagesWithoutPrimaryKey::all();
    assert!(m.insert && m.delete);
    assert_eq!(m.message_kinds(), vec![MessageKind::Insert, MessageKind::Delete]);
}

#[test]
fn without_primary_key_partial_selections() {
    let m = TableMessagesWithoutPrimaryKey { insert: false, delete: true };
    assert_eq!(m.message_kinds(), vec![MessageKind::Delete]);
    let m = TableMessagesWithoutPrimaryKey::default();
    assert!(!m.insert && !m.delete);
    assert!(m.message_kinds().is_empty());
}
