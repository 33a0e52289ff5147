use cem::undo::{UndoAction, UndoBuffer};

#[test]
fn undo_buffer_starts_empty() {
    let buffer = UndoBuffer::default();
    assert!(!buffer.has_undos());
    assert!(!buffer.has_redos());
    assert_eq!(buffer.iter_undo().count(), 0);
    assert_eq!(buffer.iter_redo().count(), 0);
}

#[test]
fn undo_buffer_keeps_newest_within_limit() {
    let mut scene = hecs::World::new();
    let mut buffer = UndoBuffer::new(Some(2), None);

    for i in 0..4u32 {
        let entity = scene.spawn((i,));
        let taken = scene.take(entity).unwrap();
        let id = buffer.send_to_hades(taken);
        buffer.push_undo(UndoAction::DeleteEntity { hades_ids: vec![id] });
    }
    assert!(buffer.has_undos());
    assert_eq!(buffer.iter_undo().count(), 2);
}

#[test]
fn undo_buffer_without_limit_keeps_everything() {
    let mut scene = hecs::World::new();
    let mut buffer = UndoBuffer::new(None, None);
    let a = scene.spawn((1u32,));
    let b = scene.spawn((2u32,));
    buffer.push_undo(UndoAction::CreateEntity { entity: a });
    let taken = scene.take(b).unwrap();
    let id = buffer.send_to_hades(taken);
    buffer.push_undo(UndoAction::DeleteEntity { hades_ids: vec![id] });
    assert_eq!(buffer.iter_undo().count(), 2);
    assert!(matches!(buffer.iter_undo().next(), Some(UndoAction::DeleteEntity { .. })));
}

#[test]
fn undo_buffer_with_zero_limit_keeps_nothing() {
    let mut scene = hecs::World::new();
    let mut buffer = UndoBuffer::new(Some(0), Some(0));
    let a = scene.spawn((1u32,));
    let taken = scene.take(a).unwrap();
    let id = buffer.send_to_hades(taken);
    buffer.push_undo(UndoAction::DeleteEntity { hades_ids: vec![id] });
    assert!(!buffer.has_undos());
}
