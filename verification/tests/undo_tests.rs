use dim::position::Position;
use dim::undo::{EditOp, Transaction, UndoManager};

#[test]
fn test_transaction_new_is_empty() {
    let txn = Transaction::new();
    assert!(txn.is_empty());
}

#[test]
fn test_transaction_with_ops() {
    let txn = Transaction::with_ops(vec![
        EditOp::Insert {
            pos: Position::new(0, 0),
            text: "a".to_string(),
        },
    ]);
    assert!(!txn.is_empty());
    assert_eq!(txn.ops.len(), 1);
}

#[test]
fn test_undo_manager_push_and_undo() {
    let mut um = UndoManager::new();
    assert!(!um.can_undo());

    um.push(Transaction::with_ops(vec![EditOp::Insert {
        pos: Position::new(0, 0),
        text: "hello".to_string(),
    }]));

    assert!(um.can_undo());
    assert_eq!(um.undo_len(), 1);

    let undone = um.undo();
    assert!(undone.is_some());
    assert!(!um.can_undo());
    assert!(um.can_redo());
    assert_eq!(um.redo_len(), 1);
}

#[test]
fn test_undo_manager_redo() {
    let mut um = UndoManager::new();
    um.push(Transaction::with_ops(vec![EditOp::Delete {
        pos: Position::new(1, 0),
        text: "world".to_string(),
    }]));

    um.undo();
    assert!(um.can_redo());

    let redone = um.redo();
    assert!(redone.is_some());
    assert!(um.can_undo());
    assert!(!um.can_redo());
}

#[test]
fn test_undo_manager_push_clears_redo() {
    let mut um = UndoManager::new();
    um.push(Transaction::with_ops(vec![EditOp::Insert {
        pos: Position::new(0, 0),
        text: "first".to_string(),
    }]));
    um.undo();
    assert!(um.can_redo());

    um.push(Transaction::with_ops(vec![EditOp::Insert {
        pos: Position::new(0, 0),
        text: "second".to_string(),
    }]));
    assert!(!um.can_redo());
}

#[test]
fn test_undo_manager_empty_undo_returns_none() {
    let mut um = UndoManager::new();
    assert_eq!(um.undo(), None);
}

#[test]
fn test_undo_manager_empty_redo_returns_none() {
    let mut um = UndoManager::new();
    assert_eq!(um.redo(), None);
}

#[test]
fn test_undo_manager_len_tracks_correctly() {
    let mut um = UndoManager::new();
    assert_eq!(um.undo_len(), 0);
    assert_eq!(um.redo_len(), 0);

    um.push(Transaction::with_ops(vec![EditOp::Insert {
        pos: Position::new(0, 0),
        text: "a".to_string(),
    }]));
    assert_eq!(um.undo_len(), 1);
    assert_eq!(um.redo_len(), 0);

    um.push(Transaction::with_ops(vec![EditOp::Insert {
        pos: Position::new(0, 0),
        text: "b".to_string(),
    }]));
    assert_eq!(um.undo_len(), 2);
    assert_eq!(um.redo_len(), 0);

    um.undo();
    assert_eq!(um.undo_len(), 1);
    assert_eq!(um.redo_len(), 1);

    um.undo();
    assert_eq!(um.undo_len(), 0);
    assert_eq!(um.redo_len(), 2);

    um.redo();
    assert_eq!(um.undo_len(), 1);
    assert_eq!(um.redo_len(), 1);
}

