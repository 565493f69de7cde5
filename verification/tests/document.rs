use rustshot::document::AnnotationDocument;

/// A line from one point to another, as the editor's objects carry it.
#[derive(Clone, Debug, PartialEq)]
struct Line {
    start: (f32, f32),
    end: (f32, f32),
    width: f32,
}

fn line() -> Line {
    Line { start: (1.0, 1.0), end: (6.0, 6.0), width: 2.0 }
}

fn translated(line: &Line, dx: f32, dy: f32) -> Line {
    Line {
        start: (line.start.0 + dx, line.start.1 + dy),
        end: (line.end.0 + dx, line.end.1 + dy),
        width: line.width,
    }
}

#[test]
fn undo_redo_and_clear_are_consistent() {
    let mut document = AnnotationDocument::new();
    document.add(line());
    assert_eq!(document.len(), 1);
    assert!(document.undo());
    assert!(document.is_empty());
    assert!(document.redo());
    assert_eq!(document.len(), 1);
    assert!(document.clear());
    assert!(document.is_empty());
    assert!(document.undo());
    assert_eq!(document.len(), 1);
    assert!(document.redo());
    assert!(document.is_empty());
}

#[test]
fn a_new_edit_invalidates_redo() {
    let mut document = AnnotationDocument::new();
    document.add(line());
    document.undo();
    document.add(line());
    assert!(!document.can_redo());
}

#[test]
fn object_edits_round_trip_without_full_document_snapshots() {
    let mut document = AnnotationDocument::new();
    document.add(line());
    let before = document.annotation(0).unwrap().clone();
    let moved = translated(&before, 7.0, -3.0);
    assert!(document.replace(0, moved));
    assert_ne!(document.annotation(0), Some(&before));
    assert!(document.undo());
    assert_eq!(document.annotation(0), Some(&before));
    assert!(document.redo());
    assert!(document.delete(0));
    assert!(document.is_empty());
    assert!(document.undo());
    assert_eq!(document.len(), 1);
}

#[test]
fn nothing_to_undo_or_redo_changes_nothing() {
    let mut document: AnnotationDocument<Line> = AnnotationDocument::new();
    assert!(!document.undo());
    assert!(!document.redo());
    assert!(!document.clear());
    assert!(!document.delete(0));
    assert!(!document.replace(0, line()));
    assert!(!document.can_undo());
    assert!(document.annotations().is_empty());
}

#[test]
fn deletes_restore_objects_at_their_position() {
    let mut document = AnnotationDocument::new();
    document.add(1_u32);
    document.add(2);
    document.add(3);
    assert!(document.delete(1));
    assert_eq!(document.annotations(), &[1, 3]);
    assert!(document.undo());
    assert_eq!(document.annotations(), &[1, 2, 3]);
    assert!(document.redo());
    assert_eq!(document.annotations(), &[1, 3]);
    assert!(document.undo());
    assert!(document.undo());
    assert_eq!(document.annotations(), &[1, 2]);
}

#[test]
fn rebase_moves_current_and_remembered_objects() {
    let mut document = AnnotationDocument::new();
    document.add(line());
    assert!(document.replace(0, translated(&line(), 1.0, 0.0)));
    document.rebase(|object: &Line| translated(object, -1.0, -1.0));
    assert_eq!(document.annotation(0), Some(&translated(&line(), 0.0, -1.0)));
    assert!(document.undo());
    assert_eq!(document.annotation(0), Some(&translated(&line(), -1.0, -1.0)));
    assert!(document.can_undo());
}
