use bight_grid::coords::CellPos;
use bight_grid::editor::{EditError, EditorState};
use bight_grid::format::format_to_width;

#[test]
fn edit_round_trip() {
    // With a cell width of 8, storing "42", editing the cell and
    // committing the same text leaves the source "42", and the value
    // formatted to width 8 is "42" followed by six spaces.
    let mut s = EditorState::new();
    let p = CellPos { x: 0, y: 0 };
    s.set_source(p, Some("42".to_string()));
    assert!(s.begin_edit(p).is_ok());
    assert_eq!(s.commit_edit("42"), Some(p));
    assert_eq!(s.get_source(p), Some("42".to_string()));
    assert_eq!(format_to_width(s.get_value(p).as_str(), 8), "42      ");
}

#[test]
fn single_pending_edit() {
    // Once an edit of p1 is pending, beginning an edit of p2 fails with
    // a defined error and p1 stays the pending cell.
    let mut s = EditorState::new();
    let p1 = CellPos { x: 0, y: 0 };
    let p2 = CellPos { x: 1, y: 0 };
    assert!(s.begin_edit(p1).is_ok());
    assert_eq!(s.begin_edit(p2), Err(EditError::AlreadyEditing(p1)));
    assert_eq!(s.commit_edit(""), Some(p1));
}

#[test]
fn commit_strips_text_before_the_cell() {
    // The edited cell starts at column 9; everything before that column
    // belongs to other cells and is stripped, the rest is trimmed.
    let mut s = EditorState::new();
    let p = CellPos { x: 1, y: 0 };
    assert!(s.begin_edit(p).is_ok());
    assert_eq!(s.commit_edit("aaaaaaaa   42  "), Some(p));
    assert_eq!(s.get_source(p), Some("42".to_string()));
}

#[test]
fn commit_of_blank_text_clears_the_cell() {
    let mut s = EditorState::new();
    let p = CellPos { x: 0, y: 0 };
    s.set_source(p, Some("9".to_string()));
    assert!(s.begin_edit(p).is_ok());
    assert_eq!(s.commit_edit("   "), Some(p));
    assert_eq!(s.get_source(p), None);
}

#[test]
fn commit_without_pending_edit_is_inert() {
    let mut s = EditorState::new();
    s.set_source(CellPos { x: 0, y: 0 }, Some("1".to_string()));
    assert_eq!(s.commit_edit("zz"), None);
    assert_eq!(s.get_source(CellPos { x: 0, y: 0 }), Some("1".to_string()));
}

#[test]
fn edit_allowed_again_after_commit() {
    let mut s = EditorState::new();
    let p1 = CellPos { x: 0, y: 0 };
    let p2 = CellPos { x: 2, y: 3 };
    assert!(s.begin_edit(p1).is_ok());
    assert_eq!(s.commit_edit("x"), Some(p1));
    assert!(s.begin_edit(p2).is_ok());
    assert_eq!(s.commit_edit(""), Some(p2));
}

#[test]
fn scratch_commit_trims_like_an_inline_commit() {
    // The scratch-surface entry point stores the whole text under the
    // same trim rule; a trailing line break from the buffer is trimmed,
    // inner line breaks stay.
    let mut s = EditorState::new();
    let p = CellPos { x: 2, y: 1 };
    s.commit_source_text(p, "line one\nline two\n");
    assert_eq!(s.get_source(p), Some("line one\nline two".to_string()));
}

#[test]
fn scratch_commit_of_blank_text_clears() {
    let mut s = EditorState::new();
    let p = CellPos { x: 0, y: 0 };
    s.set_source(p, Some("old".to_string()));
    s.commit_source_text(p, " \n ");
    assert_eq!(s.get_source(p), None);
}

#[test]
fn commit_keeps_inner_blanks() {
    let mut s = EditorState::new();
    let p = CellPos { x: 0, y: 0 };
    assert!(s.begin_edit(p).is_ok());
    assert_eq!(s.commit_edit("  a b  "), Some(p));
    assert_eq!(s.get_source(p), Some("a b".to_string()));
}
