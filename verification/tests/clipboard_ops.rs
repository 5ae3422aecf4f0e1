use bight_grid::coords::CellPos;
use bight_grid::editor::EditorState;
use bight_grid::range::CellRange;

#[test]
fn yank_source_then_paste() {
    let mut s = EditorState::new();
    let p1 = CellPos { x: 0, y: 0 };
    let p2 = CellPos { x: 3, y: 1 };
    s.set_source(p1, Some("7".to_string()));
    s.yank_source(p1);
    s.paste_at(p2);
    assert_eq!(s.get_source(p2), Some("7".to_string()));
}

#[test]
fn yank_of_missing_source_is_empty_text() {
    let mut s = EditorState::new();
    s.yank_source(CellPos { x: 5, y: 5 });
    s.paste_at(CellPos { x: 0, y: 0 });
    assert_eq!(s.get_source(CellPos { x: 0, y: 0 }), Some("".to_string()));
}

#[test]
fn yank_value_copies_the_evaluated_text() {
    let mut s = EditorState::new();
    let p = CellPos { x: 1, y: 1 };
    s.set_source(p, Some("3".to_string()));
    s.yank_value(p);
    s.paste_at(CellPos { x: 0, y: 0 });
    assert_eq!(s.get_source(CellPos { x: 0, y: 0 }), Some("3".to_string()));
}

#[test]
fn paste_with_empty_clipboard_clears() {
    let mut s = EditorState::new();
    let p = CellPos { x: 0, y: 0 };
    s.set_source(p, Some("x".to_string()));
    s.paste_at(p);
    assert_eq!(s.get_source(p), None);
}

#[test]
fn paste_range_fills_every_cell() {
    let mut s = EditorState::new();
    s.set_source(CellPos { x: 0, y: 0 }, Some("9".to_string()));
    s.yank_source(CellPos { x: 0, y: 0 });
    let r = CellRange { start: CellPos { x: 1, y: 1 }, width: 2, height: 2 };
    s.paste_range(r);
    for y in [1usize, 2] {
        for x in [1usize, 2] {
            assert_eq!(s.get_source(CellPos { x, y }), Some("9".to_string()));
        }
    }
}

#[test]
fn clear_range_is_total() {
    // After clearing a range, no cell inside it has a source; cells
    // outside it are untouched.
    let mut s = EditorState::new();
    for y in 0usize..3 {
        for x in 0usize..3 {
            s.set_source(CellPos { x, y }, Some(format!("{}{}", x, y)));
        }
    }
    let r = CellRange { start: CellPos { x: 0, y: 0 }, width: 2, height: 2 };
    s.clear_range(r);
    for y in 0usize..2 {
        for x in 0usize..2 {
            assert_eq!(s.get_source(CellPos { x, y }), None);
        }
    }
    assert_eq!(s.get_source(CellPos { x: 2, y: 0 }), Some("20".to_string()));
    assert_eq!(s.get_source(CellPos { x: 0, y: 2 }), Some("02".to_string()));
    assert_eq!(s.get_source(CellPos { x: 2, y: 2 }), Some("22".to_string()));
}

#[test]
fn csv_of_a_range() {
    let mut s = EditorState::new();
    s.set_source(CellPos { x: 0, y: 0 }, Some("1".to_string()));
    s.set_source(CellPos { x: 1, y: 0 }, Some("2".to_string()));
    s.set_source(CellPos { x: 0, y: 1 }, Some("3".to_string()));
    let r = CellRange { start: CellPos { x: 0, y: 0 }, width: 2, height: 2 };
    assert_eq!(s.get_value_range_as_csv(r), "1,2\n3,\n");
}

#[test]
fn yank_range_as_csv_fills_the_clipboard() {
    let mut s = EditorState::new();
    s.set_source(CellPos { x: 0, y: 0 }, Some("a".to_string()));
    s.set_source(CellPos { x: 1, y: 0 }, Some("b".to_string()));
    let r = CellRange { start: CellPos { x: 0, y: 0 }, width: 2, height: 1 };
    s.yank_value_range_as_csv(r);
    s.paste_at(CellPos { x: 0, y: 5 });
    assert_eq!(s.get_source(CellPos { x: 0, y: 5 }), Some("a,b\n".to_string()));
}
