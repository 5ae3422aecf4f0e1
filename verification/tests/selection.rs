use bight_grid::coords::CellPos;
use bight_grid::editor::EditorState;
use bight_grid::range::range_between;

#[test]
fn range_normalization() {
    // Anchor (1, 1) and cursor (3, 4) give the rectangle starting at
    // (1, 1), 3 cells wide and 4 cells tall, holding both corners.
    let mut s = EditorState::new();
    s.set_visual_start(CellPos { x: 1, y: 1 });
    let r = s.get_current_visual_range(CellPos { x: 3, y: 4 });
    assert_eq!(r.start, CellPos { x: 1, y: 1 });
    assert_eq!(r.width, 3);
    assert_eq!(r.height, 4);
    for corner in [CellPos { x: 1, y: 1 }, CellPos { x: 3, y: 4 }] {
        assert!(r.start.x <= corner.x && corner.x < r.start.x + r.width);
        assert!(r.start.y <= corner.y && corner.y < r.start.y + r.height);
    }
}

#[test]
fn range_between_ignores_corner_order() {
    let a = CellPos { x: 3, y: 4 };
    let b = CellPos { x: 1, y: 1 };
    assert_eq!(range_between(a, b), range_between(b, a));
    let r = range_between(a, b);
    assert_eq!(r.start, CellPos { x: 1, y: 1 });
    assert_eq!(r.width, 3);
    assert_eq!(r.height, 4);
}

#[test]
fn range_of_one_cell() {
    let p = CellPos { x: 2, y: 5 };
    let r = range_between(p, p);
    assert_eq!(r.start, p);
    assert_eq!(r.width, 1);
    assert_eq!(r.height, 1);
}

#[test]
fn visual_anchor_is_remembered() {
    let mut s = EditorState::new();
    assert_eq!(s.get_visual_start(), CellPos { x: 0, y: 0 });
    s.set_visual_start(CellPos { x: 7, y: 2 });
    assert_eq!(s.get_visual_start(), CellPos { x: 7, y: 2 });
}
