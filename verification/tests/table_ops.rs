use bight_grid::coords::CellPos;
use bight_grid::format::format_to_width;
use bight_grid::table::Table;

#[test]
fn set_and_get_source() {
    let mut t = Table::new();
    let p = CellPos { x: 0, y: 0 };
    assert_eq!(t.get_source(p), None);
    t.set_source(p, Some("42".to_string()));
    assert_eq!(t.get_source(p), Some("42".to_string()));
    t.set_source(p, Some("7".to_string()));
    assert_eq!(t.get_source(p), Some("7".to_string()));
    t.set_source(p, None);
    assert_eq!(t.get_source(p), None);
}

#[test]
fn values_lag_until_evaluation() {
    let mut t = Table::new();
    let p = CellPos { x: 1, y: 2 };
    t.set_source(p, Some("5".to_string()));
    assert_eq!(t.get(p), None);
    t.evaluate();
    assert_eq!(t.get(p), Some("5".to_string()));
    t.set_source(p, Some("6".to_string()));
    assert_eq!(t.get(p), Some("5".to_string()));
    t.evaluate();
    assert_eq!(t.get(p), Some("6".to_string()));
}

#[test]
fn distinct_cells_are_independent() {
    let mut t = Table::new();
    t.set_source(CellPos { x: 0, y: 0 }, Some("a".to_string()));
    t.set_source(CellPos { x: 0, y: 1 }, Some("b".to_string()));
    t.set_source(CellPos { x: 1, y: 0 }, Some("c".to_string()));
    t.set_source(CellPos { x: 0, y: 1 }, None);
    assert_eq!(t.get_source(CellPos { x: 0, y: 0 }), Some("a".to_string()));
    assert_eq!(t.get_source(CellPos { x: 0, y: 1 }), None);
    assert_eq!(t.get_source(CellPos { x: 1, y: 0 }), Some("c".to_string()));
}

#[test]
fn format_pads_to_width() {
    assert_eq!(format_to_width("42", 8), "42      ");
    assert_eq!(format_to_width("", 8), "        ");
    assert_eq!(format_to_width("12345678", 8), "12345678");
}

#[test]
fn format_truncates_to_width() {
    assert_eq!(format_to_width("123456789abc", 8), "12345678");
}

#[test]
fn format_keeps_only_the_first_line() {
    assert_eq!(format_to_width("ab\ncd", 8), "ab      ");
    assert_eq!(format_to_width("\nxy", 4), "    ");
}
