use bight_grid::coords::CellPos;
use bight_grid::editor::EditorState;
use bight_grid::render::{render_buffer, render_buffer_edit, HighlightSpan};

#[test]
fn render_of_empty_table_is_blank() {
    let mut s = EditorState::new();
    let (lines, span) = render_buffer(&mut s, 20, 3, "");
    assert_eq!(span, None);
    assert_eq!(lines.len(), 3);
    for line in &lines {
        assert_eq!(line, &" ".repeat(20));
    }
}

#[test]
fn render_lays_cells_out_with_separators() {
    let mut s = EditorState::new();
    s.set_source(CellPos { x: 0, y: 0 }, Some("42".to_string()));
    s.set_source(CellPos { x: 1, y: 0 }, Some("x".to_string()));
    s.set_source(CellPos { x: 0, y: 1 }, Some("y".to_string()));
    let (lines, span) = render_buffer(&mut s, 20, 2, "");
    assert_eq!(span, None);
    assert_eq!(lines.len(), 2);
    assert_eq!(lines[0], format!("42{}x{}", " ".repeat(7), " ".repeat(10)));
    assert_eq!(lines[1], format!("y{}", " ".repeat(19)));
}

#[test]
fn render_truncates_to_the_viewport_width() {
    let mut s = EditorState::new();
    s.set_source(CellPos { x: 0, y: 0 }, Some("123456789abc".to_string()));
    let (lines, _) = render_buffer(&mut s, 5, 1, "");
    assert_eq!(lines[0], "12345");
}

#[test]
fn no_embedded_line_breaks() {
    // Whatever the table holds, every rendered line is free of line
    // breaks and at most one character longer than the viewport width.
    let mut s = EditorState::new();
    s.set_source(CellPos { x: 0, y: 0 }, Some("a\nb".to_string()));
    s.set_source(CellPos { x: 1, y: 1 }, Some("\n\n".to_string()));
    for (w, h) in [(1usize, 1usize), (10, 3), (25, 2)] {
        let (lines, _) = render_buffer(&mut s, w, h, "");
        assert_eq!(lines.len(), h);
        for line in &lines {
            assert!(!line.contains('\n'));
            assert!(line.chars().count() <= w + 1);
        }
    }
    let (lines, _) = render_buffer(&mut s, 10, 1, "");
    assert_eq!(lines[0], format!("a{}", " ".repeat(9)));
}

#[test]
fn render_echoes_the_live_line_during_an_edit() {
    let mut s = EditorState::new();
    s.set_source(CellPos { x: 0, y: 0 }, Some("42".to_string()));
    assert!(s.begin_edit(CellPos { x: 0, y: 0 }).is_ok());
    let (lines, span) = render_buffer(&mut s, 10, 2, "42= live");
    assert_eq!(span, Some(HighlightSpan { row: 0, col_start: 0, col_end: 10 }));
    assert_eq!(lines.len(), 2);
    assert_eq!(lines[0], format!("42= live{}", " ".repeat(3)));
    assert_eq!(lines[1], " ".repeat(10));
}

#[test]
fn overlay_splices_the_raw_source_after_the_evaluated_prefix() {
    let mut s = EditorState::new();
    let p = CellPos { x: 1, y: 0 };
    s.set_source(p, Some("7+2".to_string()));
    let (lines, span) = render_buffer_edit(&mut s, 20, 1, p, true, "");
    assert_eq!(span, HighlightSpan { row: 0, col_start: 9, col_end: 29 });
    assert_eq!(lines.len(), 1);
    assert_eq!(lines[0], format!("{}7+2{}", " ".repeat(9), " ".repeat(9)));
}

#[test]
fn overlay_echo_keeps_lines_free_of_breaks() {
    let mut s = EditorState::new();
    assert!(s.begin_edit(CellPos { x: 0, y: 0 }).is_ok());
    let (lines, _) = render_buffer(&mut s, 10, 1, "ab\ncd");
    assert_eq!(lines[0], format!("ab{}", " ".repeat(9)));
    assert!(!lines[0].contains('\n'));
}

#[test]
fn edit_below_the_viewport_renders_plain_rows() {
    // The highlight span still names the edited row; the rows on screen
    // are the evaluated ones.
    let mut s = EditorState::new();
    s.set_source(CellPos { x: 0, y: 0 }, Some("v".to_string()));
    assert!(s.begin_edit(CellPos { x: 0, y: 5 }).is_ok());
    let (lines, span) = render_buffer(&mut s, 12, 2, "");
    assert_eq!(span, Some(HighlightSpan { row: 5, col_start: 0, col_end: 12 }));
    assert_eq!(lines.len(), 2);
    assert_eq!(lines[0], format!("v{}", " ".repeat(11)));
    assert_eq!(lines[1], " ".repeat(12));
}

#[test]
fn overlay_row_may_be_one_character_longer() {
    let mut s = EditorState::new();
    let p = CellPos { x: 0, y: 0 };
    assert!(s.begin_edit(p).is_ok());
    let (lines, _) = render_buffer(&mut s, 4, 1, "abcdefgh");
    assert_eq!(lines[0], "abcde");
}
