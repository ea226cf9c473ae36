use hone_editor::buffer::{Metrics, OriginalLine, TextBuffer};
use hone_editor::frame::{selection_rect, Rect, SelectionSpan};
use hone_editor::token::{TokenSpan, TokenStyle};

fn make(lines: &[&str], view_height: u32) -> TextBuffer {
    let content = lines
        .iter()
        .map(|t| OriginalLine {
            text: t.to_string(),
            tokens: vec![TokenSpan { start: 0, end: 1, color: "#abcdef".to_string(), style: TokenStyle::Bold }],
        })
        .collect();
    TextBuffer::new(content, Metrics { line_height: 20, char_width: 10, view_height })
}

#[test]
fn frame_lists_visible_lines() {
    let lines: Vec<String> = (0..30).map(|i| format!("l{}", i)).collect();
    let refs: Vec<&str> = lines.iter().map(|s| s.as_str()).collect();
    let mut b = make(&refs, 60);
    b.scroll_by(50);
    let f = b.frame();
    assert_eq!(f.gutter_width, 2 * 10 + 36);
    assert_eq!(f.lines.len(), 5);
    assert_eq!(f.lines[0].line_number, 3);
    assert_eq!(f.lines[0].text, "l2");
    assert_eq!(f.lines[0].y_offset, 2 * 20 - 50);
    assert_eq!(f.lines[4].line_number, 7);
    assert_eq!(f.lines[0].tokens, vec![TokenSpan { start: 0, end: 1, color: "#abcdef".to_string(), style: TokenStyle::Bold }]);
    assert_eq!((f.cursor_line, f.cursor_col, f.cursor_y), (0, 0, -50));
    assert!(f.selection.is_empty());
}

#[test]
fn frame_near_end_is_cut_at_line_count() {
    let mut b = make(&["a", "b", "c"], 100);
    b.scroll_by(1000);
    assert_eq!(b.scroll_y(), 0);
    let f = b.frame();
    assert_eq!(f.lines.len(), 3);
    assert_eq!(f.lines[2].line_number, 3);
}

#[test]
fn selection_spans_per_line() {
    let mut b = make(&["abc", "defg", "hi"], 100);
    b.move_right(false);
    b.move_down(true);
    b.move_down(true);
    let spans = b.selection_spans();
    assert_eq!(
        spans,
        vec![
            SelectionSpan { line: 0, start_col: 1, end_col: 3, y: 0 },
            SelectionSpan { line: 1, start_col: 0, end_col: 4, y: 20 },
            SelectionSpan { line: 2, start_col: 0, end_col: 1, y: 40 },
        ]
    );
    assert_eq!(b.frame().selection, spans);
}

#[test]
fn zero_width_selection_rects_are_dropped() {
    assert_eq!(selection_rect(56, 10, 30, 20, 21), Some(Rect { x: 66, y: 20, w: 20, h: 21 }));
    assert_eq!(selection_rect(56, 30, 30, 20, 21), None);
    assert_eq!(selection_rect(56, 40, 30, 20, 21), None);
}

#[test]
fn click_picks_nearest_measured_edge() {
    let mut b = make(&["aé€b", "x"], 100);
    assert_eq!(b.line_at(5), 0);
    assert_eq!(b.line_at(25), 1);
    assert_eq!(b.line_at(-3), 0);
    assert_eq!(b.line_at(500), 1);
    let ends = b.char_ends(0);
    assert_eq!(ends, vec![1, 3, 6, 7]);
    let widths = vec![8, 16, 30, 38];
    b.click_to_cursor(56 + 20, 5, &widths);
    assert_eq!(b.cursor(), (0, 3));
    b.click_to_cursor(56 + 25, 5, &widths);
    assert_eq!(b.cursor(), (0, 6));
    b.click_to_cursor(56 + 3, 5, &widths);
    assert_eq!(b.cursor(), (0, 0));
    b.click_to_cursor(56 + 500, 5, &widths);
    assert_eq!(b.cursor(), (0, 7));
    b.click_to_cursor(10, 5, &widths);
    assert_eq!(b.cursor(), (0, 0));
}

#[test]
fn uppercase_replaces_selection() {
    let mut b = make(&["make loud now"], 100);
    b.uppercase_selection();
    assert_eq!(b.line_text(0), "make loud now");
    for _ in 0..5 {
        b.move_right(false);
    }
    for _ in 0..4 {
        b.move_right(true);
    }
    b.uppercase_selection();
    assert_eq!(b.line_text(0), "make LOUD now");
    assert_eq!(b.cursor(), (0, 9));
    assert!(!b.has_selection());
}
