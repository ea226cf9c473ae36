use hone_editor::actions::{action_from_name, EditorAction};
use hone_editor::buffer::{Metrics, OriginalLine, TextBuffer};
use hone_editor::demo::{initial_buffer, initial_content};
use hone_editor::keys::{action_for_key, menu_command, MenuCommand};
use hone_editor::token::{TokenSpan, TokenStyle};
use hone_editor::viewport::{gutter_width, visible_range};

fn metrics() -> Metrics {
    Metrics { line_height: 20, char_width: 10, view_height: 100 }
}

fn buffer(lines: &[&str]) -> TextBuffer {
    let content = lines
        .iter()
        .map(|t| OriginalLine { text: t.to_string(), tokens: Vec::new() })
        .collect();
    TextBuffer::new(content, metrics())
}

fn texts(b: &TextBuffer) -> Vec<String> {
    (0..b.line_count()).map(|i| b.line_text(i)).collect()
}

fn origins(b: &TextBuffer) -> Vec<usize> {
    (0..b.line_count()).map(|i| b.line_origin(i)).collect()
}

fn span(start: usize, end: usize, color: &str, style: TokenStyle) -> TokenSpan {
    TokenSpan { start, end, color: color.to_string(), style }
}

fn check_invariant(b: &TextBuffer) {
    let (l, c) = b.cursor();
    assert_eq!(origins(b).len(), b.line_count());
    assert!(l < b.line_count());
    let line = b.line_text(l);
    assert!(c <= line.len());
    assert!(line.is_char_boundary(c));
}

#[test]
fn newline_at_end_of_line_splits_and_shares_origin() {
    let mut b = buffer(&["abc"]);
    b.move_to_end_of_line(false);
    assert_eq!(b.cursor(), (0, 3));
    b.insert_newline();
    assert_eq!(texts(&b), vec!["abc", ""]);
    assert_eq!(b.cursor(), (1, 0));
    assert_eq!(origins(&b), vec![0, 0]);
}

#[test]
fn delete_selected_word() {
    let mut b = buffer(&["hello world"]);
    for _ in 0..6 {
        b.move_right(false);
    }
    for _ in 0..5 {
        b.move_right(true);
    }
    assert_eq!(b.selection_anchor(), Some((0, 6)));
    assert_eq!(b.cursor(), (0, 11));
    assert_eq!(b.selected_text(), "world");
    b.delete_selection();
    assert_eq!(texts(&b), vec!["hello "]);
    assert_eq!(b.cursor(), (0, 6));
    assert_eq!(b.selection_anchor(), None);
}

#[test]
fn backspace_at_line_start_joins_lines() {
    let mut b = buffer(&["foo", "bar"]);
    b.move_down(false);
    assert_eq!(b.cursor(), (1, 0));
    b.delete_backward();
    assert_eq!(texts(&b), vec!["foobar"]);
    assert_eq!(b.cursor(), (0, 3));
    assert_eq!(origins(&b), vec![0]);
}

#[test]
fn tap_before_text_on_empty_line_gives_column_zero() {
    let mut b = buffer(&["first", ""]);
    let gutter = gutter_width(2, 10) as i64;
    assert_eq!(gutter, 56);
    b.tap_to_cursor(gutter + 4, 25);
    assert_eq!(b.cursor(), (1, 0));
    b.tap_to_cursor(gutter + 200, 25);
    assert_eq!(b.cursor(), (1, 0));
    b.tap_to_cursor(0, 25);
    assert_eq!(b.cursor(), (1, 0));
}

#[test]
fn tap_rounds_to_nearest_column() {
    let mut b = buffer(&["abcdef", "xy"]);
    b.tap_to_cursor(56 + 24, 5);
    assert_eq!(b.cursor(), (0, 2));
    b.tap_to_cursor(56 + 25, 5);
    assert_eq!(b.cursor(), (0, 3));
    b.tap_to_cursor(56 + 25, 1000);
    assert_eq!(b.cursor(), (1, 2));
    b.tap_to_cursor(56 + 10, -40);
    assert_eq!(b.cursor(), (0, 1));
}

#[test]
fn insert_then_backspace_restores_line() {
    let mut b = buffer(&["abcd"]);
    b.move_right(false);
    b.move_right(false);
    b.insert_text("xé€y");
    assert_eq!(texts(&b), vec!["abxé€ycd"]);
    assert_eq!(b.cursor(), (0, 2 + 1 + 2 + 3 + 1));
    for _ in 0..4 {
        b.delete_backward();
    }
    assert_eq!(texts(&b), vec!["abcd"]);
    assert_eq!(b.cursor(), (0, 2));
}

#[test]
fn collapse_then_move_left_differ() {
    let mut b = buffer(&["hello world"]);
    b.move_to_end_of_line(false);
    b.move_left(true);
    b.move_left(true);
    assert_eq!(b.cursor(), (0, 9));
    b.move_left(false);
    let first = b.cursor();
    assert_eq!(first, (0, 9));
    assert_eq!(b.selection_anchor(), None);
    b.move_left(false);
    let second = b.cursor();
    assert_eq!(second, (0, 8));
    assert_ne!(first, second);
}

#[test]
fn collapse_right_goes_to_selection_end() {
    let mut b = buffer(&["abc", "def"]);
    b.move_down(true);
    b.move_right(true);
    assert_eq!(b.selection_anchor(), Some((0, 0)));
    assert_eq!(b.cursor(), (1, 1));
    b.move_left(true);
    b.move_up(false);
    assert_eq!(b.cursor(), (0, 0));
    b.move_down(true);
    b.move_down(false);
    assert_eq!(b.cursor(), (1, 0));
    assert_eq!(b.selection_anchor(), None);
}

#[test]
fn insert_text_with_newlines() {
    let mut b = buffer(&["ab", "zz"]);
    b.move_right(false);
    b.insert_text("1\n22\n3");
    assert_eq!(texts(&b), vec!["a1", "22", "3b", "zz"]);
    assert_eq!(b.cursor(), (2, 1));
    assert_eq!(origins(&b), vec![0, 0, 0, 1]);
    check_invariant(&b);
}

#[test]
fn typing_replaces_selection() {
    let mut b = buffer(&["one", "two", "three"]);
    b.move_right(false);
    b.move_down(true);
    b.move_down(true);
    assert_eq!(b.selected_text(), "ne\ntwo\nt");
    b.insert_text("X");
    assert_eq!(texts(&b), vec!["oXhree"]);
    assert_eq!(origins(&b), vec![0]);
    assert_eq!(b.cursor(), (0, 2));
}

#[test]
fn delete_forward_removes_char_and_joins() {
    let mut b = buffer(&["aé", "b"]);
    b.move_right(false);
    b.delete_forward();
    assert_eq!(texts(&b), vec!["a", "b"]);
    b.delete_forward();
    assert_eq!(texts(&b), vec!["ab"]);
    assert_eq!(origins(&b), vec![0]);
    b.move_to_end_of_line(false);
    b.delete_forward();
    assert_eq!(texts(&b), vec!["ab"]);
}

#[test]
fn edges_are_no_ops() {
    let mut b = buffer(&["x"]);
    b.delete_backward();
    b.move_left(false);
    b.move_up(false);
    assert_eq!(texts(&b), vec!["x"]);
    assert_eq!(b.cursor(), (0, 0));
    b.move_to_end_of_line(false);
    b.move_right(false);
    b.move_down(false);
    b.delete_forward();
    assert_eq!(texts(&b), vec!["x"]);
    assert_eq!(b.cursor(), (0, 1));
}

#[test]
fn vertical_motion_lands_on_char_boundary() {
    let mut b = buffer(&["abcd", "é€"]);
    b.move_right(false);
    b.move_right(false);
    b.move_right(false);
    assert_eq!(b.cursor(), (0, 3));
    b.move_down(false);
    assert_eq!(b.cursor(), (1, 2));
    b.move_to_end_of_line(false);
    assert_eq!(b.cursor(), (1, 5));
    b.move_up(false);
    assert_eq!(b.cursor(), (0, 4));
    b.move_left(false);
    b.move_down(false);
    assert_eq!(b.cursor(), (1, 2));
}

#[test]
fn select_all_and_text() {
    let mut b = buffer(&["ab", "", "cd"]);
    b.select_all();
    assert_eq!(b.selection_anchor(), Some((0, 0)));
    assert_eq!(b.cursor(), (2, 2));
    assert!(b.has_selection());
    assert_eq!(b.selected_text(), "ab\n\ncd");
    b.cancel_selection();
    assert!(!b.has_selection());
    assert_eq!(b.selected_text(), "");
}

#[test]
fn home_and_end_collapse_selection() {
    let mut b = buffer(&["abcdef"]);
    b.move_right(false);
    b.move_right(true);
    b.move_right(true);
    b.move_to_end_of_line(false);
    assert_eq!(b.cursor(), (0, 3));
    b.move_to_end_of_line(false);
    assert_eq!(b.cursor(), (0, 6));
    b.move_to_beginning_of_line(true);
    b.move_to_beginning_of_line(false);
    assert_eq!(b.cursor(), (0, 0));
}

#[test]
fn scrolling_follows_cursor_and_clamps() {
    let lines: Vec<String> = (0..20).map(|i| format!("line {}", i)).collect();
    let refs: Vec<&str> = lines.iter().map(|s| s.as_str()).collect();
    let mut b = buffer(&refs);
    for _ in 0..10 {
        b.move_down(false);
    }
    assert_eq!(b.scroll_y(), 11 * 20 - 100);
    b.scroll_by(-500);
    assert_eq!(b.scroll_y(), 0);
    b.scroll_by(10_000);
    assert_eq!(b.scroll_y(), 20 * 20 - 100);
    b.move_up(false);
    assert_eq!(b.scroll_y(), 9 * 20);
    b.move_left(false);
    assert_eq!(b.scroll_y(), 9 * 20);
}

#[test]
fn tab_inserts_two_spaces() {
    let mut b = buffer(&["x"]);
    b.insert_tab();
    assert_eq!(texts(&b), vec!["  x"]);
    assert_eq!(b.cursor(), (0, 2));
}

#[test]
fn action_names() {
    assert_eq!(action_from_name("insertNewline:"), Some(EditorAction::InsertNewline));
    assert_eq!(action_from_name("moveLeft"), Some(EditorAction::MoveLeft(false)));
    assert_eq!(
        action_from_name("moveToEndOfLineAndModifySelection:"),
        Some(EditorAction::MoveToLineEnd(true))
    );
    assert_eq!(action_from_name("cancelOperation:"), Some(EditorAction::CancelOperation));
    assert_eq!(action_from_name("undo:"), None);
    assert_eq!(action_from_name("moveLeft::"), None);
    assert_eq!(action_from_name(""), None);
}

#[test]
fn handle_action_dispatches() {
    let mut b = buffer(&["abc"]);
    assert_eq!(b.handle_action("moveRightAndModifySelection:"), Some(EditorAction::MoveRight(true)));
    assert_eq!(b.handle_action("cut:"), Some(EditorAction::Cut));
    assert_eq!(texts(&b), vec!["bc"]);
    assert_eq!(b.handle_action("insertTab:"), Some(EditorAction::InsertTab));
    assert_eq!(texts(&b), vec!["  bc"]);
    assert_eq!(b.handle_action("bogus"), None);
    assert_eq!(texts(&b), vec!["  bc"]);
    b.handle_action("selectAll:");
    assert!(b.has_selection());
    b.handle_action("cancelOperation:");
    assert!(!b.has_selection());
    b.handle_action("insertNewline:");
    assert_eq!(texts(&b), vec!["  bc", ""]);
}

#[test]
fn invariant_holds_through_random_edits() {
    let mut b = buffer(&["héllo", "wörld", ""]);
    let actions = [
        "moveRight:", "moveDownAndModifySelection:", "deleteBackward:", "insertNewline:",
        "moveUp:", "moveToEndOfLine:", "deleteForward:", "moveLeftAndModifySelection:",
        "moveLeftAndModifySelection:", "insertTab:", "selectAll:", "moveDown:", "deleteBackward:",
    ];
    for (i, a) in actions.iter().enumerate() {
        b.handle_action(a);
        check_invariant(&b);
        if i % 3 == 0 {
            b.insert_text("ü\nz");
            check_invariant(&b);
        }
    }
}

#[test]
fn unchanged_line_keeps_original_tokens() {
    let tokens = vec![span(0, 2, "#ff0000", TokenStyle::Bold)];
    let content = vec![OriginalLine { text: "ab".to_string(), tokens: tokens.clone() }];
    let mut b = TextBuffer::new(content, metrics());
    assert_eq!(b.tokens_for_line(0), tokens);
    b.move_to_end_of_line(false);
    b.insert_text("c");
    assert_eq!(b.tokens_for_line(0), vec![span(0, 3, "#d4d4d4", TokenStyle::Normal)]);
    b.delete_backward();
    assert_eq!(b.tokens_for_line(0), tokens);
}

#[test]
fn initial_content_buffer() {
    let content = initial_content();
    assert_eq!(content.len(), 15);
    assert_eq!(content[0].0, "import { TextBuffer } from './buffer';");
    let b = initial_buffer(metrics());
    assert_eq!(b.line_count(), 15);
    assert_eq!(b.line_text(14), "}");
    assert_eq!(b.tokens_for_line(14), vec![span(0, 1, "#d4d4d4", TokenStyle::Normal)]);
    assert_eq!(b.tokens_for_line(10), vec![span(2, 40, "#6a9955", TokenStyle::Italic)]);
    assert_eq!(b.original_line(1).tokens.len(), 0);
}

#[test]
fn empty_content_gives_one_empty_line() {
    let b = TextBuffer::new(Vec::new(), metrics());
    assert_eq!(texts(&b), vec![""]);
    assert_eq!(b.original_count(), 1);
}

#[test]
fn gutter_and_visible_range() {
    assert_eq!(gutter_width(1, 8), 2 * 8 + 36);
    assert_eq!(gutter_width(99, 8), 2 * 8 + 36);
    assert_eq!(gutter_width(100, 8), 3 * 8 + 36);
    assert_eq!(gutter_width(12345, 10), 5 * 10 + 36);
    assert_eq!(visible_range(0, 100, 20, 50), (0, 7));
    assert_eq!(visible_range(45, 100, 20, 50), (2, 9));
    assert_eq!(visible_range(45, 101, 20, 8), (2, 8));
    assert_eq!(visible_range(1000, 100, 20, 8), (8, 8));
}

#[test]
fn key_bindings() {
    assert_eq!(action_for_key(0x25, true, false), Some(EditorAction::MoveLeft(true)));
    assert_eq!(action_for_key(0x24, false, false), Some(EditorAction::MoveToLineStart(false)));
    assert_eq!(action_for_key(0x08, false, false), Some(EditorAction::DeleteBackward));
    assert_eq!(action_for_key(0x09, true, false), None);
    assert_eq!(action_for_key(0x09, false, false), Some(EditorAction::InsertTab));
    assert_eq!(action_for_key(0x43, false, true), Some(EditorAction::Copy));
    assert_eq!(action_for_key(0x25, false, true), None);
    assert_eq!(menu_command(3), Some(MenuCommand::Action(EditorAction::Paste)));
    assert_eq!(menu_command(102), Some(MenuCommand::Custom(2)));
    assert_eq!(menu_command(7), None);
}

#[test]
fn inverted_scroll_source() {
    let lines: Vec<String> = (0..20).map(|i| format!("{}", i)).collect();
    let refs: Vec<&str> = lines.iter().map(|s| s.as_str()).collect();
    let mut b = buffer(&refs);
    b.scroll_by_input(-30, true);
    assert_eq!(b.scroll_y(), 30);
    b.scroll_by_input(-10, false);
    assert_eq!(b.scroll_y(), 20);
}

#[test]
fn empty_insert_and_missing_selection_change_nothing() {
    let mut b = buffer(&["ab", "cd"]);
    b.move_right(false);
    b.insert_text("");
    assert_eq!(texts(&b), vec!["ab", "cd"]);
    assert_eq!(b.cursor(), (0, 1));
    b.delete_selection();
    assert_eq!(texts(&b), vec!["ab", "cd"]);
    assert_eq!(b.cursor(), (0, 1));
}

#[test]
fn select_all_on_empty_buffer_is_collapsed() {
    let mut b = buffer(&[""]);
    b.select_all();
    assert_eq!(b.selection_anchor(), Some((0, 0)));
    assert_eq!(b.cursor(), (0, 0));
    assert!(!b.has_selection());
    assert_eq!(b.selection_range(), Some((0, 0, 0, 0)));
    b.delete_backward();
    assert_eq!(b.selection_anchor(), None);
}

#[test]
fn newline_text_matches_insert_newline() {
    let mut a = buffer(&["left right"]);
    let mut b = buffer(&["left right"]);
    for _ in 0..4 {
        a.move_right(false);
        b.move_right(false);
    }
    a.insert_text("\n");
    b.insert_newline();
    assert_eq!(texts(&a), texts(&b));
    assert_eq!(a.cursor(), b.cursor());
    assert_eq!(texts(&a), vec!["left", " right"]);
}

#[test]
fn join_forward_keeps_current_origin() {
    let mut b = buffer(&["a", "b", "c"]);
    b.move_down(false);
    b.move_to_end_of_line(false);
    b.delete_forward();
    assert_eq!(texts(&b), vec!["a", "bc"]);
    assert_eq!(origins(&b), vec![0, 1]);
}

#[test]
fn multi_line_selection_delete_drops_enclosed_origins() {
    let mut b = buffer(&["one", "two", "three", "four"]);
    b.move_right(false);
    b.move_down(true);
    b.move_down(true);
    b.move_right(true);
    b.delete_selection();
    assert_eq!(texts(&b), vec!["oree", "four"]);
    assert_eq!(origins(&b), vec![0, 3]);
    assert_eq!(b.cursor(), (0, 1));
}
