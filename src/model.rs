//! The abstract state of an editing buffer and the effect of each editing
//! command on it.
use vstd::prelude::*;
use vstd::utf8::*;
use crate::text::{at_boundary, char_floor, next_char_end, prev_char_start, split_lines, NEWLINE};

verus! {

/// What a buffer holds, as mathematical values.
pub ghost struct BufferModel {
    /// The current lines, as UTF-8 bytes.
    pub lines: Seq<Seq<u8>>,
    /// For each current line, the original line it descends from.
    pub origins: Seq<usize>,
    /// Cursor line.
    pub line: int,
    /// Cursor column, a byte offset into the cursor line.
    pub col: int,
    /// The fixed end of a selection, when one is in progress.
    pub anchor: Option<(int, int)>,
    /// Vertical scroll offset in pixels.
    pub scroll_y: int,
    /// Height of one line in pixels.
    pub line_height: int,
    /// Height of the visible area in pixels.
    pub view_height: int,
}

/// `(l, c)` names a character boundary of an existing line.
pub open spec fn valid_pos(lines: Seq<Seq<u8>>, l: int, c: int) -> bool {
    &&& 0 <= l < lines.len()
    &&& 0 <= c <= lines[l].len()
    &&& at_boundary(lines[l], c)
}

/// The invariant that every command keeps.
pub open spec fn model_wf(m: BufferModel) -> bool {
    &&& m.lines.len() >= 1
    &&& m.origins.len() == m.lines.len()
    &&& forall|i: int| 0 <= i < m.lines.len() ==> valid_utf8(#[trigger] m.lines[i])
    &&& valid_pos(m.lines, m.line, m.col)
    &&& (m.anchor matches Some(a) ==> valid_pos(m.lines, a.0, a.1))
    &&& m.scroll_y >= 0
    &&& m.line_height > 0
    &&& m.view_height >= 0
}

/// Lexicographic order on positions.
pub open spec fn pos_le(a: (int, int), b: (int, int)) -> bool {
    a.0 < b.0 || (a.0 == b.0 && a.1 <= b.1)
}

pub open spec fn cursor_of(m: BufferModel) -> (int, int) {
    (m.line, m.col)
}

/// A selection is active: an anchor exists and differs from the cursor.
pub open spec fn has_selection(m: BufferModel) -> bool {
    m.anchor matches Some(a) && a != cursor_of(m)
}

/// The earlier end of the span between anchor and cursor.
pub open spec fn sel_start(m: BufferModel) -> (int, int) {
    let a = m.anchor.unwrap();
    if pos_le(a, cursor_of(m)) {
        a
    } else {
        cursor_of(m)
    }
}

/// The later end of the span between anchor and cursor.
pub open spec fn sel_end(m: BufferModel) -> (int, int) {
    let a = m.anchor.unwrap();
    if pos_le(a, cursor_of(m)) {
        cursor_of(m)
    } else {
        a
    }
}

/// The text between two ordered positions, lines joined by line feeds.
pub open spec fn text_between(lines: Seq<Seq<u8>>, s: (int, int), e: (int, int)) -> Seq<u8>
    decreases e.0 - s.0,
{
    if e.0 <= s.0 {
        lines[s.0].subrange(s.1, e.1)
    } else {
        lines[s.0].subrange(s.1, lines[s.0].len() as int) + seq![NEWLINE] + text_between(
            lines,
            (s.0 + 1, 0),
            e,
        )
    }
}

/// The largest scroll offset: content height less view height, at least 0.
pub open spec fn max_scroll(m: BufferModel) -> int {
    let over = m.lines.len() * m.line_height - m.view_height;
    if over > 0 {
        over
    } else {
        0
    }
}

pub open spec fn clamp_scroll(m: BufferModel, s: int) -> int {
    if s < 0 {
        0
    } else if s > max_scroll(m) {
        max_scroll(m)
    } else {
        s
    }
}

/// Scrolls so that the cursor line is inside the view, then clamps.
pub open spec fn scroll_to_cursor(m: BufferModel) -> BufferModel {
    let top = m.line * m.line_height;
    let bottom = top + m.line_height;
    let s = if top < m.scroll_y {
        top
    } else if bottom > m.scroll_y + m.view_height {
        bottom - m.view_height
    } else {
        m.scroll_y
    };
    BufferModel { scroll_y: clamp_scroll(m, s), ..m }
}

/// Removes the selected span; the cursor goes to its start and the anchor is cleared.
pub open spec fn delete_selection(m: BufferModel) -> BufferModel {
    if m.anchor is None {
        m
    } else {
        let s = sel_start(m);
        let e = sel_end(m);
        let n = m.lines.len() as int;
        let joined = m.lines[s.0].subrange(0, s.1) + m.lines[e.0].subrange(
            e.1,
            m.lines[e.0].len() as int,
        );
        BufferModel {
            lines: m.lines.subrange(0, s.0) + seq![joined] + m.lines.subrange(e.0 + 1, n),
            origins: m.origins.subrange(0, s.0 + 1) + m.origins.subrange(e.0 + 1, n),
            line: s.0,
            col: s.1,
            anchor: None,
            ..m
        }
    }
}

/// The selection is removed first when one is active.
pub open spec fn clear_selection_for_edit(m: BufferModel) -> BufferModel {
    if has_selection(m) {
        delete_selection(m)
    } else {
        m
    }
}

/// Line `i` of the lines that replace the cursor line when `segs` is
/// inserted between `head` and `tail`.
pub open spec fn spliced_piece(head: Seq<u8>, segs: Seq<Seq<u8>>, tail: Seq<u8>, i: int) -> Seq<
    u8,
> {
    (if i == 0 {
        head
    } else {
        Seq::<u8>::empty()
    }) + segs[i] + (if i == segs.len() - 1 {
        tail
    } else {
        Seq::<u8>::empty()
    })
}

/// Puts the line pieces `segs` at the cursor: the first joins the text
/// before the cursor, the last the text after it; no selection handling and
/// no scrolling.
pub open spec fn splice_segments(m: BufferModel, segs: Seq<Seq<u8>>) -> BufferModel {
    let k = segs.len() as int;
    let n = m.lines.len() as int;
    let cur = m.lines[m.line];
    let head = cur.subrange(0, m.col);
    let tail = cur.subrange(m.col, cur.len() as int);
    BufferModel {
        lines: m.lines.subrange(0, m.line) + Seq::new(
            k as nat,
            |i: int| spliced_piece(head, segs, tail, i),
        ) + m.lines.subrange(m.line + 1, n),
        origins: m.origins.subrange(0, m.line) + Seq::new(k as nat, |i: int| m.origins[m.line])
            + m.origins.subrange(m.line + 1, n),
        line: m.line + k - 1,
        col: if k == 1 {
            m.col + segs[0].len()
        } else {
            segs[k - 1].len() as int
        },
        anchor: None,
        ..m
    }
}

/// Inserts the bytes `s` at the cursor, each line feed splitting the line.
pub open spec fn splice_text(m: BufferModel, s: Seq<u8>) -> BufferModel {
    splice_segments(m, split_lines(s))
}

/// Typing: replaces any selection with `s`, each line feed splitting the line.
pub open spec fn insert_text(m: BufferModel, s: Seq<u8>) -> BufferModel {
    scroll_to_cursor(splice_text(clear_selection_for_edit(m), s))
}

/// Splitting the cursor line at the cursor.
pub open spec fn insert_newline(m: BufferModel) -> BufferModel {
    insert_text(m, seq![NEWLINE])
}

pub open spec fn without_anchor(m: BufferModel) -> BufferModel {
    BufferModel { anchor: None, ..m }
}

/// Deleting the character before the cursor, or joining with the line above.
pub open spec fn delete_backward(m: BufferModel) -> BufferModel {
    if has_selection(m) {
        delete_selection(m)
    } else {
        let n = m.lines.len() as int;
        let cur = m.lines[m.line];
        if m.col > 0 {
            let p = prev_char_start(cur, m.col);
            scroll_to_cursor(
                BufferModel {
                    lines: m.lines.update(
                        m.line,
                        cur.subrange(0, p) + cur.subrange(m.col, cur.len() as int),
                    ),
                    col: p,
                    anchor: None,
                    ..m
                },
            )
        } else if m.line > 0 {
            let prev = m.lines[m.line - 1];
            scroll_to_cursor(
                BufferModel {
                    lines: m.lines.subrange(0, m.line - 1) + seq![prev + cur] + m.lines.subrange(
                        m.line + 1,
                        n,
                    ),
                    origins: m.origins.remove(m.line),
                    line: m.line - 1,
                    col: prev.len() as int,
                    anchor: None,
                    ..m
                },
            )
        } else {
            scroll_to_cursor(without_anchor(m))
        }
    }
}

/// Deleting the character after the cursor, or joining with the line below.
pub open spec fn delete_forward(m: BufferModel) -> BufferModel {
    if has_selection(m) {
        delete_selection(m)
    } else {
        let n = m.lines.len() as int;
        let cur = m.lines[m.line];
        if m.col < cur.len() {
            let e = next_char_end(cur, m.col);
            BufferModel {
                lines: m.lines.update(m.line, cur.subrange(0, m.col) + cur.subrange(e, cur.len() as int)),
                anchor: None,
                ..m
            }
        } else if m.line + 1 < n {
            let next = m.lines[m.line + 1];
            BufferModel {
                lines: m.lines.subrange(0, m.line) + seq![cur + next] + m.lines.subrange(
                    m.line + 2,
                    n,
                ),
                origins: m.origins.remove(m.line + 1),
                anchor: None,
                ..m
            }
        } else {
            without_anchor(m)
        }
    }
}

/// Selects everything: anchor at the start, cursor at the end of the last line.
pub open spec fn select_all(m: BufferModel) -> BufferModel {
    let last = m.lines.len() - 1;
    BufferModel { anchor: Some((0, 0)), line: last, col: m.lines[last].len() as int, ..m }
}

/// Where the cursor goes one character to the left.
pub open spec fn left_dest(m: BufferModel) -> (int, int) {
    if m.col > 0 {
        (m.line, prev_char_start(m.lines[m.line], m.col))
    } else if m.line > 0 {
        (m.line - 1, m.lines[m.line - 1].len() as int)
    } else {
        (m.line, m.col)
    }
}

/// Where the cursor goes one character to the right.
pub open spec fn right_dest(m: BufferModel) -> (int, int) {
    if m.col < m.lines[m.line].len() {
        (m.line, next_char_end(m.lines[m.line], m.col))
    } else if m.line + 1 < m.lines.len() {
        (m.line + 1, 0)
    } else {
        (m.line, m.col)
    }
}

/// Where the cursor goes one line up: the same byte column, clamped to the
/// line and moved back onto a character boundary.
pub open spec fn up_dest(m: BufferModel) -> (int, int) {
    if m.line > 0 {
        (m.line - 1, char_floor(m.lines[m.line - 1], m.col))
    } else {
        (m.line, m.col)
    }
}

/// Where the cursor goes one line down.
pub open spec fn down_dest(m: BufferModel) -> (int, int) {
    if m.line + 1 < m.lines.len() {
        (m.line + 1, char_floor(m.lines[m.line + 1], m.col))
    } else {
        (m.line, m.col)
    }
}

pub open spec fn home_dest(m: BufferModel) -> (int, int) {
    (m.line, 0)
}

pub open spec fn end_dest(m: BufferModel) -> (int, int) {
    (m.line, m.lines[m.line].len() as int)
}

/// Starting a selection: when extending and no anchor exists, the anchor is
/// set at the cursor.
pub open spec fn begin_motion(m: BufferModel, extend: bool) -> BufferModel {
    if extend && m.anchor is None {
        BufferModel { anchor: Some(cursor_of(m)), ..m }
    } else {
        m
    }
}

/// A cursor motion to `dest`. Without extending, an active selection is
/// collapsed instead, to its start or its end, and the motion is not applied.
pub open spec fn apply_motion(m: BufferModel, extend: bool, dest: (int, int), to_start: bool) -> BufferModel {
    let m1 = begin_motion(m, extend);
    if !extend && has_selection(m1) {
        let p = if to_start {
            sel_start(m1)
        } else {
            sel_end(m1)
        };
        BufferModel { line: p.0, col: p.1, anchor: None, ..m1 }
    } else {
        BufferModel {
            line: dest.0,
            col: dest.1,
            anchor: if extend {
                m1.anchor
            } else {
                None
            },
            ..m1
        }
    }
}

pub open spec fn move_left(m: BufferModel, extend: bool) -> BufferModel {
    apply_motion(m, extend, left_dest(m), true)
}

pub open spec fn move_right(m: BufferModel, extend: bool) -> BufferModel {
    apply_motion(m, extend, right_dest(m), false)
}

pub open spec fn move_up(m: BufferModel, extend: bool) -> BufferModel {
    scroll_to_cursor(apply_motion(m, extend, up_dest(m), true))
}

pub open spec fn move_down(m: BufferModel, extend: bool) -> BufferModel {
    scroll_to_cursor(apply_motion(m, extend, down_dest(m), false))
}

pub open spec fn move_to_line_start(m: BufferModel, extend: bool) -> BufferModel {
    apply_motion(m, extend, home_dest(m), true)
}

pub open spec fn move_to_line_end(m: BufferModel, extend: bool) -> BufferModel {
    apply_motion(m, extend, end_dest(m), false)
}

/// Clears the anchor only.
pub open spec fn cancel_selection(m: BufferModel) -> BufferModel {
    without_anchor(m)
}

/// The line under view-local `y`: the first line above the content, the
/// last below it.
pub open spec fn line_at_y(m: BufferModel, y: int) -> int {
    let yy = y + m.scroll_y;
    if yy < 0 {
        0
    } else if yy / m.line_height >= m.lines.len() {
        m.lines.len() - 1
    } else {
        yy / m.line_height
    }
}

/// The column under view-local `x` on `line`, for a monospace font: the
/// nearest character edge, rounding halves up, and 0 left of the text.
pub open spec fn col_at_x(m: BufferModel, line: int, x: int, gutter: int, char_width: int) -> int {
    let tx = x - gutter;
    if tx <= 0 {
        0
    } else {
        char_floor(m.lines[line], (2 * tx + char_width) / (2 * char_width))
    }
}

/// Places the cursor under a tap at view-local `(x, y)` and clears the anchor.
pub open spec fn tap_to_cursor(m: BufferModel, x: int, y: int, gutter: int, char_width: int) -> BufferModel {
    let line = line_at_y(m, y);
    BufferModel { line: line, col: col_at_x(m, line, x, gutter, char_width), anchor: None, ..m }
}

/// Scrolls by `dy` pixels (positive reveals lower content), clamped.
pub open spec fn scroll_by(m: BufferModel, dy: int) -> BufferModel {
    BufferModel { scroll_y: clamp_scroll(m, m.scroll_y + dy), ..m }
}

/// The character ends of `b` in `(0, j]`, ascending.
pub open spec fn ends_upto(b: Seq<u8>, j: int) -> Seq<int>
    decreases j,
{
    if j <= 0 {
        seq![]
    } else {
        ends_upto(b, j - 1) + if at_boundary(b, j) {
            seq![j]
        } else {
            seq![]
        }
    }
}

/// The byte index after each character of `b`, ascending.
pub open spec fn char_ends(b: Seq<u8>) -> Seq<int> {
    ends_upto(b, b.len() as int)
}

pub open spec fn abs_diff(a: int, b: int) -> int {
    if a >= b {
        a - b
    } else {
        b - a
    }
}

/// Nearest-column search over measured prefix widths: `widths[k]` is the
/// width of the text up to `ends[k]`. The first strictly nearer edge wins,
/// and the search stops after a width passes `tx` by more than a character.
pub open spec fn nearest_end_from(
    ends: Seq<int>,
    widths: Seq<u64>,
    tx: int,
    cw: int,
    k: int,
    best: int,
    best_dist: int,
) -> int
    decreases ends.len() - k,
{
    if k < 0 || k >= ends.len() || k >= widths.len() {
        best
    } else {
        let px = widths[k] as int;
        let d = abs_diff(tx, px);
        let b2 = if d < best_dist {
            ends[k]
        } else {
            best
        };
        let d2 = if d < best_dist {
            d
        } else {
            best_dist
        };
        if px > tx + cw {
            b2
        } else {
            nearest_end_from(ends, widths, tx, cw, k + 1, b2, d2)
        }
    }
}

/// Places the cursor under a click at `(x, y)`, given the measured width of
/// each prefix of the clicked line that ends at a character end; clears the
/// anchor.
pub open spec fn click_to_cursor(m: BufferModel, x: int, y: int, gutter: int, char_width: int, widths: Seq<u64>) -> BufferModel {
    let line = line_at_y(m, y);
    let tx = x - gutter;
    let col = if tx <= 0 {
        0
    } else {
        nearest_end_from(char_ends(m.lines[line]), widths, tx, char_width, 0, 0, tx)
    };
    BufferModel { line: line, col: col, anchor: None, ..m }
}

} // verus!
