//! What one redraw shows: the visible lines with their spans and offsets,
//! the cursor, and the selected column span of each selected line. A
//! renderer brackets these between `begin_frame` and `end_frame`, measuring
//! text to turn columns into x positions.
use vstd::prelude::*;
use vstd::utf8::decode_utf8;
use crate::buffer::TextBuffer;
use crate::model;
use crate::token::TokenSpan;
use crate::viewport::{
    first_visible_spec, gutter_width, gutter_width_spec, last_visible_spec, visible_range,
};

verus! {

/// A visible line: 1-based number, text, spans, and top edge relative to
/// the view.
pub struct FrameLine {
    pub line_number: usize,
    pub text: String,
    pub tokens: Vec<TokenSpan>,
    pub y_offset: i128,
}

/// The selected byte columns `[start_col, end_col)` of one line.
#[derive(Clone, Copy, Debug, PartialEq, Eq, Structural)]
pub struct SelectionSpan {
    pub line: usize,
    pub start_col: usize,
    pub end_col: usize,
    pub y: i128,
}

/// A rectangle in view pixels.
#[derive(Clone, Copy, Debug, PartialEq, Eq, Structural)]
pub struct Rect {
    pub x: u64,
    pub y: i128,
    pub w: u64,
    pub h: u32,
}

/// Everything one redraw shows.
pub struct Frame {
    pub gutter_width: u64,
    pub lines: Vec<FrameLine>,
    pub cursor_line: usize,
    pub cursor_col: usize,
    pub cursor_y: i128,
    pub selection: Vec<SelectionSpan>,
}

/// Top edge of line `l` relative to the view.
pub open spec fn line_y(m: model::BufferModel, l: int) -> int {
    l * m.line_height - m.scroll_y
}

/// The selected columns of line `l`, for a selection from `s` to `e`.
pub open spec fn selected_cols(m: model::BufferModel, s: (int, int), e: (int, int), l: int) -> (int, int) {
    (if l == s.0 {
        s.1
    } else {
        0
    }, if l == e.0 {
        e.1
    } else {
        m.lines[l].len() as int
    })
}

/// The rectangle of a selected span whose edges measure `start_width` and
/// `end_width` from the text's left edge; none when it has no width.
pub open spec fn selection_rect_spec(gutter: nat, start_width: nat, end_width: nat, y: int, h: nat) -> Option<Rect> {
    if end_width <= start_width {
        None
    } else {
        Some(Rect { x: (gutter + start_width) as u64, y: y as i128, w: (end_width - start_width) as u64, h: h as u32 })
    }
}

/// The rectangle of a selected span (see `selection_rect_spec`).
pub fn selection_rect(gutter: u64, start_width: u64, end_width: u64, y: i128, h: u32) -> (r: Option<Rect>)
    requires
        gutter + start_width <= u64::MAX,
    ensures
        r == selection_rect_spec(gutter as nat, start_width as nat, end_width as nat, y as int, h as nat),
{
    if end_width <= start_width {
        None
    } else {
        Some(Rect { x: gutter + start_width, y, w: end_width - start_width, h })
    }
}

fn line_top(line: usize, line_height: u32, scroll_y: u128) -> (r: i128)
    requires
        scroll_y < 0x1_0000_0000_0000_0000_0000_0000,
    ensures
        r == line as int * line_height as int - scroll_y as int,
{
    let a = line as i128;
    let b = line_height as i128;
    assert(a * b < 0x1_0000_0000_0000_0000 * 0x1_0000_0000) by (nonlinear_arith)
        requires
            0 <= a < 0x1_0000_0000_0000_0000,
            0 <= b < 0x1_0000_0000,
    ;
    assert(a * b >= 0) by (nonlinear_arith)
        requires
            0 <= a,
            0 <= b,
    ;
    a * b - scroll_y as i128
}

/// `r` are the lines to draw: from the line at the top edge of the view, as
/// many as the view shows plus one more at each edge, within the buffer.
pub open spec fn visible_lines_spec(b: TextBuffer, r: Seq<FrameLine>) -> bool {
    let m = b@;
    let last = last_visible_spec(m.scroll_y as nat, m.view_height as nat, m.line_height as nat, m.lines.len());
    let first = first_visible_spec(m.scroll_y as nat, m.line_height as nat);
    let start = if first < last {
        first
    } else {
        last
    };
    &&& r.len() == last - start
    &&& forall|k: int|
        0 <= k < r.len() ==> {
            let l = start + k;
            &&& (#[trigger] r[k]).line_number == l + 1
            &&& r[k].text@ == decode_utf8(m.lines[l])
            &&& b.line_tokens(l, r[k].tokens@)
            &&& r[k].y_offset == line_y(m, l)
        }
}

/// `r` are the selected column spans of the selected lines, in order; none
/// without an active selection.
pub open spec fn selection_spans_spec(b: TextBuffer, r: Seq<SelectionSpan>) -> bool {
    let m = b@;
    if !model::has_selection(m) {
        r.len() == 0
    } else {
        let s = model::sel_start(m);
        let e = model::sel_end(m);
        &&& r.len() == e.0 - s.0 + 1
        &&& forall|k: int|
            0 <= k < r.len() ==> {
                let l = s.0 + k;
                &&& (#[trigger] r[k]).line == l
                &&& (r[k].start_col as int, r[k].end_col as int) == selected_cols(m, s, e, l)
                &&& r[k].y == line_y(m, l)
            }
    }
}

impl TextBuffer {
    /// The lines to draw: from the line at the top edge of the view, as
    /// many as the view shows plus one more at each edge, within the buffer.
    pub fn visible_lines(&self) -> (r: Vec<FrameLine>)
        requires
            self.wf(),
        ensures
            visible_lines_spec(*self, r@),
    {
        let metrics = self.metrics();
        let n = self.line_count();
        let (first, last) = visible_range(self.scroll_y(), metrics.view_height, metrics.line_height, n);
        proof {
            self.lemma_scroll_bound();
        }
        let mut out: Vec<FrameLine> = Vec::new();
        let mut i: usize = first;
        while i < last
            invariant
                self.wf(),
                first <= i <= last <= n,
                n == self@.lines.len(),
                metrics.line_height == self@.line_height,
                self@.scroll_y < 0x1_0000_0000_0000_0000_0000_0000,
                out@.len() == i - first,
                forall|k: int| 0 <= k < out@.len() ==> {
                    let l = first + k;
                    &&& (#[trigger] out@[k]).line_number == l + 1
                    &&& out@[k].text@ == decode_utf8(self@.lines[l])
                    &&& self.line_tokens(l, out@[k].tokens@)
                    &&& out@[k].y_offset == line_y(self@, l)
                },
            decreases last - i,
        {
            let fl = FrameLine {
                line_number: i + 1,
                text: self.line_text(i),
                tokens: self.tokens_for_line(i),
                y_offset: line_top(i, metrics.line_height, self.scroll_y()),
            };
            out.push(fl);
            i = i + 1;
        }
        out
    }

    /// The selected column span of each selected line, in order; none
    /// without an active selection.
    pub fn selection_spans(&self) -> (r: Vec<SelectionSpan>)
        requires
            self.wf(),
        ensures
            selection_spans_spec(*self, r@),
    {
        let mut out: Vec<SelectionSpan> = Vec::new();
        if !self.has_selection() {
            return out;
        }
        proof {
            self.lemma_scroll_bound();
        }
        let metrics = self.metrics();
        match self.selection_range() {
            None => out,
            Some((sl, sc, el, ec)) => {
                let ghost s = model::sel_start(self@);
                let ghost e = model::sel_end(self@);
                let n = self.line_count();
                let mut l: usize = sl;
                while l <= el
                    invariant
                        self.wf(),
                        s == (sl as int, sc as int),
                        e == (el as int, ec as int),
                        sl <= l <= el + 1,
                        el < self@.lines.len(),
                        n == self@.lines.len(),
                        metrics.line_height == self@.line_height,
                        self@.scroll_y < 0x1_0000_0000_0000_0000_0000_0000,
                        out@.len() == l - sl,
                        forall|k: int| 0 <= k < out@.len() ==> {
                            let ln = sl + k;
                            &&& (#[trigger] out@[k]).line == ln
                            &&& (out@[k].start_col as int, out@[k].end_col as int) == selected_cols(self@, s, e, ln)
                            &&& out@[k].y == line_y(self@, ln)
                        },
                    decreases el + 1 - l,
                {
                    let start_col = if l == sl {
                        sc
                    } else {
                        0
                    };
                    let end_col = if l == el {
                        ec
                    } else {
                        self.line_len(l)
                    };
                    out.push(SelectionSpan { line: l, start_col, end_col, y: line_top(l, metrics.line_height, self.scroll_y()) });
                    l = l + 1;
                }
                out
            },
        }
    }

    /// What the next redraw shows.
    pub fn frame(&self) -> (r: Frame)
        requires
            self.wf(),
        ensures
            r.gutter_width == gutter_width_spec(self@.lines.len(), self.spec_metrics().char_width as nat),
            r.cursor_line == self@.line,
            r.cursor_col == self@.col,
            r.cursor_y == line_y(self@, self@.line),
            visible_lines_spec(*self, r.lines@),
            selection_spans_spec(*self, r.selection@),
    {
        proof {
            self.lemma_scroll_bound();
        }
        let metrics = self.metrics();
        let (cl, cc) = self.cursor();
        Frame {
            gutter_width: gutter_width(self.line_count(), metrics.char_width),
            lines: self.visible_lines(),
            cursor_line: cl,
            cursor_col: cc,
            cursor_y: line_top(cl, metrics.line_height, self.scroll_y()),
            selection: self.selection_spans(),
        }
    }
}

} // verus!
