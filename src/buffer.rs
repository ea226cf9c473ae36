//! The editing buffer: lines, their provenance, cursor, selection and scroll.
use vstd::prelude::*;
use vstd::string::StringSliceAdditionalSpecFns;
use vstd::utf8::*;
use crate::model::{self, BufferModel, model_wf};
use crate::text::{
    at_boundary, bytes_equal, char_floor_of, is_continuation, lemma_boundary, lemma_boundary_from,
    lemma_char_floor, lemma_char_floor_past_end, lemma_concat_valid, lemma_newline_valid,
    lemma_prev_char_start, lemma_split_lines_nonempty, lemma_split_valid, next_char_end_of,
    prev_char_start_of, split_lines, split_on_newlines, string_of_utf8, views, NEWLINE,
};
use crate::remap::{remap_bytes, remapped};
use crate::token::{copy_spans, TokenSpan};
use crate::viewport::{gutter_width, gutter_width_spec};

verus! {

/// Pixel metrics of the text.
#[derive(Clone, Copy, Debug, PartialEq, Eq, Structural)]
pub struct Metrics {
    /// Height of one line; positive.
    pub line_height: u32,
    /// Advance of one character of the monospace font; positive.
    pub char_width: u32,
    /// Height of the visible area.
    pub view_height: u32,
}

impl Metrics {
    pub open spec fn valid(&self) -> bool {
        self.line_height > 0 && self.char_width > 0
    }
}

/// A line as it was when the buffer was made, with its highlight spans.
#[derive(Clone, Debug)]
pub struct OriginalLine {
    pub text: String,
    pub tokens: Vec<TokenSpan>,
}

/// A line buffer with a cursor and an optional selection anchor.
///
/// Not safe for mutation from several threads without outside locking.
pub struct TextBuffer {
    lines: Vec<Vec<u8>>,
    original_lines: Vec<OriginalLine>,
    line_origins: Vec<usize>,
    cursor_line: usize,
    cursor_col: usize,
    sel_anchor: Option<(usize, usize)>,
    scroll_y: u128,
    metrics: Metrics,
}

/// A copy of bytes `lo..hi` of `b`.
pub fn copy_range(b: &Vec<u8>, lo: usize, hi: usize) -> (r: Vec<u8>)
    requires
        lo <= hi <= b@.len(),
    ensures
        r@ == b@.subrange(lo as int, hi as int),
{
    let mut r: Vec<u8> = Vec::new();
    let mut i: usize = lo;
    while i < hi
        invariant
            lo <= i <= hi <= b@.len(),
            r@ == b@.subrange(lo as int, i as int),
        decreases hi - i,
    {
        r.push(b[i]);
        i = i + 1;
        assert(r@ =~= b@.subrange(lo as int, i as int));
    }
    r
}

pub open spec fn anchor_view(a: Option<(usize, usize)>) -> Option<(int, int)> {
    match a {
        Some(p) => Some((p.0 as int, p.1 as int)),
        None => None,
    }
}

impl View for TextBuffer {
    type V = BufferModel;

    closed spec fn view(&self) -> BufferModel {
        BufferModel {
            lines: views(self.lines@),
            origins: self.line_origins@,
            line: self.cursor_line as int,
            col: self.cursor_col as int,
            anchor: anchor_view(self.sel_anchor),
            scroll_y: self.scroll_y as int,
            line_height: self.metrics.line_height as int,
            view_height: self.metrics.view_height as int,
        }
    }
}

impl TextBuffer {
    /// The buffer invariant: the model's, each origin names an original line,
    /// and the metrics are positive.
    pub open spec fn wf(&self) -> bool {
        model_wf(self@) && self.setup_wf()
    }

    /// Metrics are positive and each origin names an original line.
    pub closed spec fn setup_wf(&self) -> bool {
        &&& self.metrics.valid()
        &&& self.scroll_y < SCROLL_BOUND
        &&& forall|i: int|
            0 <= i < self.line_origins@.len() ==> #[trigger] self.line_origins@[i]
                < self.original_lines@.len()
    }

    /// The original lines and metrics, which editing leaves alone.
    pub open spec fn setup_same(&self, other: &TextBuffer) -> bool {
        self.originals() == other.originals() && self.spec_metrics() == other.spec_metrics()
    }

    pub closed spec fn originals(&self) -> Seq<OriginalLine> {
        self.original_lines@
    }

    pub closed spec fn spec_metrics(&self) -> Metrics {
        self.metrics
    }
}

/// Bound on the scroll offset: no content is taller.
pub const SCROLL_BOUND: u128 = 0x1_0000_0000_0000_0000_0000_0000;

/// `a * b`, which always fits.
fn wide_mul(a: usize, b: u32) -> (r: u128)
    ensures
        r == a as int * b as int,
        r < SCROLL_BOUND,
{
    let x = a as u128;
    let y = b as u128;
    assert(x * y < 0x1_0000_0000_0000_0000 * 0x1_0000_0000) by (nonlinear_arith)
        requires
            x < 0x1_0000_0000_0000_0000,
            y < 0x1_0000_0000,
    ;
    x * y
}

impl TextBuffer {
    /// Makes a buffer whose lines are the texts of `content` (one empty line
    /// when `content` is empty), each descending from its own original line;
    /// the cursor is at the start and nothing is selected or scrolled.
    pub fn new(content: Vec<OriginalLine>, metrics: Metrics) -> (r: TextBuffer)
        requires
            metrics.valid(),
        ensures
            r.wf(),
            r.spec_metrics() == metrics,
            content@.len() > 0 ==> r.originals() == content@,
            r@.lines.len() == r.originals().len(),
            forall|i: int|
                0 <= i < r@.lines.len() ==> #[trigger] r@.lines[i] == encode_utf8(
                    r.originals()[i].text@,
                ),
            forall|i: int| 0 <= i < r@.lines.len() ==> #[trigger] r@.origins[i] == i,
            content@.len() == 0 ==> r@.lines == seq![Seq::<u8>::empty()],
            r@.line == 0,
            r@.col == 0,
            r@.anchor is None,
            r@.scroll_y == 0,
    {
        let mut content = content;
        if content.len() == 0 {
            content.push(OriginalLine { text: String::new(), tokens: Vec::new() });
        }
        let mut lines: Vec<Vec<u8>> = Vec::new();
        let mut origins: Vec<usize> = Vec::new();
        let mut i: usize = 0;
        while i < content.len()
            invariant
                i <= content@.len(),
                lines@.len() == i,
                origins@.len() == i,
                forall|j: int|
                    0 <= j < i ==> #[trigger] lines@[j]@ == encode_utf8(content@[j].text@),
                forall|j: int| 0 <= j < i ==> #[trigger] origins@[j] == j,
            decreases content@.len() - i,
        {
            let bytes = content[i].text.as_str().as_bytes();
            lines.push(vstd::slice::slice_to_vec(bytes));
            origins.push(i);
            i = i + 1;
        }
        let r = TextBuffer {
            lines,
            original_lines: content,
            line_origins: origins,
            cursor_line: 0,
            cursor_col: 0,
            sel_anchor: None,
            scroll_y: 0,
            metrics,
        };
        proof {
            assert forall|j: int| 0 <= j < r@.lines.len() implies valid_utf8(#[trigger] r@.lines[j]) by {
                encode_utf8_valid_utf8(content@[j].text@);
            }
            lemma_boundary(r@.lines[0], 0);
            if content@.len() == 0 {
                assert(r@.lines =~= seq![Seq::<u8>::empty()]);
            }
        }
        r
    }

    /// Number of lines.
    pub fn line_count(&self) -> (r: usize)
        ensures
            r == self@.lines.len(),
    {
        self.lines.len()
    }

    /// The text of line `i`.
    pub fn line_text(&self, i: usize) -> (r: String)
        requires
            self.wf(),
            i < self@.lines.len(),
        ensures
            r@ == decode_utf8(self@.lines[i as int]),
    {
        let bytes = copy_range(&self.lines[i], 0, self.lines[i].len());
        assert(bytes@ =~= self@.lines[i as int]);
        crate::text::string_of_utf8(bytes)
    }

    /// The original line that line `i` descends from.
    pub fn line_origin(&self, i: usize) -> (r: usize)
        requires
            i < self@.lines.len(),
            self.wf(),
        ensures
            r == self@.origins[i as int],
    {
        self.line_origins[i]
    }

    /// Cursor position as (line, byte column).
    pub fn cursor(&self) -> (r: (usize, usize))
        ensures
            r.0 == self@.line,
            r.1 == self@.col,
    {
        (self.cursor_line, self.cursor_col)
    }

    /// The selection anchor, if any.
    pub fn selection_anchor(&self) -> (r: Option<(usize, usize)>)
        ensures
            anchor_view(r) == self@.anchor,
    {
        self.sel_anchor
    }

    /// Vertical scroll offset in pixels.
    pub fn scroll_y(&self) -> (r: u128)
        ensures
            r == self@.scroll_y,
    {
        self.scroll_y
    }

    /// The metrics the buffer was made with.
    pub fn metrics(&self) -> (r: Metrics)
        ensures
            r == self.spec_metrics(),
            r.line_height == self@.line_height,
            r.view_height == self@.view_height,
    {
        self.metrics
    }

    /// An anchor exists and differs from the cursor.
    pub fn has_selection(&self) -> (r: bool)
        ensures
            r == model::has_selection(self@),
    {
        match self.sel_anchor {
            Some((al, ac)) => al != self.cursor_line || ac != self.cursor_col,
            None => false,
        }
    }

    /// The span between anchor and cursor in order, as
    /// (start line, start column, end line, end column).
    pub fn selection_range(&self) -> (r: Option<(usize, usize, usize, usize)>)
        ensures
            r is None <==> self@.anchor is None,
            r matches Some(q) ==> (q.0 as int, q.1 as int) == model::sel_start(self@) && (
            q.2 as int, q.3 as int) == model::sel_end(self@),
    {
        match self.sel_anchor {
            Some((al, ac)) => {
                let cl = self.cursor_line;
                let cc = self.cursor_col;
                if al < cl || (al == cl && ac <= cc) {
                    Some((al, ac, cl, cc))
                } else {
                    Some((cl, cc, al, ac))
                }
            },
            None => None,
        }
    }

    /// Scrolls so that the cursor line is visible, then clamps the offset.
    fn scroll_to_cursor(&mut self)
        requires
            old(self).wf(),
        ensures
            final(self).wf(),
            final(self).setup_same(old(self)),
            final(self)@ == model::scroll_to_cursor(old(self)@),
    {
        let lh = self.metrics.line_height as u128;
        let vh = self.metrics.view_height as u128;
        let top = wide_mul(self.cursor_line, self.metrics.line_height);
        assert(self.cursor_line < self.lines@.len());
        let bottom = top + lh;
        let s = if top < self.scroll_y {
            top
        } else if bottom > self.scroll_y + vh {
            bottom - vh
        } else {
            self.scroll_y
        };
        self.scroll_y = self.clamped_scroll(s);
    }

    /// `s` clamped to `[0, max_scroll]`.
    fn clamped_scroll(&self, s: u128) -> (r: u128)
        requires
            self.wf(),
        ensures
            r == model::clamp_scroll(self@, s as int),
            r < SCROLL_BOUND,
    {
        let total = wide_mul(self.lines.len(), self.metrics.line_height);
        let vh = self.metrics.view_height as u128;
        let max = if total > vh {
            total - vh
        } else {
            0
        };
        if s > max {
            max
        } else {
            s
        }
    }

    /// Removes the selected span, if an anchor exists; the cursor moves to
    /// the start of the span and the anchor is cleared.
    pub fn delete_selection(&mut self)
        requires
            old(self).wf(),
        ensures
            final(self).wf(),
            final(self).setup_same(old(self)),
            final(self)@ == model::delete_selection(old(self)@),
    {
        match self.selection_range() {
            None => {},
            Some((sl, sc, el, ec)) => {
                let ghost m = self@;
                let nl = self.lines.len();
                assert(el < nl);
                let el_len = self.lines[el].len();
                let mut joined = copy_range(&self.lines[sl], 0, sc);
                let mut tail = copy_range(&self.lines[el], ec, el_len);
                let ghost head_v = joined@;
                let ghost tail_v = tail@;
                joined.append(&mut tail);
                let mut rest = self.lines.split_off(el + 1);
                self.lines.truncate(sl);
                self.lines.push(joined);
                self.lines.append(&mut rest);
                let mut orest = self.line_origins.split_off(el + 1);
                self.line_origins.truncate(sl + 1);
                self.line_origins.append(&mut orest);
                self.cursor_line = sl;
                self.cursor_col = sc;
                self.sel_anchor = None;
                proof {
                    let n = m.lines.len() as int;
                    lemma_split_valid(m.lines[sl as int], sc as int);
                    lemma_split_valid(m.lines[el as int], ec as int);
                    lemma_concat_valid(head_v, tail_v);
                    let joined_v = head_v + tail_v;
                    assert(self@.lines =~= m.lines.subrange(0, sl as int) + seq![joined_v]
                        + m.lines.subrange(el + 1, n));
                    assert(self@.origins =~= m.origins.subrange(0, sl + 1) + m.origins.subrange(
                        el + 1,
                        n,
                    ));
                    assert forall|i: int| 0 <= i < self@.lines.len() implies valid_utf8(
                        #[trigger] self@.lines[i],
                    ) by {
                        if i < sl {
                            assert(self@.lines[i] == m.lines[i]);
                        } else if i > sl {
                            assert(self@.lines[i] == m.lines[i - sl + el]);
                        }
                    }
                    assert forall|i: int| 0 <= i < self.line_origins@.len() implies #[trigger] self.line_origins@[i]
                        < self.original_lines@.len() by {
                        if i > sl {
                            assert(self.line_origins@[i] == m.origins[i - sl + el]);
                        }
                    }
                    assert(self@ == model::delete_selection(m));
                }
            },
        }
        self.sel_anchor = None;
    }

    /// Puts the line pieces `segs` at the cursor and clears the anchor.
    fn splice(&mut self, segs: &Vec<Vec<u8>>)
        requires
            old(self).wf(),
            segs@.len() >= 1,
            forall|j: int| 0 <= j < segs@.len() ==> valid_utf8(#[trigger] segs@[j]@),
        ensures
            final(self).wf(),
            final(self).setup_same(old(self)),
            final(self)@ == model::splice_segments(old(self)@, views(segs@)),
    {
        let ghost m = self@;
        let ghost n = m.lines.len() as int;
        let cl = self.cursor_line;
        let col = self.cursor_col;
        let k = segs.len();
        let origin = self.line_origins[cl];
        let cur = self.lines.remove(cl);
        self.line_origins.remove(cl);
        let cur_len = cur.len();
        let head = copy_range(&cur, 0, col);
        let tail = copy_range(&cur, col, cur_len);
        let ghost hv = head@;
        let ghost tv = tail@;
        let ghost sv = views(segs@);
        proof {
            assert(cur@ == m.lines[cl as int]);
            lemma_split_valid(cur@, col as int);
        }
        let mut i: usize = 0;
        while i < k
            invariant
                i <= k,
                k == segs@.len(),
                sv == views(segs@),
                0 <= cl < n,
                n == m.lines.len(),
                m.origins.len() == n,
                origin == m.origins[cl as int],
                hv == head@,
                tv == tail@,
                views(self.lines@) == m.lines.subrange(0, cl as int) + Seq::new(
                    i as nat,
                    |j: int| model::spliced_piece(hv, sv, tv, j),
                ) + m.lines.subrange(cl + 1, n),
                self.line_origins@ == m.origins.subrange(0, cl as int) + Seq::new(
                    i as nat,
                    |j: int| origin,
                ) + m.origins.subrange(cl + 1, n),
                self.original_lines@ == old(self).original_lines@,
                self.metrics == old(self).metrics,
                self.scroll_y == old(self).scroll_y,
                self.cursor_line == cl,
            decreases k - i,
        {
            let mut piece: Vec<u8> = if i == 0 {
                copy_range(&head, 0, head.len())
            } else {
                Vec::new()
            };
            let mut mid = copy_range(&segs[i], 0, segs[i].len());
            piece.append(&mut mid);
            if i + 1 == k {
                let mut t = copy_range(&tail, 0, tail.len());
                piece.append(&mut t);
            }
            assert(piece@ =~= model::spliced_piece(hv, sv, tv, i as int));
            let ghost before = views(self.lines@);
            let ghost obefore = self.line_origins@;
            let len_now = self.lines.len();
            assert(before.len() == self.lines@.len());
            assert(cl + i <= len_now);
            let ghost pv = piece@;
            self.lines.insert(cl + i, piece);
            self.line_origins.insert(cl + i, origin);
            assert(views(self.lines@) =~= before.insert(cl + i, pv));
            i = i + 1;
            assert(views(self.lines@) =~= m.lines.subrange(0, cl as int) + Seq::new(
                i as nat,
                |j: int| model::spliced_piece(hv, sv, tv, j),
            ) + m.lines.subrange(cl + 1, n));
            assert(self.line_origins@ =~= m.origins.subrange(0, cl as int) + Seq::new(
                i as nat,
                |j: int| origin,
            ) + m.origins.subrange(cl + 1, n));
        }
        let ghost pieces = Seq::new(k as nat, |j: int| model::spliced_piece(hv, sv, tv, j));
        let ghost lastj = k - 1;
        let ghost x = (if lastj == 0 {
            hv
        } else {
            Seq::<u8>::empty()
        }) + sv[lastj];
        proof {
            assert(views(self.lines@).len() == self.lines@.len());
            assert(views(self.lines@)[cl + k - 1] == pieces[lastj]);
            assert(pieces[lastj] =~= x + tv);
        }
        let total = self.lines.len();
        assert(views(self.lines@).len() == n - 1 + k);
        assert(cl + k - 1 < total);
        let last_len = self.lines[cl + k - 1].len();
        self.cursor_line = cl + k - 1;
        self.cursor_col = last_len - tail.len();
        self.sel_anchor = None;
        proof {
            let pieces = Seq::new(k as nat, |j: int| model::spliced_piece(hv, sv, tv, j));
            assert forall|j: int| 0 <= j < k implies valid_utf8(#[trigger] pieces[j]) by {
                let x = (if j == 0 {
                    hv
                } else {
                    Seq::<u8>::empty()
                }) + sv[j];
                assert(valid_utf8(Seq::<u8>::empty()));
                lemma_concat_valid(
                    if j == 0 {
                        hv
                    } else {
                        Seq::<u8>::empty()
                    },
                    sv[j],
                );
                lemma_concat_valid(
                    x,
                    if j == k - 1 {
                        tv
                    } else {
                        Seq::<u8>::empty()
                    },
                );
                assert(pieces[j] =~= x + (if j == k - 1 {
                    tv
                } else {
                    Seq::<u8>::empty()
                }));
            }
            assert forall|i: int| 0 <= i < self@.lines.len() implies valid_utf8(
                #[trigger] self@.lines[i],
            ) by {
                if i < cl {
                    assert(self@.lines[i] == m.lines[i]);
                } else if i < cl + k {
                    assert(self@.lines[i] == pieces[i - cl]);
                } else {
                    assert(self@.lines[i] == m.lines[i - k + 1]);
                }
            }
            assert forall|i: int| 0 <= i < self.line_origins@.len() implies #[trigger] self.line_origins@[i]
                < self.original_lines@.len() by {
                if i < cl {
                    assert(self.line_origins@[i] == m.origins[i]);
                } else if i < cl + k {
                    assert(self.line_origins@[i] == origin);
                } else {
                    assert(self.line_origins@[i] == m.origins[i - k + 1]);
                }
            }
            lemma_concat_valid(
                if lastj == 0 {
                    hv
                } else {
                    Seq::<u8>::empty()
                },
                sv[lastj],
            );
            lemma_concat_valid(x, tv);
            assert(self@.lines[cl + k - 1] == pieces[lastj]);
            assert(pieces[lastj] =~= x + tv);
            assert(self@ == model::splice_segments(m, sv));
        }
    }

    /// Types `text` at the cursor: an active selection is deleted first, each
    /// line feed splits the line, the anchor is cleared and the view scrolls
    /// to the cursor.
    pub fn insert_text(&mut self, text: &str)
        requires
            old(self).wf(),
        ensures
            final(self).wf(),
            final(self).setup_same(old(self)),
            final(self)@ == model::insert_text(old(self)@, encode_utf8(text@)),
    {
        if self.has_selection() {
            self.delete_selection();
        }
        let bytes = text.as_bytes();
        proof {
            encode_utf8_valid_utf8(text@);
        }
        let segs = split_on_newlines(bytes);
        proof {
            lemma_split_lines_nonempty(bytes@);
        }
        self.splice(&segs);
        self.scroll_to_cursor();
    }

    /// Splits the cursor line at the cursor (deleting an active selection
    /// first); the cursor moves to the start of the new line.
    pub fn insert_newline(&mut self)
        requires
            old(self).wf(),
        ensures
            final(self).wf(),
            final(self).setup_same(old(self)),
            final(self)@ == model::insert_newline(old(self)@),
    {
        if self.has_selection() {
            self.delete_selection();
        }
        let mut segs: Vec<Vec<u8>> = Vec::new();
        segs.push(Vec::new());
        segs.push(Vec::new());
        proof {
            reveal_with_fuel(split_lines, 2);
            let nl = seq![NEWLINE];
            assert(nl.drop_last() =~= Seq::<u8>::empty());
            assert(views(segs@) =~= split_lines(nl));
            assert(valid_utf8(Seq::<u8>::empty()));
        }
        self.splice(&segs);
        self.scroll_to_cursor();
    }

    /// Inserts two spaces (replacing an active selection).
    pub fn insert_tab(&mut self)
        requires
            old(self).wf(),
        ensures
            final(self).wf(),
            final(self).setup_same(old(self)),
            final(self)@ == model::insert_text(old(self)@, encode_utf8(seq![' ', ' '])),
    {
        let ghost m = self@;
        self.insert_text("  ");
        proof {
            reveal_strlit("  ");
            assert("  "@ =~= seq![' ', ' ']);

        }
    }

    /// Deletes the character before the cursor, or joins the cursor line
    /// onto the line above at column 0; an active selection is deleted
    /// instead. Scrolls to the cursor unless a selection was deleted.
    pub fn delete_backward(&mut self)
        requires
            old(self).wf(),
        ensures
            final(self).wf(),
            final(self).setup_same(old(self)),
            final(self)@ == model::delete_backward(old(self)@),
    {
        if self.has_selection() {
            self.delete_selection();
            return;
        }
        let ghost m = self@;
        let cl = self.cursor_line;
        let col = self.cursor_col;
        if col > 0 {
            let p = prev_char_start_of(&self.lines[cl], col);
            proof {
                lemma_prev_char_start(m.lines[cl as int], col as int);
            }
            let len = self.lines[cl].len();
            let mut head = copy_range(&self.lines[cl], 0, p);
            let mut rest = copy_range(&self.lines[cl], col, len);
            let ghost hv = head@;
            let ghost rv = rest@;
            head.append(&mut rest);
            proof {
                let cur = m.lines[cl as int];
                lemma_prev_char_start(cur, col as int);
                lemma_split_valid(cur, p as int);
                lemma_split_valid(cur, col as int);
                lemma_concat_valid(hv, rv);
            }
            self.lines.set(cl, head);
            self.cursor_col = p;
            proof {
                assert(self@.lines =~= m.lines.update(cl as int, hv + rv));
            }
        } else if cl > 0 {
            let cur = self.lines.remove(cl);
            self.line_origins.remove(cl);
            let prev_len = self.lines[cl - 1].len();
            let mut joined = copy_range(&self.lines[cl - 1], 0, prev_len);
            let ghost pv = joined@;
            let mut tail = copy_range(&cur, 0, cur.len());
            joined.append(&mut tail);
            let ghost jv = joined@;
            let ghost removed = views(self.lines@);
            proof {
                assert(pv =~= m.lines[cl - 1]);
                assert(cur@ =~= m.lines[cl as int]);
                assert(jv =~= m.lines[cl - 1] + m.lines[cl as int]);
                assert(removed =~= m.lines.remove(cl as int));
                lemma_concat_valid(m.lines[cl - 1], m.lines[cl as int]);
            }
            self.lines.set(cl - 1, joined);
            assert(views(self.lines@) =~= removed.update(cl - 1, jv));
            self.cursor_line = cl - 1;
            self.cursor_col = prev_len;
            proof {
                let n = m.lines.len() as int;
                assert(self@.lines =~= m.lines.subrange(0, cl - 1) + seq![
                    m.lines[cl - 1] + m.lines[cl as int],
                ] + m.lines.subrange(cl + 1, n));
                assert forall|i: int| 0 <= i < self@.lines.len() implies valid_utf8(
                    #[trigger] self@.lines[i],
                ) by {
                    if i >= cl {
                        assert(self@.lines[i] == m.lines[i + 1]);
                    }
                }
                assert forall|i: int| 0 <= i < self.line_origins@.len() implies #[trigger] self.line_origins@[i]
                    < self.original_lines@.len() by {
                    if i >= cl {
                        assert(self.line_origins@[i] == m.origins[i + 1]);
                    }
                }
            }
        }
        self.sel_anchor = None;
        self.scroll_to_cursor();
    }

    /// Deletes the character after the cursor, or joins the next line onto
    /// the cursor line at its end; an active selection is deleted instead.
    pub fn delete_forward(&mut self)
        requires
            old(self).wf(),
        ensures
            final(self).wf(),
            final(self).setup_same(old(self)),
            final(self)@ == model::delete_forward(old(self)@),
    {
        if self.has_selection() {
            self.delete_selection();
            return;
        }
        let ghost m = self@;
        let cl = self.cursor_line;
        let col = self.cursor_col;
        let len = self.lines[cl].len();
        let count = self.lines.len();
        if col < len {
            let e = next_char_end_of(&self.lines[cl], col);
            proof {
                lemma_boundary_from(m.lines[cl as int], col + 1);
            }
            let mut head = copy_range(&self.lines[cl], 0, col);
            let mut rest = copy_range(&self.lines[cl], e, len);
            let ghost hv = head@;
            let ghost rv = rest@;
            head.append(&mut rest);
            proof {
                let cur = m.lines[cl as int];
                lemma_boundary_from(cur, col + 1);
                lemma_split_valid(cur, e as int);
                lemma_split_valid(cur, col as int);
                lemma_concat_valid(hv, rv);
            }
            self.lines.set(cl, head);
            proof {
                assert(self@.lines =~= m.lines.update(cl as int, hv + rv));
            }
        } else if cl + 1 < count {
            let next = self.lines.remove(cl + 1);
            self.line_origins.remove(cl + 1);
            let mut joined = copy_range(&self.lines[cl], 0, len);
            let ghost pv = joined@;
            let mut tail = copy_range(&next, 0, next.len());
            joined.append(&mut tail);
            let ghost jv = joined@;
            let ghost removed = views(self.lines@);
            proof {
                assert(pv =~= m.lines[cl as int]);
                assert(next@ =~= m.lines[cl + 1]);
                assert(jv =~= m.lines[cl as int] + m.lines[cl + 1]);
                assert(removed =~= m.lines.remove(cl + 1));
                lemma_concat_valid(m.lines[cl as int], m.lines[cl + 1]);
            }
            self.lines.set(cl, joined);
            assert(views(self.lines@) =~= removed.update(cl as int, jv));
            proof {
                let n = m.lines.len() as int;
                assert(self@.lines =~= m.lines.subrange(0, cl as int) + seq![
                    m.lines[cl as int] + m.lines[cl + 1],
                ] + m.lines.subrange(cl + 2, n));
                assert forall|i: int| 0 <= i < self@.lines.len() implies valid_utf8(
                    #[trigger] self@.lines[i],
                ) by {
                    if i > cl {
                        assert(self@.lines[i] == m.lines[i + 1]);
                    }
                }
                assert forall|i: int| 0 <= i < self.line_origins@.len() implies #[trigger] self.line_origins@[i]
                    < self.original_lines@.len() by {
                    if i > cl {
                        assert(self.line_origins@[i] == m.origins[i + 1]);
                    }
                }
            }
        }
        self.sel_anchor = None;
    }

    /// Anchor at the start of the buffer, cursor at the end of the last line.
    pub fn select_all(&mut self)
        requires
            old(self).wf(),
        ensures
            final(self).wf(),
            final(self).setup_same(old(self)),
            final(self)@ == model::select_all(old(self)@),
    {
        let last = self.lines.len() - 1;
        self.sel_anchor = Some((0, 0));
        self.cursor_line = last;
        self.cursor_col = self.lines[last].len();
        proof {
            lemma_boundary(self@.lines[0], 0);
            lemma_boundary(self@.lines[last as int], self@.lines[last as int].len() as int);
        }
    }

    /// Clears the selection anchor.
    pub fn cancel_selection(&mut self)
        requires
            old(self).wf(),
        ensures
            final(self).wf(),
            final(self).setup_same(old(self)),
            final(self)@ == model::cancel_selection(old(self)@),
    {
        self.sel_anchor = None;
    }

    /// Scrolls by `dy` pixels (positive reveals lower content), clamped to
    /// the content.
    pub fn scroll_by(&mut self, dy: i64)
        requires
            old(self).wf(),
        ensures
            final(self).wf(),
            final(self).setup_same(old(self)),
            final(self)@ == model::scroll_by(old(self)@, dy as int),
    {
        self.scroll_by_input(dy, false);
    }

    /// Scrolls by a delta from an input source whose sign convention may be
    /// inverted (as for pan gestures): `-dy` is applied when `inverted`.
    pub fn scroll_by_input(&mut self, dy: i64, inverted: bool)
        requires
            old(self).wf(),
        ensures
            final(self).wf(),
            final(self).setup_same(old(self)),
            final(self)@ == model::scroll_by(old(self)@, if inverted {
                -dy
            } else {
                dy as int
            }),
    {
        let d: i128 = if inverted {
            -(dy as i128)
        } else {
            dy as i128
        };
        let s: u128 = if d >= 0 {
            self.scroll_y + d as u128
        } else if (-d) as u128 > self.scroll_y {
            0
        } else {
            self.scroll_y - (-d) as u128
        };
        self.scroll_y = self.clamped_scroll(s);
    }

    fn left_dest(&self) -> (r: (usize, usize))
        requires
            self.wf(),
        ensures
            (r.0 as int, r.1 as int) == model::left_dest(self@),
            model::valid_pos(self@.lines, r.0 as int, r.1 as int),
    {
        let cl = self.cursor_line;
        let col = self.cursor_col;
        if col > 0 {
            proof {
                lemma_prev_char_start(self@.lines[cl as int], col as int);
            }
            (cl, prev_char_start_of(&self.lines[cl], col))
        } else if cl > 0 {
            (cl - 1, self.lines[cl - 1].len())
        } else {
            (cl, col)
        }
    }

    fn right_dest(&self) -> (r: (usize, usize))
        requires
            self.wf(),
        ensures
            (r.0 as int, r.1 as int) == model::right_dest(self@),
            model::valid_pos(self@.lines, r.0 as int, r.1 as int),
    {
        let cl = self.cursor_line;
        let col = self.cursor_col;
        if col < self.lines[cl].len() {
            proof {
                lemma_boundary_from(self@.lines[cl as int], col + 1);
            }
            (cl, next_char_end_of(&self.lines[cl], col))
        } else if cl < self.lines.len() - 1 {
            proof {
                lemma_boundary(self@.lines[cl + 1], 0);
            }
            (cl + 1, 0)
        } else {
            (cl, col)
        }
    }

    fn up_dest(&self) -> (r: (usize, usize))
        requires
            self.wf(),
        ensures
            (r.0 as int, r.1 as int) == model::up_dest(self@),
            model::valid_pos(self@.lines, r.0 as int, r.1 as int),
    {
        let cl = self.cursor_line;
        let col = self.cursor_col;
        if cl > 0 {
            proof {
                lemma_char_floor(self@.lines[cl - 1], col as int);
            }
            (cl - 1, char_floor_of(&self.lines[cl - 1], col))
        } else {
            (cl, col)
        }
    }

    fn down_dest(&self) -> (r: (usize, usize))
        requires
            self.wf(),
        ensures
            (r.0 as int, r.1 as int) == model::down_dest(self@),
            model::valid_pos(self@.lines, r.0 as int, r.1 as int),
    {
        let cl = self.cursor_line;
        let col = self.cursor_col;
        if cl < self.lines.len() - 1 {
            proof {
                lemma_char_floor(self@.lines[cl + 1], col as int);
            }
            (cl + 1, char_floor_of(&self.lines[cl + 1], col))
        } else {
            (cl, col)
        }
    }

    /// Moves the cursor to `dest`, or collapses an active selection when not
    /// extending (see `model::apply_motion`).
    fn apply_motion(&mut self, extend: bool, dest: (usize, usize), to_start: bool)
        requires
            old(self).wf(),
            model::valid_pos(old(self)@.lines, dest.0 as int, dest.1 as int),
        ensures
            final(self).wf(),
            final(self).setup_same(old(self)),
            final(self)@ == model::apply_motion(
                old(self)@,
                extend,
                (dest.0 as int, dest.1 as int),
                to_start,
            ),
    {
        if extend && matches!(self.sel_anchor, None) {
            self.sel_anchor = Some((self.cursor_line, self.cursor_col));
        }
        if !extend && self.has_selection() {
            match self.selection_range() {
                Some((sl, sc, el, ec)) => {
                    if to_start {
                        self.cursor_line = sl;
                        self.cursor_col = sc;
                    } else {
                        self.cursor_line = el;
                        self.cursor_col = ec;
                    }
                },
                None => {},
            }
            self.sel_anchor = None;
        } else {
            self.cursor_line = dest.0;
            self.cursor_col = dest.1;
            if !extend {
                self.sel_anchor = None;
            }
        }
    }

    /// One character left, wrapping to the end of the previous line.
    pub fn move_left(&mut self, extend_selection: bool)
        requires
            old(self).wf(),
        ensures
            final(self).wf(),
            final(self).setup_same(old(self)),
            final(self)@ == model::move_left(old(self)@, extend_selection),
    {
        let d = self.left_dest();
        self.apply_motion(extend_selection, d, true);
    }

    /// One character right, wrapping to the start of the next line.
    pub fn move_right(&mut self, extend_selection: bool)
        requires
            old(self).wf(),
        ensures
            final(self).wf(),
            final(self).setup_same(old(self)),
            final(self)@ == model::move_right(old(self)@, extend_selection),
    {
        let d = self.right_dest();
        self.apply_motion(extend_selection, d, false);
    }

    /// One line up, keeping the byte column where the line allows; scrolls to
    /// the cursor.
    pub fn move_up(&mut self, extend_selection: bool)
        requires
            old(self).wf(),
        ensures
            final(self).wf(),
            final(self).setup_same(old(self)),
            final(self)@ == model::move_up(old(self)@, extend_selection),
    {
        let d = self.up_dest();
        self.apply_motion(extend_selection, d, true);
        self.scroll_to_cursor();
    }

    /// One line down, keeping the byte column where the line allows; scrolls
    /// to the cursor.
    pub fn move_down(&mut self, extend_selection: bool)
        requires
            old(self).wf(),
        ensures
            final(self).wf(),
            final(self).setup_same(old(self)),
            final(self)@ == model::move_down(old(self)@, extend_selection),
    {
        let d = self.down_dest();
        self.apply_motion(extend_selection, d, false);
        self.scroll_to_cursor();
    }

    /// To column 0 of the cursor line.
    pub fn move_to_beginning_of_line(&mut self, extend_selection: bool)
        requires
            old(self).wf(),
        ensures
            final(self).wf(),
            final(self).setup_same(old(self)),
            final(self)@ == model::move_to_line_start(old(self)@, extend_selection),
    {
        proof {
            lemma_boundary(self@.lines[self@.line], 0);
        }
        self.apply_motion(extend_selection, (self.cursor_line, 0), true);
    }

    /// To the end of the cursor line.
    pub fn move_to_end_of_line(&mut self, extend_selection: bool)
        requires
            old(self).wf(),
        ensures
            final(self).wf(),
            final(self).setup_same(old(self)),
            final(self)@ == model::move_to_line_end(old(self)@, extend_selection),
    {
        let len = self.lines[self.cursor_line].len();
        self.apply_motion(extend_selection, (self.cursor_line, len), false);
    }

    /// Places the cursor under a tap at view-local pixel `(x, y)`, measuring
    /// columns with the monospace character width, and clears the anchor.
    pub fn tap_to_cursor(&mut self, x: i64, y: i64)
        requires
            old(self).wf(),
        ensures
            final(self).wf(),
            final(self).setup_same(old(self)),
            final(self)@ == model::tap_to_cursor(
                old(self)@,
                x as int,
                y as int,
                gutter_width_spec(old(self)@.lines.len(), old(self).spec_metrics().char_width as nat) as int,
                old(self).spec_metrics().char_width as int,
            ),
    {
        let ghost m = self@;
        let n = self.lines.len();
        let gutter = gutter_width(n, self.metrics.char_width);
        let lh = self.metrics.line_height as i128;
        let yy = y as i128 + self.scroll_y as i128;
        let line: usize = if yy < 0 {
            0
        } else if yy / lh >= n as i128 {
            n - 1
        } else {
            (yy / lh) as usize
        };
        let tx = x as i128 - gutter as i128;
        let col: usize = if tx <= 0 {
            0
        } else {
            let cw = self.metrics.char_width as i128;
            let approx = (2 * tx + cw) / (2 * cw);
            let len = self.lines[line].len();
            let c: usize = if approx > len as i128 {
                len
            } else {
                approx as usize
            };
            proof {
                lemma_char_floor(m.lines[line as int], c as int);
                lemma_char_floor(m.lines[line as int], approx as int);
                if approx > len {
                    lemma_char_floor_past_end(m.lines[line as int], approx as int);
                }
            }
            char_floor_of(&self.lines[line], c)
        };
        proof {
            lemma_boundary(m.lines[line as int], 0);
            lemma_char_floor(m.lines[line as int], col as int);
        }
        self.cursor_line = line;
        self.cursor_col = col;
        self.sel_anchor = None;
    }

    /// The original line `i`.
    pub fn original_line(&self, i: usize) -> (r: &OriginalLine)
        requires
            i < self.originals().len(),
        ensures
            *r == self.originals()[i as int],
    {
        &self.original_lines[i]
    }

    /// Number of original lines.
    pub fn original_count(&self) -> (r: usize)
        ensures
            r == self.originals().len(),
    {
        self.original_lines.len()
    }

    /// `r` are the highlight spans of line `idx`: its original line's spans
    /// unchanged while the text equals the original text, else those spans
    /// remapped onto the current text.
    pub open spec fn line_tokens(&self, idx: int, r: Seq<TokenSpan>) -> bool {
        let orig = self.originals()[self@.origins[idx] as int];
        if self@.lines[idx] == encode_utf8(orig.text@) {
            r == orig.tokens@
        } else {
            remapped(r, orig.tokens@, encode_utf8(orig.text@), self@.lines[idx])
        }
    }

    /// Highlight spans for line `idx` (see `line_tokens`).
    pub fn tokens_for_line(&self, idx: usize) -> (r: Vec<TokenSpan>)
        requires
            self.wf(),
            idx < self@.lines.len(),
        ensures
            self.line_tokens(idx as int, r@),
    {
        let origin = self.line_origins[idx];
        let orig = &self.original_lines[origin];
        let orig_bytes = orig.text.as_str().as_bytes();
        let cur = self.lines[idx].as_slice();
        if bytes_equal(cur, orig_bytes) {
            copy_spans(&orig.tokens)
        } else {
            remap_bytes(&orig.tokens, orig_bytes, cur)
        }
    }

    /// The selected text, lines joined by line feeds; empty without an anchor.
    pub fn selected_text(&self) -> (r: String)
        requires
            self.wf(),
        ensures
            self@.anchor is None ==> r@.len() == 0,
            self@.anchor is Some ==> r@ == decode_utf8(
                model::text_between(self@.lines, model::sel_start(self@), model::sel_end(self@)),
            ),
    {
        match self.selection_range() {
            None => String::new(),
            Some((sl, sc, el, ec)) => {
                let ghost m = self@;
                let ghost e = (el as int, ec as int);
                if sl == el {
                    let bytes = copy_range(&self.lines[sl], sc, ec);
                    proof {
                        lemma_split_valid(m.lines[sl as int], sc as int);
                        let t = m.lines[sl as int].subrange(sc as int, m.lines[sl as int].len() as int);
                        lemma_split_valid(t, ec - sc);
                        assert(t.subrange(0, ec - sc) =~= bytes@);
                    }
                    string_of_utf8(bytes)
                } else {
                    let first_len = self.lines[sl].len();
                    let mut acc = copy_range(&self.lines[sl], sc, first_len);
                    proof {
                        lemma_split_valid(m.lines[sl as int], sc as int);
                        lemma_newline_valid();
                    }
                    let mut l: usize = sl + 1;
                    while l < el
                        invariant
                            sl < l <= el,
                            e == (el as int, ec as int),
                            el < m.lines.len(),
                            m == self@,
                            model_wf(m),
                            ec <= m.lines[el as int].len(),
                            model::text_between(m.lines, (sl as int, sc as int), e) == acc@
                                + seq![NEWLINE] + model::text_between(m.lines, (l as int, 0), e),
                            valid_utf8(acc@),
                            valid_utf8(seq![NEWLINE]),
                        decreases el - l,
                    {
                        let ghost a0 = acc@;
                        acc.push(NEWLINE);
                        let mut line = copy_range(&self.lines[l], 0, self.lines[l].len());
                        proof {
                            assert(line@ =~= m.lines[l as int]);
                            lemma_concat_valid(a0, seq![NEWLINE]);
                            lemma_concat_valid(a0 + seq![NEWLINE], m.lines[l as int]);
                            assert(line@.subrange(0, line@.len() as int) =~= line@);
                        }
                        acc.append(&mut line);
                        l = l + 1;
                        proof {
                            assert(acc@ =~= a0 + seq![NEWLINE] + m.lines[(l - 1) as int]);
                            let s0: (int, int) = ((l - 1) as int, 0);
                            assert(e.0 > s0.0);
                            assert((s0.0 + 1, 0int) == (l as int, 0int));
                            assert(model::text_between(m.lines, ((l - 1) as int, 0), e) == m.lines[(l
                                - 1) as int].subrange(0, m.lines[(l - 1) as int].len() as int)
                                + seq![NEWLINE] + model::text_between(m.lines, (l as int, 0), e));
                            assert(m.lines[(l - 1) as int].subrange(
                                0,
                                m.lines[(l - 1) as int].len() as int,
                            ) =~= m.lines[(l - 1) as int]);
                            assert(acc@ + seq![NEWLINE] + model::text_between(m.lines, (l as int, 0), e)
                                =~= a0 + seq![NEWLINE] + model::text_between(
                                m.lines,
                                ((l - 1) as int, 0),
                                e,
                            ));
                        }
                    }
                    let ghost a0 = acc@;
                    acc.push(NEWLINE);
                    let mut last = copy_range(&self.lines[el], 0, ec);
                    proof {
                        lemma_split_valid(m.lines[el as int], ec as int);
                        lemma_concat_valid(a0, seq![NEWLINE]);
                        lemma_concat_valid(a0 + seq![NEWLINE], last@);
                    }
                    acc.append(&mut last);
                    proof {
                        assert(acc@ =~= a0 + seq![NEWLINE] + m.lines[el as int].subrange(0, ec as int));
                    }
                    string_of_utf8(acc)
                }
            },
        }
    }

    /// The scroll offset stays below the bound on content height.
    pub proof fn lemma_scroll_bound(&self)
        requires
            self.wf(),
        ensures
            self@.scroll_y < SCROLL_BOUND,
    {
    }

    /// Byte length of line `i`.
    pub fn line_len(&self, i: usize) -> (r: usize)
        requires
            i < self@.lines.len(),
        ensures
            r == self@.lines[i as int].len(),
    {
        self.lines[i].len()
    }

    /// The line under view-local `y` (see `model::line_at_y`).
    pub fn line_at(&self, y: i64) -> (r: usize)
        requires
            self.wf(),
        ensures
            r == model::line_at_y(self@, y as int),
            r < self@.lines.len(),
    {
        let n = self.lines.len();
        let lh = self.metrics.line_height as i128;
        let yy = y as i128 + self.scroll_y as i128;
        if yy < 0 {
            0
        } else if yy / lh >= n as i128 {
            n - 1
        } else {
            (yy / lh) as usize
        }
    }

    /// The byte index after each character of line `i`: the prefixes whose
    /// widths a precise click needs.
    pub fn char_ends(&self, i: usize) -> (r: Vec<usize>)
        requires
            self.wf(),
            i < self@.lines.len(),
        ensures
            r@.map_values(|e: usize| e as int) == model::char_ends(self@.lines[i as int]),
    {
        let b = &self.lines[i];
        let n = b.len();
        let mut out: Vec<usize> = Vec::new();
        let mut j: usize = 0;
        assert(out@.map_values(|e: usize| e as int) =~= model::ends_upto(b@, 0));
        while j < n
            invariant
                n == b@.len(),
                j <= n,
                out@.map_values(|e: usize| e as int) == model::ends_upto(b@, j as int),
            decreases n - j,
        {
            j = j + 1;
            let ghost before = out@;
            if j == n || !is_continuation(b[j]) {
                out.push(j);
                assert(out@.map_values(|e: usize| e as int) =~= before.map_values(|e: usize| e as int).push(j as int));
            } else {
                assert(model::ends_upto(b@, j as int) =~= model::ends_upto(b@, j - 1));
            }
        }
        out
    }

    /// Places the cursor under a click at view-local `(x, y)`, choosing the
    /// character edge whose measured offset is nearest; `widths[k]` is the
    /// width of the clicked line's text up to its `k`-th character end (see
    /// `char_ends`). Clears the anchor.
    pub fn click_to_cursor(&mut self, x: i64, y: i64, widths: &Vec<u64>)
        requires
            old(self).wf(),
        ensures
            final(self).wf(),
            final(self).setup_same(old(self)),
            final(self)@ == model::click_to_cursor(
                old(self)@,
                x as int,
                y as int,
                gutter_width_spec(old(self)@.lines.len(), old(self).spec_metrics().char_width as nat) as int,
                old(self).spec_metrics().char_width as int,
                widths@,
            ),
    {
        let ghost m = self@;
        let line = self.line_at(y);
        let gutter = gutter_width(self.lines.len(), self.metrics.char_width);
        let tx = x as i128 - gutter as i128;
        let col: usize = if tx <= 0 {
            proof {
                lemma_boundary(m.lines[line as int], 0);
            }
            0
        } else {
            let ends = self.char_ends(line);
            let ghost ev = ends@.map_values(|e: usize| e as int);
            let cw = self.metrics.char_width as i128;
            let mut best: usize = 0;
            let mut best_dist: i128 = tx;
            let mut k: usize = 0;
            let mut done = false;
            proof {
                lemma_boundary(m.lines[line as int], 0);
                lemma_char_ends(m.lines[line as int], m.lines[line as int].len() as int);
            }
            while k < ends.len() && k < widths.len() && !done
                invariant
                    ev == model::char_ends(m.lines[line as int]),
                    ev.len() == ends@.len(),
                    forall|t: int| 0 <= t < ev.len() ==> #[trigger] ev[t] == ends@[t] as int,
                    forall|t: int| 0 <= t < ev.len() ==> at_boundary(m.lines[line as int], #[trigger] ev[t]),
                    at_boundary(m.lines[line as int], best as int),
                    0 <= best_dist <= tx,
                    tx < 0x1_0000_0000_0000_0000,
                    cw == self.metrics.char_width,
                    done ==> best == model::nearest_end_from(ev, widths@, tx as int, cw as int, 0, 0, tx as int),
                    !done ==> model::nearest_end_from(ev, widths@, tx as int, cw as int, 0, 0, tx as int)
                        == model::nearest_end_from(ev, widths@, tx as int, cw as int, k as int, best as int, best_dist as int),
                decreases ends@.len() - k, if done { 0int } else { 1int },
            {
                let px = widths[k] as i128;
                let d = if tx >= px {
                    tx - px
                } else {
                    px - tx
                };
                if d < best_dist {
                    best = ends[k];
                    best_dist = d;
                }
                if px > tx + cw {
                    done = true;
                } else {
                    k = k + 1;
                }
            }
            best
        };
        self.cursor_line = line;
        self.cursor_col = col;
        self.sel_anchor = None;
    }
}

/// Every listed character end is a boundary.
proof fn lemma_char_ends(b: Seq<u8>, j: int)
    requires
        0 <= j <= b.len(),
    ensures
        forall|t: int|
            0 <= t < model::ends_upto(b, j).len() ==> at_boundary(b, #[trigger] model::ends_upto(b, j)[t]),
    decreases j,
{
    if j > 0 {
        lemma_char_ends(b, j - 1);
        let prev = model::ends_upto(b, j - 1);
        assert forall|t: int| 0 <= t < model::ends_upto(b, j).len() implies at_boundary(
            b,
            #[trigger] model::ends_upto(b, j)[t],
        ) by {
            if t < prev.len() {
                assert(model::ends_upto(b, j)[t] == prev[t]);
            }
        }
    }
}

/// What `str::to_uppercase` makes of a text.
pub uninterp spec fn uppercase_of(s: Seq<char>) -> Seq<char>;

/// Relies on `str::to_uppercase`: the result depends on the characters alone.
#[verifier::external_body]
fn to_uppercase(s: &str) -> (r: String)
    ensures
        r@ == uppercase_of(s@),
{
    s.to_uppercase()
}

impl TextBuffer {
    /// Replaces an active selection by its uppercase form (the cursor ends
    /// after it); without a selection nothing changes.
    pub fn uppercase_selection(&mut self)
        requires
            old(self).wf(),
        ensures
            final(self).wf(),
            final(self).setup_same(old(self)),
            !model::has_selection(old(self)@) ==> final(self)@ == old(self)@,
            model::has_selection(old(self)@) ==> final(self)@ == model::insert_text(
                old(self)@,
                encode_utf8(
                    uppercase_of(
                        decode_utf8(
                            model::text_between(
                                old(self)@.lines,
                                model::sel_start(old(self)@),
                                model::sel_end(old(self)@),
                            ),
                        ),
                    ),
                ),
            ),
    {
        if self.has_selection() {
            let text = self.selected_text();
            let upper = to_uppercase(text.as_str());
            self.insert_text(upper.as_str());
        }
    }
}

} // verus!
