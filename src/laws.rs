//! Properties of the editing commands that relate several calls.
use vstd::prelude::*;
use vstd::utf8::*;
use crate::model::{
    clear_selection_for_edit, cursor_of, delete_backward, has_selection, insert_text, left_dest,
    model_wf, move_left, scroll_to_cursor, sel_start, splice_segments, spliced_piece, valid_pos,
    BufferModel,
};
use crate::buffer::TextBuffer;
use crate::remap::{
    attr_fn, attr_of, joins, kept_prefix, kept_suffix, last_cover, remapped, runs_upto, span_attr,
    DEFAULT_COLOR,
};
use crate::token::{TokenSpan, TokenStyle};
use crate::text::{lemma_prev_char_start, prev_char_start, split_lines, NEWLINE};

verus! {

/// With a selection active, a first `move_left(false)` only collapses the
/// cursor to the selection start and clears the anchor; a second one is an
/// ordinary move one character left, so the two calls leave the cursor in
/// different places unless the selection starts at the very beginning.
pub proof fn law_collapse_then_move(m: BufferModel)
    requires
        model_wf(m),
        has_selection(m),
    ensures
        cursor_of(move_left(m, false)) == sel_start(m),
        move_left(m, false).anchor is None,
        cursor_of(move_left(move_left(m, false), false)) == left_dest(move_left(m, false)),
        sel_start(m) != (0int, 0int) ==> cursor_of(move_left(move_left(m, false), false))
            != cursor_of(move_left(m, false)),
{
    let m1 = move_left(m, false);
    let s = sel_start(m);
    assert(valid_pos(m.lines, s.0, s.1));
    if s.1 > 0 {
        lemma_prev_char_start(m.lines[s.0], s.1);
    }
}

/// `k` backspaces in a row.
pub open spec fn delete_backward_times(m: BufferModel, k: nat) -> BufferModel
    decreases k,
{
    if k == 0 {
        m
    } else {
        delete_backward_times(delete_backward(m), (k - 1) as nat)
    }
}

/// The UTF-8 encoding of one character: a first byte that is no
/// continuation byte, then continuation bytes; no line feed unless the
/// character is one.
proof fn lemma_scalar_shape(c: char)
    ensures
        encode_scalar(c as u32).len() >= 1,
        !is_continuation_byte(encode_scalar(c as u32)[0]),
        forall|j: int|
            1 <= j < encode_scalar(c as u32).len() ==> is_continuation_byte(
                #[trigger] encode_scalar(c as u32)[j],
            ),
        c != '\n' ==> forall|j: int|
            0 <= j < encode_scalar(c as u32).len() ==> #[trigger] encode_scalar(c as u32)[j]
                != NEWLINE,
{
    char_is_scalar(c);
    let v = c as u32;
    let e = encode_scalar(v);
    if has_width_1_encoding(v) {
        assert((v & 0x7F) as u8 == v as u8 && v as u8 == v) by (bit_vector)
            requires
                v <= 0x7F,
        ;
        if c != '\n' {
            assert(v != 10) by {
                if v == 10 {
                    char_u32_cast(c, v);
                    assert((10u32 as char) == '\n');
                }
            }
        }
    } else {
        let b0 = e[0];
        assert(b0 >= 0xC0) by {
            if has_width_2_encoding(v) {
                assert(0xC0 | ((v >> 6) & 0x1F) as u8 >= 0xC0) by (bit_vector);
            } else if has_width_3_encoding(v) {
                assert(0xE0 | ((v >> 12) & 0x0F) as u8 >= 0xC0) by (bit_vector);
            } else {
                assert(0xF0 | ((v >> 18) & 0x7) as u8 >= 0xC0) by (bit_vector);
            }
        }
        assert(0x80 <= 0x80 | (v & 0x3F) as u8 <= 0xBF) by (bit_vector);
        assert(0x80 <= 0x80 | ((v >> 6) & 0x3F) as u8 <= 0xBF) by (bit_vector);
        assert(0x80 <= 0x80 | ((v >> 12) & 0x3F) as u8 <= 0xBF) by (bit_vector);
    }
}

/// Encoding one more character appends its encoding.
proof fn lemma_encode_push(s: Seq<char>, c: char)
    ensures
        encode_utf8(s.push(c)) == encode_utf8(s) + encode_scalar(c as u32),
    decreases s.len(),
{
    if s.len() == 0 {
        assert(s.push(c).drop_first() =~= Seq::<char>::empty());
        assert(encode_utf8(s.push(c)) =~= encode_scalar(c as u32) + encode_utf8(Seq::<char>::empty()));
        assert(encode_utf8(s) + encode_scalar(c as u32) =~= encode_scalar(c as u32));
    } else {
        assert(s.push(c).drop_first() =~= s.drop_first().push(c));
        lemma_encode_push(s.drop_first(), c);
        assert(encode_utf8(s.push(c)) =~= encode_scalar(s[0] as u32) + encode_utf8(s.drop_first().push(c)));
    }
}

/// Text without line feeds encodes without line-feed bytes.
proof fn lemma_encode_no_newline(s: Seq<char>)
    requires
        forall|i: int| 0 <= i < s.len() ==> s[i] != '\n',
    ensures
        forall|j: int| 0 <= j < encode_utf8(s).len() ==> #[trigger] encode_utf8(s)[j] != NEWLINE,
    decreases s.len(),
{
    if s.len() > 0 {
        lemma_scalar_shape(s[0]);
        lemma_encode_no_newline(s.drop_first());
        let e = encode_scalar(s[0] as u32);
        let r = encode_utf8(s.drop_first());
        assert forall|j: int| 0 <= j < encode_utf8(s).len() implies #[trigger] encode_utf8(s)[j]
            != NEWLINE by {
            if j < e.len() {
                assert(encode_utf8(s)[j] == e[j]);
            } else {
                assert(encode_utf8(s)[j] == r[j - e.len()]);
            }
        }
    }
}

/// Bytes without a line feed form a single piece.
proof fn lemma_split_single(b: Seq<u8>)
    requires
        forall|j: int| 0 <= j < b.len() ==> b[j] != NEWLINE,
    ensures
        split_lines(b) == seq![b],
    decreases b.len(),
{
    if b.len() > 0 {
        lemma_split_single(b.drop_last());
        assert(b.drop_last().push(b.last()) =~= b);
    } else {
        assert(b =~= Seq::<u8>::empty());
    }
}

/// Backing up from the end of a character's encoding reaches its start.
proof fn lemma_prev_over_char(a: Seq<u8>, c: char, b: Seq<u8>, j: int)
    requires
        1 <= j <= encode_scalar(c as u32).len(),
    ensures
        prev_char_start(a + encode_scalar(c as u32) + b, a.len() + j) == a.len(),
    decreases j,
{
    lemma_scalar_shape(c);
    let e = encode_scalar(c as u32);
    let l = a + e + b;
    assert(l[a.len() + j - 1] == e[j - 1]);
    if j > 1 {
        lemma_prev_over_char(a, c, b, j - 1);
    }
}

/// Backspacing once per character of `t`, typed between `head` and `tail`
/// on line `x.line`, leaves `head` and `tail` with the cursor between them.
proof fn lemma_backspace_chars(
    x: BufferModel,
    base: Seq<Seq<u8>>,
    head: Seq<u8>,
    t: Seq<char>,
    tail: Seq<u8>,
)
    requires
        0 <= x.line < base.len(),
        x.lines == base.update(x.line, head + encode_utf8(t) + tail),
        x.col == head.len() + encode_utf8(t).len(),
        x.anchor is None,
    ensures
        delete_backward_times(x, t.len()).lines == base.update(x.line, head + tail),
        delete_backward_times(x, t.len()).line == x.line,
        delete_backward_times(x, t.len()).col == head.len(),
    decreases t.len(),
{
    if t.len() == 0 {
        assert(encode_utf8(t) =~= Seq::<u8>::empty());
        assert(head + encode_utf8(t) + tail =~= head + tail);
    } else {
        let t1 = t.drop_last();
        let c = t.last();
        assert(t1.push(c) =~= t);
        lemma_encode_push(t1, c);
        lemma_scalar_shape(c);
        let e = encode_scalar(c as u32);
        let a = head + encode_utf8(t1);
        let line = x.lines[x.line];
        assert(line =~= a + e + tail);
        lemma_prev_over_char(a, c, tail, e.len() as int);
        let p = prev_char_start(line, x.col);
        assert(p == a.len());
        let shorter = line.subrange(0, p) + line.subrange(x.col, line.len() as int);
        assert(shorter =~= head + encode_utf8(t1) + tail);
        let x1 = delete_backward(x);
        assert(!has_selection(x));
        assert(x1.lines == x.lines.update(x.line, shorter));
        assert(x1.lines =~= base.update(x.line, head + encode_utf8(t1) + tail));
        lemma_backspace_chars(x1, base, head, t1, tail);
    }
}

/// Typing text without line feeds while no selection is active, then
/// pressing backspace once per typed character, restores the lines and the
/// cursor.
pub proof fn law_insert_then_backspace(m: BufferModel, s: Seq<char>)
    requires
        model_wf(m),
        !has_selection(m),
        forall|i: int| 0 <= i < s.len() ==> s[i] != '\n',
    ensures
        delete_backward_times(insert_text(m, encode_utf8(s)), s.len()).lines == m.lines,
        delete_backward_times(insert_text(m, encode_utf8(s)), s.len()).line == m.line,
        delete_backward_times(insert_text(m, encode_utf8(s)), s.len()).col == m.col,
{
    let b = encode_utf8(s);
    lemma_encode_no_newline(s);
    lemma_split_single(b);
    let cur = m.lines[m.line];
    let head = cur.subrange(0, m.col);
    let tail = cur.subrange(m.col, cur.len() as int);
    let m1 = clear_selection_for_edit(m);
    assert(m1 == m);
    let segs = split_lines(b);
    let spliced = splice_segments(m, segs);
    assert(spliced_piece(head, segs, tail, 0) =~= head + b + tail);
    assert(spliced.lines =~= m.lines.update(m.line, head + b + tail));
    let x = insert_text(m, b);
    assert(x.lines == spliced.lines);
    lemma_backspace_chars(x, m.lines, head, s, tail);
    assert(head + tail =~= cur);
    assert(m.lines.update(m.line, cur) =~= m.lines);
}

/// A line whose text equals its original line's text gets exactly the
/// original spans back: remapping is skipped for unedited lines.
pub proof fn law_unedited_line_keeps_tokens(b: TextBuffer, idx: int, r: Seq<TokenSpan>)
    requires
        b.wf(),
        0 <= idx < b@.lines.len(),
        b@.lines[idx] == encode_utf8(b.originals()[b@.origins[idx] as int].text@),
        b.line_tokens(idx, r),
    ensures
        r == b.originals()[b@.origins[idx] as int].tokens@,
{
}

/// Maximal runs over `[0, end)` leave no byte uncovered.
proof fn lemma_runs_cover(r: Seq<TokenSpan>, f: spec_fn(int) -> (Seq<char>, TokenStyle), end: int, q: int)
    requires
        runs_upto(r, f, end),
        0 <= q < end,
    ensures
        exists|k: int| 0 <= k < r.len() && (#[trigger] r[k]).start <= q < r[k].end,
    decreases r.len(),
{
    let n = r.len() as int;
    if q >= r[n - 1].start {
        assert(r[n - 1].start <= q < r[n - 1].end);
    } else {
        let r1 = r.drop_last();
        assert(n >= 2) by {
            if n == 1 {
                assert(r[0].start == 0);
            }
        }
        assert(joins(r, n - 2));
        assert forall|k: int| 0 <= k < r1.len() - 1 implies #[trigger] joins(r1, k) by {
            assert(joins(r, k));
        }
        assert forall|k: int, x: int|
            #![trigger r1[k], f(x)]
            0 <= k < r1.len() && r1[k].start <= x < r1[k].end implies f(x) == span_attr(r1[k]) by {
            assert(r1[k] == r[k]);
        }
        assert(runs_upto(r1, f, r[n - 1].start as int));
        lemma_runs_cover(r1, f, r[n - 1].start as int, q);
        let k = choose|k: int| 0 <= k < r1.len() && (#[trigger] r1[k]).start <= q < r1[k].end;
        assert(r[k] == r1[k]);
    }
}

/// After an edit, each byte of the current text lies in a remapped run
/// whose color and style are: inside the kept prefix, those of the last
/// original span over the same byte; inside the kept suffix, those of the
/// last original span over the byte shifted back by the length change;
/// elsewhere the default.
pub proof fn law_remap_keeps_prefix_and_suffix(
    tokens: Seq<TokenSpan>,
    o: Seq<u8>,
    c: Seq<u8>,
    r: Seq<TokenSpan>,
    q: int,
)
    requires
        remapped(r, tokens, o, c),
        tokens.len() > 0,
        0 <= q < c.len(),
    ensures
        exists|k: int|
            0 <= k < r.len() && (#[trigger] r[k]).start <= q < r[k].end && span_attr(r[k]) == if q < kept_prefix(
                o,
                c,
            ) {
                attr_of(tokens, last_cover(tokens, q))
            } else if q >= c.len() - kept_suffix(o, c) {
                attr_of(tokens, last_cover(tokens, q - c.len() + o.len()))
            } else {
                (DEFAULT_COLOR@, TokenStyle::Normal)
            },
{
    let f = attr_fn(tokens, o, c);
    lemma_runs_cover(r, f, c.len() as int, q);
    let k = choose|k: int| 0 <= k < r.len() && (#[trigger] r[k]).start <= q < r[k].end;
    assert(f(q) == span_attr(r[k]));
}

} // verus!
