//! Byte-level helpers for UTF-8 lines: character boundaries and splitting
//! on line feeds.
use vstd::prelude::*;
use vstd::utf8::*;

verus! {

/// The line-feed byte that separates lines.
pub const NEWLINE: u8 = 10;

/// Start of the character that ends at byte `i`: the nearest index below `i`
/// that holds no continuation byte (or 0).
pub open spec fn prev_char_start(b: Seq<u8>, i: int) -> int
    decreases i,
{
    if i <= 0 {
        0
    } else if !is_continuation_byte(b[i - 1]) {
        i - 1
    } else {
        prev_char_start(b, i - 1)
    }
}

/// The first index at or after `j` that starts a character, or the length.
pub open spec fn boundary_from(b: Seq<u8>, j: int) -> int
    decreases b.len() - j,
{
    if j >= b.len() {
        b.len() as int
    } else if !is_continuation_byte(b[j]) {
        j
    } else {
        boundary_from(b, j + 1)
    }
}

/// End of the character that starts at byte `i`.
pub open spec fn next_char_end(b: Seq<u8>, i: int) -> int {
    boundary_from(b, i + 1)
}

/// The greatest character boundary at or below `i` (the length when `i` is past it).
pub open spec fn char_floor(b: Seq<u8>, i: int) -> int
    decreases i,
{
    if i <= 0 {
        0
    } else if i >= b.len() {
        b.len() as int
    } else if !is_continuation_byte(b[i]) {
        i
    } else {
        char_floor(b, i - 1)
    }
}

/// The pieces of `s` between line feeds; always at least one piece.
pub open spec fn split_lines(s: Seq<u8>) -> Seq<Seq<u8>>
    decreases s.len(),
{
    if s.len() == 0 {
        seq![Seq::<u8>::empty()]
    } else {
        let init = split_lines(s.drop_last());
        if s.last() == NEWLINE {
            init.push(Seq::<u8>::empty())
        } else {
            init.update(init.len() - 1, init.last().push(s.last()))
        }
    }
}

/// The views of a sequence of byte vectors.
pub open spec fn views(v: Seq<Vec<u8>>) -> Seq<Seq<u8>> {
    v.map_values(|l: Vec<u8>| l@)
}

pub proof fn lemma_split_lines_nonempty(s: Seq<u8>)
    ensures
        split_lines(s).len() >= 1,
    decreases s.len(),
{
    if s.len() > 0 {
        lemma_split_lines_nonempty(s.drop_last());
    }
}

/// `i` is a character boundary of `b`: an end of `b`, or an index holding no
/// continuation byte.
pub open spec fn at_boundary(b: Seq<u8>, i: int) -> bool {
    0 <= i <= b.len() && (i == b.len() || !is_continuation_byte(b[i]))
}

/// In valid UTF-8 the two notions of boundary agree, and the first byte is no
/// continuation byte.
pub proof fn lemma_boundary(b: Seq<u8>, i: int)
    requires
        valid_utf8(b),
        0 <= i <= b.len(),
    ensures
        is_char_boundary(b, i) <==> at_boundary(b, i),
        at_boundary(b, 0),
{
    is_char_boundary_start_end_of_seq(b);
    if b.len() > 0 {
        is_char_boundary_iff_not_is_continuation_byte(b, 0);
    }
    if i < b.len() {
        is_char_boundary_iff_not_is_continuation_byte(b, i);
    }
}

/// Cutting valid UTF-8 at a boundary leaves valid UTF-8 on both sides.
pub proof fn lemma_split_valid(b: Seq<u8>, i: int)
    requires
        valid_utf8(b),
        at_boundary(b, i),
    ensures
        valid_utf8(b.subrange(0, i)),
        valid_utf8(b.subrange(i, b.len() as int)),
{
    lemma_boundary(b, i);
    valid_utf8_split(b, i);
}

/// Joining valid UTF-8 gives valid UTF-8, with a boundary at the seam.
pub proof fn lemma_concat_valid(a: Seq<u8>, b: Seq<u8>)
    requires
        valid_utf8(a),
        valid_utf8(b),
    ensures
        valid_utf8(a + b),
        at_boundary(a + b, a.len() as int),
{
    valid_utf8_concat(a, b);
    lemma_boundary(b, 0);
}

pub proof fn lemma_prev_char_start(b: Seq<u8>, i: int)
    requires
        valid_utf8(b),
        0 < i <= b.len(),
    ensures
        0 <= prev_char_start(b, i) < i,
        at_boundary(b, prev_char_start(b, i)),
    decreases i,
{
    lemma_boundary(b, 0);
    if is_continuation_byte(b[i - 1]) && i - 1 > 0 {
        lemma_prev_char_start(b, i - 1);
    }
}

pub proof fn lemma_boundary_from(b: Seq<u8>, j: int)
    requires
        0 <= j <= b.len(),
    ensures
        j <= boundary_from(b, j) <= b.len(),
        at_boundary(b, boundary_from(b, j)),
    decreases b.len() - j,
{
    if j < b.len() && is_continuation_byte(b[j]) {
        lemma_boundary_from(b, j + 1);
    }
}

pub proof fn lemma_char_floor(b: Seq<u8>, i: int)
    requires
        valid_utf8(b),
        0 <= i,
    ensures
        0 <= char_floor(b, i) <= b.len(),
        char_floor(b, i) <= i,
        at_boundary(b, char_floor(b, i)),
        at_boundary(b, i) ==> char_floor(b, i) == i,
    decreases i,
{
    lemma_boundary(b, 0);
    if 0 < i < b.len() && is_continuation_byte(b[i]) {
        lemma_char_floor(b, i - 1);
    }
}

/// Past the end, the floor is the length.
pub proof fn lemma_char_floor_past_end(b: Seq<u8>, i: int)
    requires
        i >= b.len(),
    ensures
        char_floor(b, i) == b.len(),
{
}

/// A single line feed is valid UTF-8.
pub proof fn lemma_newline_valid()
    ensures
        valid_utf8(seq![NEWLINE]),
{
    reveal_with_fuel(valid_utf8, 2);
    assert(pop_first_scalar(seq![NEWLINE]) =~= Seq::<u8>::empty());
}

/// Whether two byte strings are equal.
pub fn bytes_equal(a: &[u8], b: &[u8]) -> (r: bool)
    ensures
        r == (a@ == b@),
{
    if a.len() != b.len() {
        return false;
    }
    let mut i: usize = 0;
    while i < a.len()
        invariant
            a@.len() == b@.len(),
            i <= a@.len(),
            a@.subrange(0, i as int) == b@.subrange(0, i as int),
        decreases a@.len() - i,
    {
        if a[i] != b[i] {
            assert(a@[i as int] != b@[i as int]);
            return false;
        }
        i = i + 1;
        assert(a@.subrange(0, i as int) =~= b@.subrange(0, i as int)) by {
            assert(a@.subrange(0, i - 1) == b@.subrange(0, i - 1));
            assert forall|k: int| 0 <= k < i implies a@.subrange(0, i as int)[k] == b@.subrange(0, i as int)[k] by {
                if k < i - 1 {
                    assert(a@.subrange(0, i - 1)[k] == b@.subrange(0, i - 1)[k]);
                }
            }
        }
    }
    assert(a@ =~= a@.subrange(0, i as int));
    assert(b@ =~= b@.subrange(0, i as int));
    true
}

/// Whether a byte continues a multi-byte character.
pub fn is_continuation(x: u8) -> (r: bool)
    ensures
        r == is_continuation_byte(x),
{
    0x80 <= x && x <= 0xbf
}

/// Start of the character before byte `i`.
pub fn prev_char_start_of(b: &Vec<u8>, i: usize) -> (r: usize)
    requires
        i <= b@.len(),
    ensures
        r == prev_char_start(b@, i as int),
{
    if i == 0 {
        return 0;
    }
    let mut j: usize = i - 1;
    while j > 0 && is_continuation(b[j])
        invariant
            j < i <= b@.len(),
            prev_char_start(b@, i as int) == prev_char_start(b@, j + 1),
        decreases j,
    {
        j = j - 1;
    }
    proof {
        reveal_with_fuel(prev_char_start, 2);
    }
    j
}

/// End of the character that starts at byte `i`.
pub fn next_char_end_of(b: &Vec<u8>, i: usize) -> (r: usize)
    requires
        i < b@.len(),
    ensures
        r == next_char_end(b@, i as int),
{
    let n = b.len();
    let mut j: usize = i + 1;
    while j < n && is_continuation(b[j])
        invariant
            i < j <= b@.len(),
            n == b@.len(),
            next_char_end(b@, i as int) == boundary_from(b@, j as int),
        decreases b@.len() - j,
    {
        j = j + 1;
    }
    j
}

/// The greatest character boundary at or below `i`.
pub fn char_floor_of(b: &Vec<u8>, i: usize) -> (r: usize)
    ensures
        r == char_floor(b@, i as int),
{
    if i >= b.len() {
        return b.len();
    }
    let mut j: usize = i;
    while j > 0 && is_continuation(b[j])
        invariant
            j <= i < b@.len(),
            char_floor(b@, i as int) == char_floor(b@, j as int),
        decreases j,
    {
        j = j - 1;
    }
    j
}

/// Dropping a leading ASCII byte from valid UTF-8 leaves valid UTF-8.
pub proof fn lemma_drop_ascii(t: Seq<u8>)
    requires
        valid_utf8(t),
        t.len() > 0,
        t[0] < 0x80,
    ensures
        valid_utf8(t.subrange(1, t.len() as int)),
{
    assert(pop_first_scalar(t) =~= t.subrange(1, t.len() as int));
}

/// Splits `s` at each line feed; the pieces exclude the line feeds, and are
/// valid UTF-8 when `s` is.
pub fn split_on_newlines(s: &[u8]) -> (r: Vec<Vec<u8>>)
    ensures
        views(r@) == split_lines(s@),
        valid_utf8(s@) ==> forall|j: int| 0 <= j < r@.len() ==> valid_utf8(#[trigger] r@[j]@),
{
    let mut segs: Vec<Vec<u8>> = Vec::new();
    let mut cur: Vec<u8> = Vec::new();
    let mut i: usize = 0;
    let ghost mut start: int = 0;
    assert(s@.subrange(0, s@.len() as int) =~= s@);
    while i < s.len()
        invariant
            0 <= start <= i <= s@.len(),
            views(segs@).push(cur@) == split_lines(s@.subrange(0, i as int)),
            cur@ == s@.subrange(start, i as int),
            valid_utf8(s@) ==> valid_utf8(s@.subrange(start, s@.len() as int)),
            valid_utf8(s@) ==> forall|j: int|
                0 <= j < segs@.len() ==> valid_utf8(#[trigger] segs@[j]@),
        decreases s@.len() - i,
    {
        let c = s[i];
        let ghost pre = s@.subrange(0, i as int);
        let ghost next = s@.subrange(0, i as int + 1);
        assert(next.drop_last() =~= pre);
        let ghost old_views = views(segs@);
        let ghost old_cur = cur@;
        if c == NEWLINE {
            proof {
                if valid_utf8(s@) {
                    let t = s@.subrange(start, s@.len() as int);
                    let idx = i - start;
                    lemma_split_valid(t, idx);
                    assert(t.subrange(0, idx) =~= old_cur);
                    let u = t.subrange(idx, t.len() as int);
                    lemma_drop_ascii(u);
                    assert(u.subrange(1, u.len() as int) =~= s@.subrange(i + 1, s@.len() as int));
                }
            }
            segs.push(cur);
            cur = Vec::new();
            proof {
                start = i + 1;
            }
            assert(views(segs@) =~= old_views.push(old_cur));
        } else {
            cur.push(c);
            assert(views(segs@).push(cur@) =~= old_views.push(old_cur).update(
                old_views.len() as int,
                old_cur.push(c),
            ));
        }
        i = i + 1;
        assert(cur@ =~= s@.subrange(start, i as int));
    }
    assert(s@.subrange(0, s@.len() as int) =~= s@);
    let ghost last = cur@;
    let ghost before = views(segs@);
    segs.push(cur);
    assert(views(segs@) =~= before.push(last));
    segs
}

/// Relies on `String::from_utf8`: it accepts exactly the valid UTF-8 byte
/// vectors, and the string it returns holds the characters they encode.
#[verifier::external_body]
pub(crate) fn utf8_to_string(bytes: Vec<u8>) -> (r: Option<String>)
    ensures
        r is Some <==> valid_utf8(bytes@),
        r matches Some(s) ==> s@ == decode_utf8(bytes@),
{
    String::from_utf8(bytes).ok()
}

/// The string that valid UTF-8 bytes encode.
pub fn string_of_utf8(bytes: Vec<u8>) -> (r: String)
    requires
        valid_utf8(bytes@),
    ensures
        r@ == decode_utf8(bytes@),
{
    match utf8_to_string(bytes) {
        Some(s) => s,
        None => String::new(),
    }
}

} // verus!
