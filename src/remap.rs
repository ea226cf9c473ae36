//! Carrying highlight spans of an original line over to its edited text by a
//! common-prefix / common-suffix diff, without tokenizing again.
use vstd::prelude::*;
use vstd::utf8::encode_utf8;
use crate::token::{TokenSpan, TokenStyle};

verus! {

/// Color of text that no span covers.
pub const DEFAULT_COLOR: &'static str = "#d4d4d4";

/// Letters, digits and underscore: bytes that continue an identifier.
pub open spec fn is_word(b: u8) -> bool {
    (48 <= b <= 57) || (65 <= b <= 90) || (97 <= b <= 122) || b == 95
}

/// Length of the common prefix of `o` and `c` from index `i` on.
pub open spec fn prefix_from(o: Seq<u8>, c: Seq<u8>, i: int) -> int
    decreases o.len() - i,
{
    if 0 <= i < o.len() && i < c.len() && o[i] == c[i] {
        prefix_from(o, c, i + 1)
    } else {
        i
    }
}

/// Length of the common suffix of `o` and `c` from `j` on, not reaching into
/// the first `p` bytes of either.
pub open spec fn suffix_from(o: Seq<u8>, c: Seq<u8>, p: int, j: int) -> int
    decreases o.len() - p - j,
{
    if 0 <= j < o.len() - p && j < c.len() - p && o[o.len() - 1 - j] == c[c.len() - 1 - j] {
        suffix_from(o, c, p, j + 1)
    } else {
        j
    }
}

/// Shortens a prefix until it does not end inside a word of `o`.
pub open spec fn shrink_prefix(o: Seq<u8>, p: int) -> int
    decreases p,
{
    if 0 < p <= o.len() && is_word(o[p - 1]) {
        shrink_prefix(o, p - 1)
    } else {
        p
    }
}

/// Shortens a suffix until it does not start inside a word of `o`.
pub open spec fn shrink_suffix(o: Seq<u8>, s: int) -> int
    decreases s,
{
    if 0 < s <= o.len() && is_word(o[o.len() - s]) {
        shrink_suffix(o, s - 1)
    } else {
        s
    }
}

/// The kept prefix: common, then cut back to a word boundary.
pub open spec fn kept_prefix(o: Seq<u8>, c: Seq<u8>) -> int {
    shrink_prefix(o, prefix_from(o, c, 0))
}

/// The kept suffix: common and not overlapping the common prefix, then cut
/// back to a word boundary.
pub open spec fn kept_suffix(o: Seq<u8>, c: Seq<u8>) -> int {
    shrink_suffix(o, suffix_from(o, c, prefix_from(o, c, 0), 0))
}

/// The original byte that current byte `q` shows: the same index inside the
/// kept prefix, shifted by the length change inside the kept suffix, none in
/// the changed middle.
pub open spec fn source_of(o: Seq<u8>, c: Seq<u8>, q: int) -> Option<int> {
    source_at(kept_prefix(o, c), kept_suffix(o, c), o.len() as int, c.len() as int, q)
}

/// `source_of` for a kept prefix `kp` and suffix `ks` of texts of lengths
/// `ol` and `cl`.
pub open spec fn source_at(kp: int, ks: int, ol: int, cl: int, q: int) -> Option<int> {
    if q < kp {
        Some(q)
    } else if q >= cl - ks {
        Some(q - cl + ol)
    } else {
        None
    }
}

/// A span covers byte `p`.
pub open spec fn covers(t: TokenSpan, p: int) -> bool {
    t.start <= p < t.end
}

/// Index of the last span covering `p`: later spans win.
pub open spec fn last_cover(tokens: Seq<TokenSpan>, p: int) -> Option<int>
    decreases tokens.len(),
{
    if tokens.len() == 0 {
        None
    } else if covers(tokens.last(), p) {
        Some(tokens.len() - 1)
    } else {
        last_cover(tokens.drop_last(), p)
    }
}

/// Color and style of a span.
pub open spec fn span_attr(t: TokenSpan) -> (Seq<char>, TokenStyle) {
    (t.color@, t.style)
}

/// Color and style given by span `i`, or the default for none.
pub open spec fn attr_of(tokens: Seq<TokenSpan>, i: Option<int>) -> (Seq<char>, TokenStyle) {
    match i {
        Some(k) => span_attr(tokens[k]),
        None => (DEFAULT_COLOR@, TokenStyle::Normal),
    }
}

/// Which span colors current byte `q`.
pub open spec fn cover_at(tokens: Seq<TokenSpan>, o: Seq<u8>, c: Seq<u8>, q: int) -> Option<int> {
    match source_of(o, c, q) {
        Some(p) => last_cover(tokens, p),
        None => None,
    }
}

/// Color and style of current byte `q` after remapping.
pub open spec fn attr_at(tokens: Seq<TokenSpan>, o: Seq<u8>, c: Seq<u8>, q: int) -> (Seq<char>, TokenStyle) {
    attr_of(tokens, cover_at(tokens, o, c, q))
}

/// `r` splits `[0, end)` into maximal runs on which `f` is constant, each
/// run carrying that value.
pub open spec fn runs_upto(r: Seq<TokenSpan>, f: spec_fn(int) -> (Seq<char>, TokenStyle), end: int) -> bool {
    &&& (r.len() == 0 <==> end == 0)
    &&& (r.len() > 0 ==> r[0].start == 0 && r.last().end == end)
    &&& forall|k: int| 0 <= k < r.len() ==> (#[trigger] r[k]).start < r[k].end
    &&& forall|k: int| 0 <= k < r.len() - 1 ==> #[trigger] joins(r, k)
    &&& forall|k: int, q: int|
        #![trigger r[k], f(q)]
        0 <= k < r.len() && r[k].start <= q < r[k].end ==> f(q) == span_attr(r[k])
}

/// Run `k` ends where run `k + 1` starts, and their attributes differ.
pub open spec fn joins(r: Seq<TokenSpan>, k: int) -> bool {
    r[k].end == r[k + 1].start && span_attr(r[k]) != span_attr(r[k + 1])
}

/// Color and style of each current byte after remapping.
pub open spec fn attr_fn(tokens: Seq<TokenSpan>, o: Seq<u8>, c: Seq<u8>) -> spec_fn(int) -> (Seq<char>, TokenStyle) {
    |q: int| attr_at(tokens, o, c, q)
}

/// What remapping returns: nothing without spans or text, else the maximal
/// runs over the whole current text.
pub open spec fn remapped(r: Seq<TokenSpan>, tokens: Seq<TokenSpan>, o: Seq<u8>, c: Seq<u8>) -> bool {
    if tokens.len() == 0 || c.len() == 0 {
        r.len() == 0
    } else {
        runs_upto(r, attr_fn(tokens, o, c), c.len() as int)
    }
}

/// The span index that an owner code names; the list length names none.
pub open spec fn code_to_index(n: int, a: int) -> Option<int> {
    if a == n {
        None
    } else {
        Some(a)
    }
}

/// `cover_at` over the first `i` spans only.
pub open spec fn cover_upto(tokens: Seq<TokenSpan>, i: int, o: Seq<u8>, c: Seq<u8>, q: int) -> Option<int> {
    match source_of(o, c, q) {
        Some(p) => last_cover(tokens.subrange(0, i), p),
        None => None,
    }
}

pub open spec fn index_to_code(n: int, x: Option<int>) -> int {
    match x {
        Some(k) => k,
        None => n,
    }
}

/// Whether `b` continues an identifier.
pub fn is_word_byte(b: u8) -> (r: bool)
    ensures
        r == is_word(b),
{
    (48 <= b && b <= 57) || (65 <= b && b <= 90) || (97 <= b && b <= 122) || b == 95
}

proof fn lemma_last_cover_range(tokens: Seq<TokenSpan>, p: int)
    ensures
        last_cover(tokens, p) matches Some(k) ==> 0 <= k < tokens.len(),
    decreases tokens.len(),
{
    if tokens.len() > 0 && !covers(tokens.last(), p) {
        lemma_last_cover_range(tokens.drop_last(), p);
    }
}

/// Lengths of the kept prefix and the kept suffix of `o` and `c`.
pub fn kept_bounds(o: &[u8], c: &[u8]) -> (r: (usize, usize))
    ensures
        r.0 == kept_prefix(o@, c@),
        r.1 == kept_suffix(o@, c@),
        r.0 + r.1 <= o@.len(),
        r.0 + r.1 <= c@.len(),
{
    let ol = o.len();
    let cl = c.len();
    let mut p: usize = 0;
    while p < ol && p < cl && o[p] == c[p]
        invariant
            p <= ol == o@.len(),
            p <= cl == c@.len(),
            prefix_from(o@, c@, 0) == prefix_from(o@, c@, p as int),
        decreases ol - p,
    {
        p = p + 1;
    }
    let mut s: usize = 0;
    while s < ol - p && s < cl - p && o[ol - 1 - s] == c[cl - 1 - s]
        invariant
            p == prefix_from(o@, c@, 0),
            p <= ol == o@.len(),
            p <= cl == c@.len(),
            s <= ol - p,
            s <= cl - p,
            suffix_from(o@, c@, p as int, 0) == suffix_from(o@, c@, p as int, s as int),
        decreases ol - p - s,
    {
        s = s + 1;
    }
    let ghost p_common = p;
    let ghost s_common = s;
    while p > 0 && is_word_byte(o[p - 1])
        invariant
            p <= p_common <= ol == o@.len(),
            shrink_prefix(o@, p_common as int) == shrink_prefix(o@, p as int),
        decreases p,
    {
        p = p - 1;
    }
    while s > 0 && is_word_byte(o[ol - s])
        invariant
            s <= s_common <= ol - p_common,
            ol == o@.len(),
            shrink_suffix(o@, s_common as int) == shrink_suffix(o@, s as int),
        decreases s,
    {
        s = s - 1;
    }
    (p, s)
}

/// Whether owner codes `a` and `b` give the same color and style.
fn attr_eq(tokens: &Vec<TokenSpan>, default_color: &String, a: usize, b: usize) -> (r: bool)
    requires
        a <= tokens@.len(),
        b <= tokens@.len(),
        default_color@ == DEFAULT_COLOR@,
    ensures
        r == (attr_of(tokens@, code_to_index(tokens@.len() as int, a as int)) == attr_of(
            tokens@,
            code_to_index(tokens@.len() as int, b as int),
        )),
{
    let n = tokens.len();
    let (ca, sa) = if a == n {
        (default_color, TokenStyle::Normal)
    } else {
        (&tokens[a].color, tokens[a].style)
    };
    let (cb, sb) = if b == n {
        (default_color, TokenStyle::Normal)
    } else {
        (&tokens[b].color, tokens[b].style)
    };
    *ca == *cb && sa == sb
}

/// The run `[start, end)` with the attributes of owner code `a`.
fn make_run(tokens: &Vec<TokenSpan>, default_color: &String, a: usize, start: usize, end: usize) -> (r: TokenSpan)
    requires
        a <= tokens@.len(),
        default_color@ == DEFAULT_COLOR@,
    ensures
        r.start == start,
        r.end == end,
        span_attr(r) == attr_of(tokens@, code_to_index(tokens@.len() as int, a as int)),
{
    if a == tokens.len() {
        TokenSpan { start, end, color: default_color.clone(), style: TokenStyle::Normal }
    } else {
        TokenSpan { start, end, color: tokens[a].color.clone(), style: tokens[a].style }
    }
}

/// Sets the owner of every current byte whose source lies in `[s, e)` to `i`.
fn paint(owner: &mut Vec<usize>, i: usize, s: usize, e: usize, kp: usize, ks: usize, ol: usize)
    requires
        kp + ks <= ol,
        kp + ks <= old(owner)@.len(),
        e <= ol,
    ensures
        final(owner)@.len() == old(owner)@.len(),
        forall|x: int|
            0 <= x < old(owner)@.len() ==> #[trigger] final(owner)@[x] == if (source_at(
                kp as int,
                ks as int,
                ol as int,
                old(owner)@.len() as int,
                x,
            ) matches Some(y) && s <= y < e) {
                i
            } else {
                old(owner)@[x]
            },
{
    let cl = owner.len();
    let ghost o0 = owner@;
    let mut p: usize = s;
    while p < e
        invariant
            cl == o0.len(),
            owner@.len() == cl,
            kp + ks <= ol,
            kp + ks <= cl,
            e <= ol,
            s <= p,
            s <= e ==> p <= e,
            s > e ==> p == s,
            forall|x: int|
                0 <= x < cl ==> #[trigger] owner@[x] == if (source_at(
                    kp as int,
                    ks as int,
                    ol as int,
                    cl as int,
                    x,
                ) matches Some(y) && s <= y < p) {
                    i
                } else {
                    o0[x]
                },
        decreases e - p,
    {
        if p < kp {
            owner.set(p, i);
        } else if p >= ol - ks {
            owner.set(p - (ol - ks) + (cl - ks), i);
        }
        p = p + 1;
    }
    assert forall|x: int| 0 <= x < cl implies #[trigger] owner@[x] == if (source_at(
        kp as int,
        ks as int,
        ol as int,
        cl as int,
        x,
    ) matches Some(y) && s <= y < e) {
        i
    } else {
        o0[x]
    } by {
        assert(p >= e);
        assert(s <= e ==> p == e);
        assert(owner@[x] == if (source_at(kp as int, ks as int, ol as int, cl as int, x) matches Some(
            y,
        ) && s <= y < p) {
            i
        } else {
            o0[x]
        });
    }
}

/// For each current byte, the code of the span that colors it.
fn owners(tokens: &Vec<TokenSpan>, o: &[u8], c: &[u8]) -> (owner: Vec<usize>)
    ensures
        owner@.len() == c@.len(),
        forall|x: int|
            0 <= x < c@.len() ==> code_to_index(tokens@.len() as int, #[trigger] owner@[x] as int)
                == cover_at(tokens@, o@, c@, x) && owner@[x] <= tokens@.len(),
{
    let n = tokens.len();
    let cl = c.len();
    let ol = o.len();
    let (kp, ks) = kept_bounds(o, c);
    let mut owner: Vec<usize> = Vec::new();
    let mut q: usize = 0;
    while q < cl
        invariant
            q <= cl == c@.len(),
            owner@.len() == q,
            forall|x: int| 0 <= x < q ==> owner@[x] == n,
        decreases cl - q,
    {
        owner.push(n);
        q = q + 1;
    }
    proof {
        assert forall|x: int| 0 <= x < cl implies #[trigger] owner@[x] == index_to_code(
            n as int,
            cover_upto(tokens@, 0, o@, c@, x),
        ) by {
            assert(tokens@.subrange(0, 0).len() == 0);
        }
    }
    let mut i: usize = 0;
    while i < n
        invariant
            i <= n == tokens@.len(),
            cl == c@.len(),
            ol == o@.len(),
            kp == kept_prefix(o@, c@),
            ks == kept_suffix(o@, c@),
            kp + ks <= ol,
            kp + ks <= cl,
            owner@.len() == cl,
            forall|x: int|
                0 <= x < cl ==> #[trigger] owner@[x] == index_to_code(
                    n as int,
                    cover_upto(tokens@, i as int, o@, c@, x),
                ),
        decreases n - i,
    {
        let s = tokens[i].start;
        let e = if tokens[i].end < ol {
            tokens[i].end
        } else {
            ol
        };
        let ghost before = owner@;
        paint(&mut owner, i, s, e, kp, ks, ol);
        proof {
            lemma_paint_step(tokens@, o@, c@, i as int, before, owner@);
        }
        i = i + 1;
    }
    proof {
        assert(tokens@.subrange(0, n as int) =~= tokens@);
        assert forall|x: int| 0 <= x < cl implies code_to_index(n as int, #[trigger] owner@[x] as int)
            == cover_at(tokens@, o@, c@, x) && owner@[x] <= n by {
            if let Some(y) = source_of(o@, c@, x) {
                lemma_last_cover_range(tokens@, y);
            }
        }
    }
    owner
}

/// Painting span `i` over its covered sources turns owners for the first `i`
/// spans into owners for the first `i + 1`.
proof fn lemma_paint_step(
    tokens: Seq<TokenSpan>,
    o: Seq<u8>,
    c: Seq<u8>,
    i: int,
    before: Seq<usize>,
    after: Seq<usize>,
)
    requires
        0 <= i < tokens.len(),
        kept_prefix(o, c) + kept_suffix(o, c) <= o.len(),
        kept_prefix(o, c) + kept_suffix(o, c) <= c.len(),
        kept_prefix(o, c) >= 0,
        kept_suffix(o, c) >= 0,
        before.len() == c.len(),
        after.len() == c.len(),
        forall|x: int|
            0 <= x < c.len() ==> #[trigger] before[x] == index_to_code(
                tokens.len() as int,
                cover_upto(tokens, i, o, c, x),
            ),
        forall|x: int|
            0 <= x < c.len() ==> #[trigger] after[x] == if (source_of(o, c, x) matches Some(y)
                && tokens[i].start <= y < (if tokens[i].end < o.len() {
                tokens[i].end as int
            } else {
                o.len() as int
            })) {
                i
            } else {
                before[x] as int
            },
    ensures
        forall|x: int|
            0 <= x < c.len() ==> #[trigger] after[x] == index_to_code(
                tokens.len() as int,
                cover_upto(tokens, i + 1, o, c, x),
            ),
{
    let t1 = tokens.subrange(0, i + 1);
    assert(t1.drop_last() =~= tokens.subrange(0, i));
    assert forall|x: int| 0 <= x < c.len() implies #[trigger] after[x] == index_to_code(
        tokens.len() as int,
        cover_upto(tokens, i + 1, o, c, x),
    ) by {
        assert(before[x] == index_to_code(tokens.len() as int, cover_upto(tokens, i, o, c, x)));
        if let Some(y) = source_of(o, c, x) {
            assert(y < o.len());
            lemma_last_cover_range(tokens.subrange(0, i), y);
        }
    }
}

/// Remaps `tokens`, computed for the original text `o`, onto the current
/// text `c`: bytes in the kept prefix and suffix keep the color of the span
/// that covered them (the last such span), other bytes get the default, and
/// the result is the maximal runs of equal color and style.
pub fn remap_bytes(tokens: &Vec<TokenSpan>, o: &[u8], c: &[u8]) -> (r: Vec<TokenSpan>)
    ensures
        remapped(r@, tokens@, o@, c@),
{
    let n = tokens.len();
    let cl = c.len();
    if n == 0 || cl == 0 {
        return Vec::new();
    }
    let owner = owners(tokens, o, c);
    let ghost f = attr_fn(tokens@, o@, c@);
    let default_color = DEFAULT_COLOR.to_owned();
    let mut result: Vec<TokenSpan> = Vec::new();
    let mut start: usize = 0;
    let mut j: usize = 1;
    while j < cl
        invariant
            n == tokens@.len(),
            cl == c@.len(),
            owner@.len() == cl,
            default_color@ == DEFAULT_COLOR@,
            f == attr_fn(tokens@, o@, c@),
            forall|x: int|
                0 <= x < cl ==> code_to_index(n as int, #[trigger] owner@[x] as int) == cover_at(
                    tokens@,
                    o@,
                    c@,
                    x,
                ) && owner@[x] <= n,
            start < j <= cl,
            runs_upto(result@, f, start as int),
            forall|x: int| start <= x < j ==> #[trigger] f(x) == f(start as int),
            result@.len() > 0 ==> span_attr(result@.last()) != f(start as int),
        decreases cl - j,
    {
        assert(owner@[j as int] <= n && owner@[start as int] <= n);
        if !attr_eq(tokens, &default_color, owner[j], owner[start]) {
            let run = make_run(tokens, &default_color, owner[start], start, j);
            let ghost before = result@;
            result.push(run);
            proof {
                lemma_push_run(before, run, f, start as int, j as int);
            }
            start = j;
        }
        j = j + 1;
    }
    assert(owner@[start as int] <= n);
    let run = make_run(tokens, &default_color, owner[start], start, cl);
    let ghost before = result@;
    result.push(run);
    proof {
        lemma_push_run(before, run, f, start as int, cl as int);
    }
    result
}

/// Appending a run on which `f` is constant, with a value other than the
/// last run's, extends the runs.
proof fn lemma_push_run(
    r: Seq<TokenSpan>,
    run: TokenSpan,
    f: spec_fn(int) -> (Seq<char>, TokenStyle),
    start: int,
    end: int,
)
    requires
        0 <= start < end,
        runs_upto(r, f, start),
        run.start == start,
        run.end == end,
        span_attr(run) == f(start),
        forall|x: int| start <= x < end ==> #[trigger] f(x) == f(start),
        r.len() > 0 ==> span_attr(r.last()) != f(start),
    ensures
        runs_upto(r.push(run), f, end),
{
    let r2 = r.push(run);
    assert forall|k: int| 0 <= k < r2.len() - 1 implies #[trigger] joins(r2, k) by {
        if k == r.len() - 1 {
        } else {
            assert(joins(r, k));
            assert(r2[k] == r[k] && r2[k + 1] == r[k + 1]);
        }
    }
    assert forall|k: int, q: int|
        #![trigger r2[k], f(q)]
        0 <= k < r2.len() && r2[k].start <= q < r2[k].end implies f(q) == span_attr(r2[k]) by {
        if k < r.len() {
            assert(r2[k] == r[k]);
        }
    }
}

/// Remaps `tokens`, computed for `original_text`, onto `current_text` (see
/// `remap_bytes`).
pub fn remap(tokens: &Vec<TokenSpan>, original_text: &str, current_text: &str) -> (r: Vec<TokenSpan>)
    ensures
        remapped(r@, tokens@, encode_utf8(original_text@), encode_utf8(current_text@)),
{
    remap_bytes(tokens, original_text.as_bytes(), current_text.as_bytes())
}

} // verus!
