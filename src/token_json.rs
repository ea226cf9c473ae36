//! The wire format of highlight spans: a JSON array of objects
//! `{"s":start,"e":end,"c":"#rrggbb","st":"normal"|"bold"|"italic"}`.
//!
//! Reading is lenient: each brace-delimited object is searched for its keys;
//! an object without a readable `s` or `e` is skipped, and a missing color or
//! style falls back to the default.
use vstd::prelude::*;
use vstd::string::{StringExecFns, StringSliceAdditionalSpecFns};
use vstd::utf8::*;
use crate::remap::{remap_bytes, remapped, DEFAULT_COLOR};
use crate::text::{bytes_equal, utf8_to_string};
use crate::token::{SpanView, TokenSpan, TokenStyle};

verus! {

pub const OPEN_BRACE: u8 = 123;

pub const CLOSE_BRACE: u8 = 125;

pub const QUOTE: u8 = 34;

/// Key that precedes a span's start.
pub const START_KEY: &'static str = "\"s\":";

/// Key that precedes a span's end.
pub const END_KEY: &'static str = "\"e\":";

/// Key and opening quote that precede a span's color.
pub const COLOR_KEY: &'static str = "\"c\":\"";

/// Key and opening quote that precede a span's style.
pub const STYLE_KEY: &'static str = "\"st\":\"";

/// First index at or after `i` where `key` occurs in `s`.
pub open spec fn find_from(s: Seq<u8>, key: Seq<u8>, i: int) -> Option<int>
    decreases s.len() - i,
{
    if i < 0 || i + key.len() > s.len() {
        None
    } else if s.subrange(i, i + key.len()) == key {
        Some(i)
    } else if i >= s.len() {
        None
    } else {
        find_from(s, key, i + 1)
    }
}

/// First index at or after `i` holding byte `x`.
pub open spec fn find_byte(s: Seq<u8>, x: u8, i: int) -> Option<int>
    decreases s.len() - i,
{
    if i < 0 || i >= s.len() {
        None
    } else if s[i] == x {
        Some(i)
    } else {
        find_byte(s, x, i + 1)
    }
}

pub open spec fn is_digit(b: u8) -> bool {
    48 <= b <= 57
}

/// End of the run of ASCII digits that starts at `i`.
pub open spec fn digits_end(s: Seq<u8>, i: int) -> int
    decreases s.len() - i,
{
    if 0 <= i < s.len() && is_digit(s[i]) {
        digits_end(s, i + 1)
    } else {
        i
    }
}

/// The number that a string of ASCII digits writes in decimal.
pub open spec fn digits_value(ds: Seq<u8>) -> nat
    decreases ds.len(),
{
    if ds.len() == 0 {
        0
    } else {
        digits_value(ds.drop_last()) * 10 + (ds.last() - 48) as nat
    }
}

/// The unsigned integer written right after the first `key` in `s`; none
/// without `key`, without digits there, or when it exceeds `usize`.
pub open spec fn json_int(s: Seq<u8>, key: Seq<u8>) -> Option<int> {
    match find_from(s, key, 0) {
        None => None,
        Some(i) => {
            let st = i + key.len();
            let en = digits_end(s, st);
            if en == st || digits_value(s.subrange(st, en)) > usize::MAX {
                None
            } else {
                Some(digits_value(s.subrange(st, en)) as int)
            }
        },
    }
}

/// The bytes after the first `key` in `s` up to the next quote; empty
/// without `key` or without a closing quote.
pub open spec fn json_str(s: Seq<u8>, key: Seq<u8>) -> Seq<u8> {
    match find_from(s, key, 0) {
        None => Seq::empty(),
        Some(i) => match find_byte(s, QUOTE, i + key.len()) {
            Some(q) => s.subrange(i + key.len(), q),
            None => Seq::empty(),
        },
    }
}

/// Color text: the bytes when they are non-empty UTF-8, else the default.
pub open spec fn color_text(b: Seq<u8>) -> Seq<char> {
    if b.len() == 0 || !valid_utf8(b) {
        DEFAULT_COLOR@
    } else {
        decode_utf8(b)
    }
}

/// Style named by the bytes; anything but `bold` or `italic` is normal.
pub open spec fn style_named(b: Seq<u8>) -> TokenStyle {
    if b == encode_utf8("bold"@) {
        TokenStyle::Bold
    } else if b == encode_utf8("italic"@) {
        TokenStyle::Italic
    } else {
        TokenStyle::Normal
    }
}

/// The span that one object's text describes, if it has a start and an end.
pub open spec fn span_of_object(obj: Seq<u8>) -> Option<SpanView> {
    match (json_int(obj, encode_utf8(START_KEY@)), json_int(obj, encode_utf8(END_KEY@))) {
        (Some(s), Some(e)) => Some(
            SpanView {
                start: s,
                end: e,
                color: color_text(json_str(obj, encode_utf8(COLOR_KEY@))),
                style: style_named(json_str(obj, encode_utf8(STYLE_KEY@))),
            },
        ),
        _ => None,
    }
}

/// The objects of `b` from index `i` on, as `(start, end)` byte ranges: an
/// object runs from an opening brace at depth 0 to the brace that closes
/// it, or to the end of the text.
pub open spec fn objects(b: Seq<u8>, i: int, depth: int, start: int) -> Seq<(int, int)>
    decreases b.len() - i,
{
    if i < 0 || i >= b.len() {
        if depth > 0 {
            seq![(start, b.len() as int)]
        } else {
            seq![]
        }
    } else if depth == 0 {
        if b[i] == OPEN_BRACE {
            objects(b, i + 1, 1, i)
        } else {
            objects(b, i + 1, 0, start)
        }
    } else {
        let d = depth + (if b[i] == OPEN_BRACE {
            1int
        } else {
            0
        }) - (if b[i] == CLOSE_BRACE {
            1int
        } else {
            0
        });
        if d == 0 {
            seq![(start, i + 1)] + objects(b, i + 1, 0, start)
        } else {
            objects(b, i + 1, d, start)
        }
    }
}

/// The spans that the objects `os` of `b` describe, in order.
pub open spec fn spans_of_objects(b: Seq<u8>, os: Seq<(int, int)>) -> Seq<SpanView>
    decreases os.len(),
{
    if os.len() == 0 {
        seq![]
    } else {
        let rest = spans_of_objects(b, os.drop_last());
        match span_of_object(b.subrange(os.last().0, os.last().1)) {
            Some(v) => rest.push(v),
            None => rest,
        }
    }
}

/// The spans that a token JSON text describes.
pub open spec fn parsed_spans(b: Seq<u8>) -> Seq<SpanView> {
    spans_of_objects(b, objects(b, 0, 0, 0))
}

/// Views of a list of spans.
pub open spec fn span_views(v: Seq<TokenSpan>) -> Seq<SpanView> {
    v.map_values(|t: TokenSpan| t.view_span())
}

/// The character of a decimal digit.
pub open spec fn digit_char(d: nat) -> char {
    seq!['0', '1', '2', '3', '4', '5', '6', '7', '8', '9'][d as int]
}

/// Decimal digits of `n`, without sign or padding.
pub open spec fn decimal(n: nat) -> Seq<char>
    decreases n,
{
    if n < 10 {
        seq![digit_char(n)]
    } else {
        decimal(n / 10) + seq![digit_char(n % 10)]
    }
}

pub open spec fn style_text(st: TokenStyle) -> Seq<char> {
    match st {
        TokenStyle::Normal => "normal"@,
        TokenStyle::Bold => "bold"@,
        TokenStyle::Italic => "italic"@,
    }
}

/// One span as a JSON object.
pub open spec fn span_json(t: TokenSpan) -> Seq<char> {
    "{\"s\":"@ + decimal(t.start as nat) + ",\"e\":"@ + decimal(t.end as nat) + ",\"c\":\""@ + t.color@
        + "\",\"st\":\""@ + style_text(t.style) + "\"}"@
}

/// The objects of `ts` separated by commas.
pub open spec fn join_json(ts: Seq<TokenSpan>) -> Seq<char>
    decreases ts.len(),
{
    if ts.len() == 0 {
        Seq::empty()
    } else if ts.len() == 1 {
        span_json(ts[0])
    } else {
        join_json(ts.drop_last()) + ","@ + span_json(ts.last())
    }
}

/// A list of spans as a JSON array.
pub open spec fn spans_json(ts: Seq<TokenSpan>) -> Seq<char> {
    "["@ + join_json(ts) + "]"@
}

/// Relies on the `Display` of `usize` (through `to_string`): an unsigned
/// integer prints as its decimal digits, with no sign or padding.
#[verifier::external_body]
fn decimal_string(n: usize) -> (r: String)
    ensures
        r@ == decimal(n as nat),
{
    n.to_string()
}

/// Whether `key` occurs in `s` at index `i`.
fn matches_at(s: &[u8], key: &[u8], i: usize) -> (r: bool)
    requires
        i + key@.len() <= s@.len(),
    ensures
        r == (s@.subrange(i as int, i + key@.len()) == key@),
{
    let n = s.len();
    let mut j: usize = 0;
    while j < key.len()
        invariant
            n == s@.len(),
            i + key@.len() <= s@.len(),
            j <= key@.len(),
            forall|t: int| 0 <= t < j ==> s@[i + t] == key@[t],
        decreases key@.len() - j,
    {
        if s[i + j] != key[j] {
            assert(s@.subrange(i as int, i + key@.len())[j as int] != key@[j as int]);
            return false;
        }
        j = j + 1;
    }
    assert(s@.subrange(i as int, i + key@.len()) =~= key@);
    true
}

/// First index where `key` occurs in `s`.
fn find_bytes(s: &[u8], key: &[u8]) -> (r: Option<usize>)
    ensures
        match r {
            Some(i) => find_from(s@, key@, 0) == Some(i as int),
            None => find_from(s@, key@, 0) is None,
        },
{
    let n = s.len();
    let k = key.len();
    if k > n {
        return None;
    }
    let mut i: usize = 0;
    while i <= n - k
        invariant
            n == s@.len(),
            k == key@.len(),
            k <= n,
            i <= n - k + 1,
            find_from(s@, key@, 0) == find_from(s@, key@, i as int),
        decreases n - k + 1 - i,
    {
        if matches_at(s, key, i) {
            return Some(i);
        }
        if i >= n {
            return None;
        }
        i = i + 1;
    }
    None
}

/// First index at or after `i` holding byte `x`.
fn find_byte_from(s: &[u8], x: u8, i: usize) -> (r: Option<usize>)
    ensures
        match r {
            Some(q) => find_byte(s@, x, i as int) == Some(q as int),
            None => find_byte(s@, x, i as int) is None,
        },
{
    let mut j: usize = i;
    while j < s.len()
        invariant
            i <= j,
            find_byte(s@, x, i as int) == find_byte(s@, x, j as int),
        decreases s@.len() - j,
    {
        if s[j] == x {
            return Some(j);
        }
        j = j + 1;
    }
    None
}

proof fn lemma_digits_value_prefix(ds: Seq<u8>, j: int)
    requires
        0 <= j <= ds.len(),
    ensures
        digits_value(ds.subrange(0, j)) <= digits_value(ds),
    decreases ds.len() - j,
{
    if j < ds.len() {
        lemma_digits_value_prefix(ds, j + 1);
        assert(ds.subrange(0, j + 1).drop_last() =~= ds.subrange(0, j));
    } else {
        assert(ds.subrange(0, j) =~= ds);
    }
}

/// The unsigned integer right after the first `key` in `s` (bytes).
fn extract_int_bytes(s: &[u8], key: &[u8]) -> (r: Option<usize>)
    ensures
        match r {
            Some(v) => json_int(s@, key@) == Some(v as int),
            None => json_int(s@, key@) is None,
        },
{
    let idx = match find_bytes(s, key) {
        Some(i) => i,
        None => {
            return None;
        },
    };
    proof {
        lemma_find_from_range(s@, key@, 0);
    }
    let n = s.len();
    let st = idx + key.len();
    let mut en: usize = st;
    while en < s.len() && 48 <= s[en] && s[en] <= 57
        invariant
            n == s@.len(),
            st <= en <= n,
            digits_end(s@, st as int) == digits_end(s@, en as int),
            forall|t: int| st <= t < en ==> is_digit(s@[t]),
        decreases s@.len() - en,
    {
        en = en + 1;
    }
    assert(digits_end(s@, en as int) == en);
    if en == st {
        return None;
    }
    let ghost ds = s@.subrange(st as int, en as int);
    let mut v: usize = 0;
    let mut j: usize = st;
    while j < en
        invariant
            st <= j <= en <= s@.len(),
            ds == s@.subrange(st as int, en as int),
            forall|t: int| st <= t < en ==> is_digit(s@[t]),
            v == digits_value(ds.subrange(0, j - st)),
            en == digits_end(s@, st as int),
            en > st,
            find_from(s@, key@, 0) == Some(idx as int),
            st == idx + key@.len(),
        decreases en - j,
    {
        let d = (s[j] - 48) as usize;
        proof {
            assert(ds.subrange(0, j + 1 - st).drop_last() =~= ds.subrange(0, j - st));
            assert(ds[j - st] == s@[j as int]);
            assert(digits_value(ds.subrange(0, j + 1 - st)) == v * 10 + d);
        }
        match v.checked_mul(10) {
            Some(w) => match w.checked_add(d) {
                Some(x) => {
                    v = x;
                },
                None => {
                    proof {
                        lemma_digits_value_prefix(ds, j + 1 - st);
                        assert(digits_value(ds) > usize::MAX);
                        assert(digits_end(s@, st as int) == en);
                    }
                    return None;
                },
            },
            None => {
                proof {
                    lemma_digits_value_prefix(ds, j + 1 - st);
                    assert(digits_value(ds) > usize::MAX);
                    assert(digits_end(s@, st as int) == en);
                }
                return None;
            },
        }
        j = j + 1;
    }
    assert(ds.subrange(0, en - st) =~= ds);
    Some(v)
}

/// The bytes after the first `key` in `s` up to the next quote.
fn extract_str_bytes(s: &[u8], key: &[u8]) -> (r: Vec<u8>)
    ensures
        r@ == json_str(s@, key@),
{
    match find_bytes(s, key) {
        None => Vec::new(),
        Some(i) => {
            proof {
                lemma_find_from_range(s@, key@, 0);
            }
            let n = s.len();
            let st = i + key.len();
            match find_byte_from(s, QUOTE, st) {
                Some(q) => {
                    proof {
                        lemma_find_byte_range(s@, QUOTE, st as int);
                    }
                    let mut r: Vec<u8> = Vec::new();
                    let mut j: usize = st;
                    while j < q
                        invariant
                            st <= j <= q <= s@.len(),
                            r@ == s@.subrange(st as int, j as int),
                        decreases q - j,
                    {
                        r.push(s[j]);
                        j = j + 1;
                        assert(r@ =~= s@.subrange(st as int, j as int));
                    }
                    r
                },
                None => Vec::new(),
            }
        },
    }
}

proof fn lemma_find_from_range(s: Seq<u8>, key: Seq<u8>, i: int)
    ensures
        find_from(s, key, i) matches Some(q) ==> i <= q && q + key.len() <= s.len(),
    decreases s.len() - i,
{
    if !(i < 0 || i + key.len() > s.len()) && s.subrange(i, i + key.len()) != key && i < s.len() {
        lemma_find_from_range(s, key, i + 1);
    }
}

proof fn lemma_find_byte_range(s: Seq<u8>, x: u8, i: int)
    ensures
        find_byte(s, x, i) matches Some(q) ==> i <= q < s.len(),
    decreases s.len() - i,
{
    if 0 <= i < s.len() && s[i] != x {
        lemma_find_byte_range(s, x, i + 1);
    }
}

/// The unsigned integer written right after the first `key` in `s`.
pub fn extract_json_int(s: &str, key: &str) -> (r: Option<usize>)
    ensures
        match r {
            Some(v) => json_int(encode_utf8(s@), encode_utf8(key@)) == Some(v as int),
            None => json_int(encode_utf8(s@), encode_utf8(key@)) is None,
        },
{
    extract_int_bytes(s.as_bytes(), key.as_bytes())
}

/// The text after the first `key` in `s` up to the next quote; empty when
/// there is none.
pub fn extract_json_str(s: &str, key: &str) -> (r: String)
    ensures
        valid_utf8(json_str(encode_utf8(s@), encode_utf8(key@))) ==> r@ == decode_utf8(
            json_str(encode_utf8(s@), encode_utf8(key@)),
        ),
        !valid_utf8(json_str(encode_utf8(s@), encode_utf8(key@))) ==> r@.len() == 0,
{
    let b = extract_str_bytes(s.as_bytes(), key.as_bytes());
    match utf8_to_string(b) {
        Some(t) => t,
        None => String::new(),
    }
}

/// Pairs of indices as integers.
pub open spec fn pairs(v: Seq<(usize, usize)>) -> Seq<(int, int)> {
    v.map_values(|p: (usize, usize)| (p.0 as int, p.1 as int))
}

/// The byte ranges of the objects of `b` (see `objects`).
pub fn object_ranges(b: &[u8]) -> (r: Vec<(usize, usize)>)
    ensures
        pairs(r@) == objects(b@, 0, 0, 0),
        forall|k: int| 0 <= k < r@.len() ==> (#[trigger] r@[k]).0 < r@[k].1 <= b@.len(),
{
    let n = b.len();
    let mut out: Vec<(usize, usize)> = Vec::new();
    let mut i: usize = 0;
    let mut depth: usize = 0;
    let mut start: usize = 0;
    while i < n
        invariant
            n == b@.len(),
            i <= n,
            depth <= i,
            depth > 0 ==> start < i,
            pairs(out@) + objects(b@, i as int, depth as int, start as int) == objects(b@, 0, 0, 0),
            forall|k: int| 0 <= k < out@.len() ==> (#[trigger] out@[k]).0 < out@[k].1 <= n,
        decreases n - i,
    {
        let x = b[i];
        let ghost before = pairs(out@);
        if depth == 0 {
            if x == OPEN_BRACE {
                start = i;
                depth = 1;
            }
        } else {
            if x == OPEN_BRACE {
                depth = depth + 1;
            } else if x == CLOSE_BRACE {
                depth = depth - 1;
                if depth == 0 {
                    out.push((start, i + 1));
                    assert(pairs(out@) =~= before.push((start as int, i + 1)));
                    assert(before + objects(b@, i as int, depth as int + 1, start as int) =~= pairs(
                        out@,
                    ) + objects(b@, i + 1, 0, start as int));
                }
            }
        }
        i = i + 1;
    }
    if depth > 0 {
        let ghost before = pairs(out@);
        out.push((start, n));
        assert(pairs(out@) =~= before.push((start as int, n as int)));
        assert(before + objects(b@, n as int, depth as int, start as int) =~= pairs(out@));
    } else {
        assert(pairs(out@) + objects(b@, n as int, 0, start as int) =~= pairs(out@));
    }
    out
}

/// A copy of bytes `lo..hi` of `b`.
fn slice_range(b: &[u8], lo: usize, hi: usize) -> (r: Vec<u8>)
    requires
        lo <= hi <= b@.len(),
    ensures
        r@ == b@.subrange(lo as int, hi as int),
{
    let mut r: Vec<u8> = Vec::new();
    let mut i: usize = lo;
    while i < hi
        invariant
            lo <= i <= hi <= b@.len(),
            r@ == b@.subrange(lo as int, i as int),
        decreases hi - i,
    {
        r.push(b[i]);
        i = i + 1;
        assert(r@ =~= b@.subrange(lo as int, i as int));
    }
    r
}

/// The color a span object names, or the default.
fn color_from_bytes(c: Vec<u8>) -> (r: String)
    ensures
        r@ == color_text(c@),
{
    if c.len() == 0 {
        return DEFAULT_COLOR.to_owned();
    }
    match utf8_to_string(c) {
        Some(t) => t,
        None => DEFAULT_COLOR.to_owned(),
    }
}

/// The style a span object names.
fn style_from_bytes(st: &[u8]) -> (r: TokenStyle)
    ensures
        r == style_named(st@),
{
    if bytes_equal(st, "bold".as_bytes()) {
        TokenStyle::Bold
    } else if bytes_equal(st, "italic".as_bytes()) {
        TokenStyle::Italic
    } else {
        TokenStyle::Normal
    }
}

/// Reads the spans of a token JSON text: each object with a readable start
/// and end gives a span, in order.
pub fn parse_tokens_json(tokens_json: &str) -> (r: Vec<TokenSpan>)
    ensures
        span_views(r@) == parsed_spans(encode_utf8(tokens_json@)),
{
    let b = tokens_json.as_bytes();
    let objs = object_ranges(b);
    let mut r: Vec<TokenSpan> = Vec::new();
    let mut k: usize = 0;
    while k < objs.len()
        invariant
            b@ == encode_utf8(tokens_json@),
            pairs(objs@) == objects(b@, 0, 0, 0),
            forall|t: int| 0 <= t < objs@.len() ==> (#[trigger] objs@[t]).0 < objs@[t].1 <= b@.len(),
            k <= objs@.len(),
            span_views(r@) == spans_of_objects(b@, pairs(objs@).subrange(0, k as int)),
        decreases objs@.len() - k,
    {
        let (st, en) = objs[k];
        let obj = slice_range(b, st, en);
        let ghost before = r@;
        let ghost os = pairs(objs@).subrange(0, k + 1);
        proof {
            assert(os.drop_last() =~= pairs(objs@).subrange(0, k as int));
            assert(os.last() == (st as int, en as int));
        }
        match (
            extract_int_bytes(obj.as_slice(), START_KEY.as_bytes()),
            extract_int_bytes(obj.as_slice(), END_KEY.as_bytes()),
        ) {
            (Some(s), Some(e)) => {
                let c = extract_str_bytes(obj.as_slice(), COLOR_KEY.as_bytes());
                let stb = extract_str_bytes(obj.as_slice(), STYLE_KEY.as_bytes());
                let color = color_from_bytes(c);
                let style = style_from_bytes(stb.as_slice());
                let t = TokenSpan { start: s, end: e, color, style };
                r.push(t);
                assert(span_views(r@) =~= span_views(before).push(t.view_span()));
            },
            _ => {},
        }
        k = k + 1;
    }
    assert(pairs(objs@).subrange(0, objs@.len() as int) =~= pairs(objs@));
    r
}

/// Appends one span as a JSON object.
fn push_span_json(out: &mut String, t: &TokenSpan)
    ensures
        final(out)@ == old(out)@ + span_json(*t),
{
    out.append("{\"s\":");
    let s = decimal_string(t.start);
    out.append(s.as_str());
    out.append(",\"e\":");
    let e = decimal_string(t.end);
    out.append(e.as_str());
    out.append(",\"c\":\"");
    out.append(t.color.as_str());
    out.append("\",\"st\":\"");
    match t.style {
        TokenStyle::Normal => out.append("normal"),
        TokenStyle::Bold => out.append("bold"),
        TokenStyle::Italic => out.append("italic"),
    }
    out.append("\"}");
    assert(out@ =~= old(out)@ + span_json(*t));
}

/// Writes spans as a JSON array.
pub fn tokens_to_json(spans: &Vec<TokenSpan>) -> (r: String)
    ensures
        r@ == spans_json(spans@),
{
    let mut out = "[".to_owned();
    let mut k: usize = 0;
    while k < spans.len()
        invariant
            k <= spans@.len(),
            out@ == "["@ + join_json(spans@.subrange(0, k as int)),
        decreases spans@.len() - k,
    {
        let ghost o0 = out@;
        if k > 0 {
            out.append(",");
        }
        push_span_json(&mut out, &spans[k]);
        k = k + 1;
        proof {
            let sub = spans@.subrange(0, k as int);
            assert(sub.drop_last() =~= spans@.subrange(0, k - 1));
            if k == 1 {
                assert(join_json(spans@.subrange(0, 0)) =~= Seq::<char>::empty());
            }
            assert(out@ =~= "["@ + join_json(sub));
        }
    }
    out.append("]");
    assert(spans@.subrange(0, spans@.len() as int) =~= spans@);
    out
}

/// Remaps the spans of a token JSON text, computed for `orig_text`, onto
/// `curr_text`, as JSON: `[]` for the empty array or an empty current text.
pub fn validate_tokens_json(tokens_json: &str, orig_text: &str, curr_text: &str) -> (r: String)
    ensures
        (encode_utf8(tokens_json@) == encode_utf8("[]"@) || curr_text@.len() == 0) ==> r@ == "[]"@,
        !(encode_utf8(tokens_json@) == encode_utf8("[]"@) || curr_text@.len() == 0) ==> exists|
            toks: Seq<TokenSpan>,
            runs: Seq<TokenSpan>,
        |
            span_views(toks) == parsed_spans(encode_utf8(tokens_json@)) && remapped(
                runs,
                toks,
                encode_utf8(orig_text@),
                encode_utf8(curr_text@),
            ) && r@ == spans_json(runs),
{
    if bytes_equal(tokens_json.as_bytes(), "[]".as_bytes()) || curr_text.is_empty() {
        return "[]".to_owned();
    }
    let toks = parse_tokens_json(tokens_json);
    let runs = remap_bytes(&toks, orig_text.as_bytes(), curr_text.as_bytes());
    let r = tokens_to_json(&runs);
    assert(span_views(toks@) == parsed_spans(encode_utf8(tokens_json@)) && remapped(
        runs@,
        toks@,
        encode_utf8(orig_text@),
        encode_utf8(curr_text@),
    ) && r@ == spans_json(runs@));
    r
}

} // verus!
