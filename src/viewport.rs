//! Geometry of the visible area in integer pixels: gutter width, visible
//! line range and rectangles.
use vstd::prelude::*;

verus! {

/// Width added to the gutter beyond its digits.
pub const GUTTER_PADDING: u64 = 36;

/// Number of decimal digits of `n` (1 for 0).
pub open spec fn decimal_digits(n: nat) -> nat
    decreases n,
{
    if n < 10 {
        1
    } else {
        1 + decimal_digits(n / 10)
    }
}

/// Gutter width for `line_count` lines: room for at least two digits.
pub open spec fn gutter_width_spec(line_count: nat, char_width: nat) -> nat {
    let d = decimal_digits(line_count);
    let digits = if d < 2 {
        2
    } else {
        d
    };
    (digits * char_width + GUTTER_PADDING) as nat
}

pub open spec fn pow10(k: nat) -> nat
    decreases k,
{
    if k == 0 {
        1
    } else {
        10 * pow10((k - 1) as nat)
    }
}

proof fn lemma_digits_le(n: nat, k: nat)
    requires
        k >= 1,
        n < pow10(k),
    ensures
        decimal_digits(n) <= k,
    decreases k,
{
    if n >= 10 {
        assert(k >= 2) by {
            if k == 1 {
                assert(pow10(1) == 10 * pow10(0));
            }
        }
        assert(n / 10 < pow10((k - 1) as nat));
        lemma_digits_le(n / 10, (k - 1) as nat);
    }
}

proof fn lemma_digits_bound(n: nat)
    requires
        n < 0x1_0000_0000_0000_0000,
    ensures
        1 <= decimal_digits(n) <= 20,
{
    reveal_with_fuel(pow10, 21);
    assert(pow10(20) == 100_000_000_000_000_000_000);
    lemma_digits_le(n, 20);
}

/// Number of decimal digits of `n`.
pub fn digit_count(n: usize) -> (r: u64)
    ensures
        r == decimal_digits(n as nat),
        1 <= r <= 20,
{
    let mut v: usize = n;
    let mut d: u64 = 1;
    proof {
        lemma_digits_bound(n as nat);
    }
    while v >= 10
        invariant
            1 <= d,
            d + decimal_digits(v as nat) == decimal_digits(n as nat) + 1,
            decimal_digits(n as nat) <= 20,
        decreases v,
    {
        v = v / 10;
        d = d + 1;
    }
    d
}

/// Width of the line-number gutter.
pub fn gutter_width(line_count: usize, char_width: u32) -> (r: u64)
    ensures
        r == gutter_width_spec(line_count as nat, char_width as nat),
{
    let d = digit_count(line_count);
    let digits: u64 = if d < 2 {
        2
    } else {
        d
    };
    assert(digits * (char_width as u64) <= 20 * 0xffff_ffff) by (nonlinear_arith)
        requires
            digits <= 20,
            char_width <= 0xffff_ffff,
    ;
    digits * (char_width as u64) + GUTTER_PADDING
}

/// First visible line: the one at the top edge of the view.
pub open spec fn first_visible_spec(scroll_y: nat, line_height: nat) -> nat {
    scroll_y / line_height
}

/// Lines drawn: those the view can show, and one more at each edge.
pub open spec fn visible_count_spec(view_height: nat, line_height: nat) -> nat {
    (view_height + line_height - 1) as nat / line_height + 2
}

/// End of the visible range, at most the line count.
pub open spec fn last_visible_spec(scroll_y: nat, view_height: nat, line_height: nat, line_count: nat) -> nat {
    let e = first_visible_spec(scroll_y, line_height) + visible_count_spec(view_height, line_height);
    if e < line_count {
        e
    } else {
        line_count
    }
}

/// The half-open range of lines to draw.
pub fn visible_range(scroll_y: u128, view_height: u32, line_height: u32, line_count: usize) -> (r: (usize, usize))
    requires
        line_height > 0,
    ensures
        r.1 == last_visible_spec(scroll_y as nat, view_height as nat, line_height as nat, line_count as nat),
        r.0 == if first_visible_spec(scroll_y as nat, line_height as nat) < r.1 {
            first_visible_spec(scroll_y as nat, line_height as nat)
        } else {
            r.1 as nat
        },
        r.1 <= line_count,
{
    let lh = line_height as u128;
    let first = scroll_y / lh;
    if first >= line_count as u128 {
        return (line_count, line_count);
    }
    let num = (view_height as u128) + lh - 1;
    let q = num / lh;
    assert(q <= num) by (nonlinear_arith)
        requires
            lh >= 1,
            q == num / lh,
    ;
    let count = q + 2;
    let end = first + count;
    let last: usize = if end < line_count as u128 {
        end as usize
    } else {
        line_count
    };
    if first < last as u128 {
        (first as usize, last)
    } else {
        (last, last)
    }
}

} // verus!
