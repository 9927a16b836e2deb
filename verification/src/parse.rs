//! `<W>x<H>` sizes, shared by the backends.

use vstd::prelude::*;

use crate::error::{is_invalid_resolution, AppError};
use crate::text::{
    chars_of, decimal, find_char, find_from, is_digit, lemma_decimal_digits,
    lemma_decimal_parses, lemma_find_bounds, lemma_trim_digits, owned, parse_u32, parses_u32,
    slice_chars, trim, trim_chars, u32_value,
};

verus! {

/// What `parse_wxh` reads from `s`: split at the first `x`, each side
/// trimmed and read as a `u32`.
pub open spec fn wxh(s: Seq<char>) -> Option<(nat, nat)> {
    let i = find_from(s, 'x', 0);
    if i >= s.len() {
        None
    } else {
        let w = trim(s.take(i));
        let h = trim(s.skip(i + 1));
        if parses_u32(w) && parses_u32(h) {
            Some((u32_value(w), u32_value(h)))
        } else {
            None
        }
    }
}

/// Parse a `"WxH"` string into its `(width, height)` components; anything
/// else is `InvalidResolutionFormat` quoting the input.
pub fn parse_wxh(value: &str) -> (r: Result<(u32, u32), AppError>)
    ensures
        match r {
            Ok((w, h)) => wxh(value@) == Some((w as nat, h as nat)),
            Err(e) => wxh(value@) is None && is_invalid_resolution(e, value@),
        },
{
    let v = chars_of(value);
    let i = find_char(&v, 'x');
    proof {
        lemma_find_bounds(v@, 'x', 0);
    }
    if i == v.len() {
        return Err(AppError::InvalidResolutionFormat(owned(value)));
    }
    let left = slice_chars(&v, 0, i);
    let right = slice_chars(&v, i + 1, v.len());
    assert(left@ == v@.take(i as int));
    assert(right@ == v@.skip(i + 1));
    let w = trim_chars(&left);
    let h = trim_chars(&right);
    match (parse_u32(&w), parse_u32(&h)) {
        (Some(wv), Some(hv)) => Ok((wv, hv)),
        _ => Err(AppError::InvalidResolutionFormat(owned(value))),
    }
}

proof fn lemma_find_after_digits(s: Seq<char>, n: int, i: int)
    requires
        0 <= i <= n < s.len(),
        forall|k: int| 0 <= k < n ==> is_digit(#[trigger] s[k]),
        s[n] == 'x',
    ensures
        find_from(s, 'x', i) == n,
    decreases n - i,
{
    if i < n {
        assert(is_digit(s[i]));
        lemma_find_after_digits(s, n, i + 1);
    }
}

/// Formatting a size as `<W>x<H>` and parsing it back gives the size.
pub proof fn law_wxh_round_trip(w: u32, h: u32)
    ensures
        wxh(decimal(w as nat) + "x"@ + decimal(h as nat)) == Some((w as nat, h as nat)),
{
    reveal_strlit("x");
    let dw = decimal(w as nat);
    let dh = decimal(h as nat);
    let s = dw + "x"@ + dh;
    lemma_decimal_digits(w as nat);
    lemma_decimal_digits(h as nat);
    lemma_decimal_parses(w);
    lemma_decimal_parses(h);
    assert(s[dw.len() as int] == 'x');
    assert forall|k: int| 0 <= k < dw.len() implies is_digit(#[trigger] s[k]) by {
        assert(s[k] == dw[k]);
    }
    lemma_find_after_digits(s, dw.len() as int, 0);
    assert(s.take(dw.len() as int) =~= dw);
    assert(s.skip(dw.len() as int + 1) =~= dh);
    lemma_trim_digits(dw);
    lemma_trim_digits(dh);
}

} // verus!
