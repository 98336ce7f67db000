//! Target-size tokens.
//!
//! A size token has the shape `"{width}x{height}"`: the characters before the
//! first `'x'` and the characters after it must each be a non-empty run of
//! decimal digits whose value fits in a `u32`. The token itself is kept
//! alongside the parsed pair: the derivative cache is keyed by the literal
//! token, so `"100x100"` and `"0100x100"` name distinct cache entries.

use vstd::prelude::*;

verus! {

/// A decimal digit `'0'..='9'`.
pub open spec fn is_dec_digit(c: char) -> bool {
    48 <= c as int <= 57
}

/// The numeric value of a decimal digit.
pub open spec fn digit_val(c: char) -> nat {
    (c as int - 48) as nat
}

/// The value of a digit string, most significant digit first.
pub open spec fn dec_value(s: Seq<char>) -> nat
    decreases s.len(),
{
    if s.len() == 0 {
        0
    } else {
        dec_value(s.drop_last()) * 10 + digit_val(s.last())
    }
}

/// Every character of `s` is a decimal digit.
pub open spec fn all_digits(s: Seq<char>) -> bool {
    forall|i: int| 0 <= i < s.len() ==> is_dec_digit(#[trigger] s[i])
}

/// A non-empty digit string whose value fits in a `u32`.
pub open spec fn is_u32_token(s: Seq<char>) -> bool {
    s.len() > 0 && all_digits(s) && dec_value(s) <= u32::MAX
}

/// `s` contains the separator character `'x'`.
pub open spec fn has_x(s: Seq<char>) -> bool {
    exists|i: int| 0 <= i < s.len() && s[i] == 'x'
}

/// Index of the first `'x'` in `s` (equals `s.len()` when there is none).
pub open spec fn first_x(s: Seq<char>) -> int
    decreases s.len(),
{
    if s.len() == 0 {
        0
    } else if s[0] == 'x' {
        0
    } else {
        1 + first_x(s.subrange(1, s.len() as int))
    }
}

/// The width part of a token: the characters before the first `'x'`.
pub open spec fn width_part(s: Seq<char>) -> Seq<char> {
    s.subrange(0, first_x(s))
}

/// The height part of a token: the characters after the first `'x'`.
pub open spec fn height_part(s: Seq<char>) -> Seq<char> {
    s.subrange(first_x(s) + 1, s.len() as int)
}

/// A well-formed `"{width}x{height}"` token.
pub open spec fn is_size_token(s: Seq<char>) -> bool {
    has_x(s) && is_u32_token(width_part(s)) && is_u32_token(height_part(s))
}

/// Why a size token was rejected.
#[derive(Clone, Copy, Debug, PartialEq, Eq, Structural)]
pub enum SizeError {
    /// The token holds no `'x'` separator.
    MissingSeparator,
    /// The part before the first `'x'` is not a `u32` digit string.
    BadWidth,
    /// The part after the first `'x'` is not a `u32` digit string.
    BadHeight,
}

/// A parsed target size, keeping the literal token it was parsed from.
#[derive(Debug)]
pub struct Size {
    pub width: u32,
    pub height: u32,
    pub token: String,
}

impl Size {
    /// The token is well formed and `width`/`height` are its two components.
    pub open spec fn wf(self) -> bool {
        &&& is_size_token(self.token@)
        &&& self.width == dec_value(width_part(self.token@))
        &&& self.height == dec_value(height_part(self.token@))
    }
}

proof fn lemma_dec_value_snoc(s: Seq<char>, i: int)
    requires
        0 <= i < s.len(),
    ensures
        dec_value(s.subrange(0, i + 1)) == dec_value(s.subrange(0, i)) * 10 + digit_val(s[i]),
{
    assert(s.subrange(0, i + 1).drop_last() =~= s.subrange(0, i));
    assert(s.subrange(0, i + 1).last() == s[i]);
}

/// The value of a digit string is at least the value of any of its prefixes.
proof fn lemma_dec_value_prefix_le(s: Seq<char>, i: int)
    requires
        0 <= i <= s.len(),
    ensures
        dec_value(s.subrange(0, i)) <= dec_value(s),
    decreases s.len() - i,
{
    if i == s.len() {
        assert(s.subrange(0, i) =~= s);
    } else {
        lemma_dec_value_prefix_le(s, i + 1);
        lemma_dec_value_snoc(s, i);
    }
}

/// If `s[i]` is the first `'x'` of `s`, then `first_x(s) == i`.
proof fn lemma_first_x_at(s: Seq<char>, i: int)
    requires
        0 <= i < s.len(),
        s[i] == 'x',
        forall|j: int| 0 <= j < i ==> s[j] != 'x',
    ensures
        first_x(s) == i,
        has_x(s),
    decreases i,
{
    if i == 0 {
    } else {
        let t = s.subrange(1, s.len() as int);
        assert(forall|j: int| 0 <= j < i - 1 ==> t[j] != 'x');
        assert(t[i - 1] == 'x');
        lemma_first_x_at(t, i - 1);
    }
}

/// Parse a non-empty run of decimal digits as a `u32`.
///
/// Returns `Some` exactly when the whole string is such a run and its value
/// fits in a `u32`.
pub fn parse_u32(s: &str) -> (r: Option<u32>)
    ensures
        r is Some <==> is_u32_token(s@),
        r is Some ==> r->0 as nat == dec_value(s@),
{
    let n: usize = s.unicode_len();
    if n == 0 {
        return None;
    }
    let mut acc: u64 = 0;
    let mut i: usize = 0;
    while i < n
        invariant
            0 <= i <= n,
            n == s@.len(),
            n > 0,
            all_digits(s@.subrange(0, i as int)),
            acc as nat == dec_value(s@.subrange(0, i as int)),
            acc <= u32::MAX,
        decreases n - i,
    {
        let c: char = s.get_char(i);
        let cv: u32 = c as u32;
        if cv < 48 || cv > 57 {
            assert(!is_dec_digit(s@[i as int]));
            return None;
        }
        let d: u64 = (cv - 48) as u64;
        proof {
            lemma_dec_value_snoc(s@, i as int);
        }
        acc = acc * 10 + d;
        i = i + 1;
        if acc > u32::MAX as u64 {
            proof {
                if all_digits(s@) {
                    lemma_dec_value_prefix_le(s@, i as int);
                }
            }
            return None;
        }
    }
    proof {
        assert(s@.subrange(0, n as int) =~= s@);
    }
    Some(acc as u32)
}

/// Parse a `"{width}x{height}"` size token.
///
/// The token is split at its first `'x'`; each side must be a non-empty
/// decimal digit run whose value fits in a `u32`. The literal token is kept
/// in the result, since the derivative cache is keyed by it.
pub fn parse_size(s: &str) -> (r: Result<Size, SizeError>)
    ensures
        r is Ok <==> is_size_token(s@),
        r is Ok ==> {
            &&& r->Ok_0.wf()
            &&& r->Ok_0.token@ == s@
            &&& r->Ok_0.width as nat == dec_value(width_part(s@))
            &&& r->Ok_0.height as nat == dec_value(height_part(s@))
        },
        r == Err::<Size, SizeError>(SizeError::MissingSeparator) <==> !has_x(s@),
        r == Err::<Size, SizeError>(SizeError::BadWidth) <==> has_x(s@) && !is_u32_token(
            width_part(s@),
        ),
        r == Err::<Size, SizeError>(SizeError::BadHeight) <==> has_x(s@) && is_u32_token(
            width_part(s@),
        ) && !is_u32_token(height_part(s@)),
{
    let n: usize = s.unicode_len();
    let mut i: usize = 0;
    while i < n
        invariant
            0 <= i <= n,
            n == s@.len(),
            forall|j: int| 0 <= j < i ==> s@[j] != 'x',
        decreases n - i,
    {
        if s.get_char(i) == 'x' {
            proof {
                lemma_first_x_at(s@, i as int);
            }
            let w_str = s.substring_char(0, i);
            let h_str = s.substring_char(i + 1, n);
            let w = match parse_u32(w_str) {
                Some(w) => w,
                None => {
                    return Err(SizeError::BadWidth);
                },
            };
            let h = match parse_u32(h_str) {
                Some(h) => h,
                None => {
                    return Err(SizeError::BadHeight);
                },
            };
            return Ok(Size { width: w, height: h, token: String::from_str(s) });
        }
        i = i + 1;
    }
    assert(!has_x(s@));
    Err(SizeError::MissingSeparator)
}

} // verus!
