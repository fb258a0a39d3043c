//! Decimal wire strings.
//!
//! Monetary quantities travel as strings like `"12.345"`. A [`Dec`] holds
//! such a value exactly as an unscaled mantissa and a scale: the value is
//! `mantissa / 10^scale`. Mantissas fit in 96 bits and scales do not exceed
//! [`MAX_SCALE`], so every representable wire value parses and serializes
//! without precision loss.

use crate::digits::{
    all_digits, dec_rep, digit_val, digits_val, is_digit, lemma_dec_rep, lemma_digits_val_concat,
    lemma_padded_rep, padded_rep, pow10, u128_to_dec_string,
};
use vstd::arithmetic::div_mod::{lemma_fundamental_div_mod, lemma_mod_bound};
use vstd::prelude::*;
use vstd::string::*;

verus! {

/// The largest scale a decimal may carry.
pub const MAX_SCALE: u32 = 28;

/// The first mantissa that no longer fits: two to the ninety-sixth power.
pub const MANTISSA_LIMIT: u128 = 0x1_0000_0000_0000_0000_0000_0000;

/// An exact nonnegative decimal: the value `mantissa / 10^scale`.
#[derive(Clone, Copy, Debug, PartialEq, Eq, Structural)]
pub struct Dec {
    pub mantissa: u128,
    pub scale: u32,
}

impl Dec {
    /// The mantissa fits in 96 bits and the scale is at most [`MAX_SCALE`].
    pub open spec fn wf(&self) -> bool {
        &&& self.mantissa < MANTISSA_LIMIT
        &&& self.scale <= MAX_SCALE
    }
}

/// The canonical wire string of a decimal: the integer part with no
/// leading zero, then, for a positive scale, a dot and exactly `scale`
/// fractional digits.
pub open spec fn dec_string_rep(d: Dec) -> Seq<char> {
    if d.scale == 0 {
        dec_rep(d.mantissa as nat)
    } else {
        dec_rep((d.mantissa as nat) / pow10(d.scale as nat)) + seq!['.'] + padded_rep(
            (d.mantissa as nat) % pow10(d.scale as nat),
            d.scale as nat,
        )
    }
}

/// A nonempty run of digits.
pub open spec fn plain_number(s: Seq<char>) -> bool {
    s.len() > 0 && all_digits(s)
}

/// The string has a dot at `i`, digits before it and digits after it,
/// neither side empty.
pub open spec fn dotted_at(s: Seq<char>, i: int) -> bool {
    &&& 1 <= i <= s.len() - 2
    &&& s[i] == '.'
    &&& plain_number(s.take(i))
    &&& plain_number(s.skip(i + 1))
}

/// The string is an integer part, a dot and a fractional part.
pub open spec fn dotted_number(s: Seq<char>) -> bool {
    exists|i: int| dotted_at(s, i)
}

/// The digit characters of a well-formed decimal string, dot removed.
pub open spec fn dec_digits_of(s: Seq<char>) -> Seq<char> {
    if dotted_number(s) {
        let i = choose|i: int| dotted_at(s, i);
        s.take(i) + s.skip(i + 1)
    } else {
        s
    }
}

/// The scale of a well-formed decimal string: the number of fractional
/// digits.
pub open spec fn dec_scale_of(s: Seq<char>) -> int {
    if dotted_number(s) {
        let i = choose|i: int| dotted_at(s, i);
        s.len() - i - 1
    } else {
        0
    }
}

/// What parsing a wire string yields: the exact decimal for a string of
/// the form `digits` or `digits.digits` whose mantissa and scale fit, and
/// nothing for every other string.
pub open spec fn dec_parse(s: Seq<char>) -> Option<Dec> {
    if (plain_number(s) || dotted_number(s)) && digits_val(dec_digits_of(s)) < MANTISSA_LIMIT
        as nat && dec_scale_of(s) <= MAX_SCALE as int {
        Some(
            Dec {
                mantissa: digits_val(dec_digits_of(s)) as u128,
                scale: dec_scale_of(s) as u32,
            },
        )
    } else {
        None
    }
}

/// A dotted split position is unique: the other side of a second split
/// would have to hold the first dot among its digits.
pub proof fn lemma_dotted_at_unique(s: Seq<char>, i: int, j: int)
    requires
        dotted_at(s, i),
        dotted_at(s, j),
    ensures
        i == j,
{
    if i < j {
        assert(s.skip(i + 1)[j - i - 1] == s[j]);
        assert(is_digit(s[j]));
        assert(false);
    }
    if j < i {
        assert(s.skip(j + 1)[i - j - 1] == s[i]);
        assert(is_digit(s[i]));
        assert(false);
    }
}

/// A plain digit string is not dotted.
pub proof fn lemma_plain_not_dotted(s: Seq<char>)
    requires
        plain_number(s),
    ensures
        !dotted_number(s),
{
    if dotted_number(s) {
        let i = choose|i: int| dotted_at(s, i);
        assert(is_digit(s[i]));
        assert(false);
    }
}

/// A string with a character that is neither a digit nor a dot is no
/// decimal at all.
proof fn lemma_bad_char_invalid(s: Seq<char>, i: int)
    requires
        0 <= i < s.len(),
        !is_digit(s[i]),
        s[i] != '.',
    ensures
        !plain_number(s),
        !dotted_number(s),
{
    if dotted_number(s) {
        let j = choose|j: int| dotted_at(s, j);
        if i < j {
            assert(s.take(j)[i] == s[i]);
            assert(is_digit(s[i]));
        } else if i > j {
            assert(s.skip(j + 1)[i - j - 1] == s[i]);
            assert(is_digit(s[i]));
        }
        assert(false);
    }
}

/// A string with two dots is no decimal.
proof fn lemma_two_dots_invalid(s: Seq<char>, p: int, q: int)
    requires
        0 <= p < q < s.len(),
        s[p] == '.',
        s[q] == '.',
    ensures
        !plain_number(s),
        !dotted_number(s),
{
    assert(!is_digit(s[p]));
    if dotted_number(s) {
        let j = choose|j: int| dotted_at(s, j);
        if j != p {
            lemma_bad_digit_position(s, j, p);
        } else {
            lemma_bad_digit_position(s, j, q);
        }
        assert(false);
    }
}

/// Inside a dotted split, every position other than the dot holds a digit.
proof fn lemma_bad_digit_position(s: Seq<char>, j: int, i: int)
    requires
        dotted_at(s, j),
        0 <= i < s.len(),
        i != j,
    ensures
        is_digit(s[i]),
{
    if i < j {
        assert(s.take(j)[i] == s[i]);
    } else {
        assert(s.skip(j + 1)[i - j - 1] == s[i]);
    }
}

/// A string that starts or ends with its only dot is no decimal.
proof fn lemma_edge_dot_invalid(s: Seq<char>, i: int)
    requires
        0 <= i < s.len(),
        s[i] == '.',
        i == 0 || i == s.len() - 1,
    ensures
        !plain_number(s),
        !dotted_number(s),
{
    assert(!is_digit(s[i]));
    if dotted_number(s) {
        let j = choose|j: int| dotted_at(s, j);
        if j != i {
            lemma_bad_digit_position(s, j, i);
            assert(false);
        }
        assert(1 <= j <= s.len() - 2);
        assert(false);
    }
}

/// Every digit string's value dominates the value of each of its prefixes.
proof fn lemma_digits_val_prefix(s: Seq<char>, k: int)
    requires
        0 <= k <= s.len(),
    ensures
        digits_val(s) >= digits_val(s.take(k)),
{
    assert(s =~= s.take(k) + s.skip(k));
    lemma_digits_val_concat(s.take(k), s.skip(k));
    crate::digits::lemma_pow10_pos(s.skip(k).len() as nat);
    let a = digits_val(s.take(k));
    let p = pow10(s.skip(k).len() as nat);
    assert(a * p >= a) by (nonlinear_arith)
        requires
            p >= 1,
    ;
}

/// Ten to a power of at most [`MAX_SCALE`], as a 128-bit number.
pub fn pow10_u128(e: u32) -> (r: u128)
    requires
        e <= MAX_SCALE,
    ensures
        r == pow10(e as nat),
{
    proof {
        crate::digits::lemma_pow10_28();
    }
    let mut acc: u128 = 1;
    let mut i: u32 = 0;
    while i < e
        invariant
            i <= e <= MAX_SCALE,
            acc == pow10(i as nat),
        decreases e - i,
    {
        proof {
            crate::digits::lemma_pow10_28();
            crate::digits::lemma_pow10_mono(i as nat + 1, 28);
        }
        acc = acc * 10;
        i = i + 1;
    }
    acc
}

/// Serialize a number into exactly `width` zero-padded digits.
fn padded_dec_string(n: u128, width: u32) -> (r: String)
    ensures
        r@ == padded_rep(n as nat, width as nat),
    decreases width,
{
    if width == 0 {
        let r = String::new();
        proof {
            assert(r@ =~= padded_rep(n as nat, 0));
        }
        r
    } else {
        let mut r = padded_dec_string(n / 10, width - 1);
        r.append(crate::digits::digit_str((n % 10) as u64));
        proof {
            assert(r@ =~= padded_rep(n as nat, width as nat));
        }
        r
    }
}

/// The canonical wire string of a decimal: integer part, and for a
/// positive scale a dot and exactly `scale` fractional digits.
pub fn dec_to_string(d: &Dec) -> (r: String)
    requires
        d.scale <= MAX_SCALE,
    ensures
        r@ == dec_string_rep(*d),
{
    if d.scale == 0 {
        u128_to_dec_string(d.mantissa)
    } else {
        let p = pow10_u128(d.scale);
        proof {
            crate::digits::lemma_pow10_pos(d.scale as nat);
        }
        let mut r = u128_to_dec_string(d.mantissa / p);
        r.append(".");
        let frac = padded_dec_string(d.mantissa % p, d.scale);
        r.append(frac.as_str());
        proof {
            reveal_strlit(".");
            assert(r@ =~= dec_string_rep(*d));
        }
        r
    }
}

/// Parsing inverts serialization: every well-formed decimal comes back
/// from its wire string exactly, with no precision lost.
pub proof fn lemma_dec_round_trip(d: Dec)
    requires
        d.wf(),
    ensures
        dec_parse(dec_string_rep(d)) == Some(d),
{
    let s = dec_string_rep(d);
    let m = d.mantissa as nat;
    if d.scale == 0 {
        lemma_dec_rep(m);
        lemma_plain_not_dotted(s);
        assert(dec_digits_of(s) == s);
        assert(dec_scale_of(s) == 0);
    } else {
        let sc = d.scale as nat;
        let p = pow10(sc);
        crate::digits::lemma_pow10_pos(sc);
        let a = dec_rep(m / p);
        let b = padded_rep(m % p, sc);
        lemma_dec_rep(m / p);
        lemma_padded_rep(m % p, sc);
        lemma_mod_bound(m as int, p as int);
        let i = a.len() as int;
        assert(s =~= a + seq!['.'] + b);
        assert(s.take(i) =~= a);
        assert(s.skip(i + 1) =~= b);
        assert(s[i] == '.');
        assert(dotted_at(s, i));
        assert(!is_digit('.'));
        assert(!plain_number(s));
        let j = choose|j: int| dotted_at(s, j);
        lemma_dotted_at_unique(s, i, j);
        assert(dec_digits_of(s) =~= a + b);
        lemma_digits_val_concat(a, b);
        assert(digits_val(a + b) == (m / p) * p + (m % p));
        lemma_fundamental_div_mod(m as int, p as int);
        assert(digits_val(dec_digits_of(s)) == m);
        assert(dec_scale_of(s) == sc);
    }
}

/// A canonical wire string survives a parse/serialize round trip
/// unchanged: no precision is lost in either direction.
pub proof fn lemma_dec_wire_round_trip(s: Seq<char>)
    requires
        exists|d: Dec| d.wf() && s == dec_string_rep(d),
    ensures
        dec_parse(s) is Some,
        dec_string_rep(dec_parse(s)->Some_0) == s,
{
    let d = choose|d: Dec| d.wf() && s == dec_string_rep(d);
    lemma_dec_round_trip(d);
}

/// Every parsed decimal is well formed.
pub proof fn lemma_dec_parse_wf(s: Seq<char>)
    ensures
        dec_parse(s) matches Some(d) ==> d.wf(),
{
}

/// One decimal is at most another: comparing the values `mantissa /
/// 10^scale` exactly, by cross-multiplying with the powers of ten.
pub open spec fn dec_le_spec(a: Dec, b: Dec) -> bool {
    (a.mantissa as nat) * pow10(b.scale as nat) <= (b.mantissa as nat) * pow10(a.scale as nat)
}

/// Multiplying both sides by a positive factor preserves and reflects
/// order.
proof fn lemma_mul_le_cancel(x: int, y: int, c: int)
    requires
        c > 0,
    ensures
        (x * c <= y * c) <==> (x <= y),
{
    assert((x * c <= y * c) <==> (x <= y)) by (nonlinear_arith)
        requires
            c > 0,
    ;
}

/// Aligning to the coarser scale reduces the comparison to the mantissas:
/// for `x.scale <= y.scale`, `x <= y` exactly when the rescaled mantissa
/// of `x` is at most the mantissa of `y`, and symmetrically for `y <= x`.
proof fn lemma_dec_le_aligned(x: Dec, y: Dec)
    requires
        x.scale <= y.scale,
    ensures
        dec_le_spec(x, y) <==> (x.mantissa as nat) * pow10((y.scale - x.scale) as nat) <= (
        y.mantissa as nat),
        dec_le_spec(y, x) <==> (y.mantissa as nat) <= (x.mantissa as nat) * pow10(
            (y.scale - x.scale) as nat,
        ),
{
    let d = (y.scale - x.scale) as nat;
    let pa = pow10(x.scale as nat);
    crate::digits::lemma_pow10_add(d, x.scale as nat);
    crate::digits::lemma_pow10_pos(x.scale as nat);
    let am = x.mantissa as int;
    let bm = y.mantissa as int;
    let pd = pow10(d) as int;
    assert(am * (pd * pa) == (am * pd) * pa) by (nonlinear_arith);
    lemma_mul_le_cancel(am * pd, bm, pa as int);
    lemma_mul_le_cancel(bm, am * pd, pa as int);
}

/// Compare two decimals exactly.
pub fn dec_le(a: &Dec, b: &Dec) -> (r: bool)
    requires
        a.wf(),
        b.wf(),
    ensures
        r == dec_le_spec(*a, *b),
{
    if a.scale == b.scale {
        proof {
            crate::digits::lemma_pow10_pos(a.scale as nat);
            lemma_mul_le_cancel(a.mantissa as int, b.mantissa as int, pow10(a.scale as nat) as int);
        }
        a.mantissa <= b.mantissa
    } else if a.scale < b.scale {
        let p = pow10_u128(b.scale - a.scale);
        proof {
            lemma_dec_le_aligned(*a, *b);
        }
        match a.mantissa.checked_mul(p) {
            None => false,
            Some(am) => am <= b.mantissa,
        }
    } else {
        let p = pow10_u128(a.scale - b.scale);
        proof {
            lemma_dec_le_aligned(*b, *a);
        }
        match b.mantissa.checked_mul(p) {
            None => true,
            Some(bm) => a.mantissa <= bm,
        }
    }
}

/// Parse a decimal wire string: `Some` exactly for strings of the form
/// `digits` or `digits.digits` whose mantissa and scale fit.
pub fn parse_dec(s: &str) -> (r: Option<Dec>)
    ensures
        r == dec_parse(s@),
{
    let n = s.unicode_len();
    if n == 0 {
        return None;
    }
    // First pass: find the dot, if any, and reject any other non-digit.
    let mut dot: Option<usize> = None;
    let mut i: usize = 0;
    while i < n
        invariant
            n == s@.len(),
            0 < n,
            i <= n,
            dot is None ==> all_digits(s@.take(i as int)),
            dot matches Some(p) ==> {
                &&& 1 <= p < i
                &&& p + 2 <= n
                &&& s@[p as int] == '.'
                &&& plain_number(s@.take(p as int))
                &&& all_digits(s@.subrange(p as int + 1, i as int))
            },
        decreases n - i,
    {
        let c = s.get_char(i);
        let code = c as u32;
        if code >= 48 && code <= 57 {
            proof {
                assert(is_digit(s@[i as int]));
                if dot is None {
                    assert(s@.take(i as int + 1).drop_last() =~= s@.take(i as int));
                } else {
                    let p = dot->Some_0 as int;
                    assert(s@.subrange(p + 1, i as int + 1).drop_last() =~= s@.subrange(
                        p + 1,
                        i as int,
                    ));
                }
            }
        } else if c == '.' {
            match dot {
                Some(p) => {
                    proof {
                        lemma_two_dots_invalid(s@, p as int, i as int);
                    }
                    return None;
                },
                None => {
                    if i == 0 || i + 1 == n {
                        proof {
                            lemma_edge_dot_invalid(s@, i as int);
                        }
                        return None;
                    }
                    dot = Some(i);
                    proof {
                        assert(s@.take(i as int) =~= s@.subrange(0, i as int));
                        assert(s@.subrange(i as int + 1, i as int + 1) =~= Seq::<char>::empty());
                    }
                },
            }
        } else {
            proof {
                assert(!is_digit(s@[i as int]));
                lemma_bad_char_invalid(s@, i as int);
            }
            return None;
        }
        i = i + 1;
    }
    let ghost dd = dec_digits_of(s@);
    let scale: u32 = match dot {
        None => {
            proof {
                assert(s@.take(n as int) =~= s@);
                assert(plain_number(s@));
                lemma_plain_not_dotted(s@);
                assert(dd =~= s@);
            }
            0
        },
        Some(p) => {
            proof {
                assert(s@.subrange(p as int + 1, n as int) =~= s@.skip(p as int + 1));
                assert(dotted_at(s@, p as int));
                assert(!is_digit('.'));
                assert(!plain_number(s@));
                let j = choose|j: int| dotted_at(s@, j);
                lemma_dotted_at_unique(s@, p as int, j);
                assert(dd =~= s@.take(p as int) + s@.skip(p as int + 1));
                assert(dec_scale_of(s@) == n - p - 1);
            }
            let frac_len: usize = n - 1 - p;
            if frac_len > MAX_SCALE as usize {
                return None;
            }
            frac_len as u32
        },
    };
    // Second pass: accumulate the mantissa over the digits, dot skipped.
    let mut acc: u128 = 0;
    let mut k: usize = 0;
    i = 0;
    while i < n
        invariant
            n == s@.len(),
            i <= n,
            dd == dec_digits_of(s@),
            plain_number(s@) || dotted_number(s@),
            dot is None ==> dd == s@ && k == i,
            dot matches Some(p) ==> {
                &&& 1 <= p < n
                &&& s@[p as int] == '.'
                &&& dotted_at(s@, p as int)
                &&& dd =~= s@.take(p as int) + s@.skip(p as int + 1)
                &&& (i <= p ==> k == i)
                &&& (i > p ==> k + 1 == i)
            },
            k <= dd.len(),
            dd.len() < n + 1,
            acc == digits_val(dd.take(k as int)),
            acc < MANTISSA_LIMIT,
            all_digits(dd),
        decreases n - i,
    {
        let skip_this = match dot {
            Some(p) => i == p,
            None => false,
        };
        if !skip_this {
            let c = s.get_char(i);
            proof {
                if dot is Some {
                    let p = dot->Some_0 as int;
                    if i < p {
                        assert(dd[k as int] == s@.take(p)[i as int]);
                    } else {
                        assert(dd[k as int] == s@.skip(p + 1)[i - p - 1]);
                    }
                } else {
                    assert(dd[k as int] == s@[i as int]);
                }
                assert(dd[k as int] == s@[i as int]);
                assert(is_digit(dd[k as int]));
            }
            let code = c as u32;
            let d_val = (code - 48) as u128;
            proof {
                assert(d_val == digit_val(dd[k as int]));
                assert(dd.take(k as int + 1).drop_last() =~= dd.take(k as int));
                assert(dd.take(k as int + 1).last() == dd[k as int]);
            }
            let ghost next_val = digits_val(dd.take(k as int + 1));
            proof {
                assert(next_val == acc * 10 + d_val);
            }
            let shifted = match acc.checked_mul(10) {
                Some(t) => t,
                None => {
                    proof {
                        lemma_digits_val_prefix(dd, k as int + 1);
                    }
                    return None;
                },
            };
            let next = match shifted.checked_add(d_val) {
                Some(t) => t,
                None => {
                    proof {
                        lemma_digits_val_prefix(dd, k as int + 1);
                    }
                    return None;
                },
            };
            if next >= MANTISSA_LIMIT {
                proof {
                    lemma_digits_val_prefix(dd, k as int + 1);
                }
                return None;
            }
            acc = next;
            k = k + 1;
        }
        i = i + 1;
    }
    proof {
        assert(dd.take(k as int) =~= dd);
    }
    Some(Dec { mantissa: acc, scale })
}

} // verus!
