//! The number and boolean engine: exact `true`/`false` literals, integers
//! in four radices with underscore separators, and floats, including the
//! `inf` and `nan` special literals.
//!
//! A float literal is kept as its cleaned text (underscores stripped); the
//! grammar and the 64-bit range check for integers are decided here.
use vstd::prelude::*;

use crate::scan::{hex_digit_val, hex_digit_value, is_digit, is_hexdigit, pow10, spec_is_digit, spec_is_hexdigit};
use crate::value::{FloatModel, FloatValue};

verus! {

/// Whether `c` is a digit of the given radix (2, 8, 10 or 16).
pub open spec fn radix_ok(c: char, radix: int) -> bool {
    if radix == 16 {
        spec_is_hexdigit(c)
    } else if radix == 8 {
        48 <= c as u32 <= 55
    } else if radix == 2 {
        c == '0' || c == '1'
    } else {
        spec_is_digit(c)
    }
}

/// The end of a digit run of the given radix starting at `pos`: at least
/// one digit, with single underscores permitted between digits, never
/// leading, trailing or doubled.
pub open spec fn spec_run_end(s: Seq<char>, pos: int, radix: int) -> Option<int>
    decreases s.len() - pos, 1int,
{
    if 0 <= pos < s.len() && radix_ok(s[pos], radix) {
        spec_run_rest(s, pos + 1, radix)
    } else {
        None
    }
}

/// The rest of a digit run: digits and underscore-digit pairs.
pub open spec fn spec_run_rest(s: Seq<char>, pos: int, radix: int) -> Option<int>
    decreases s.len() - pos, 0int,
{
    if 0 <= pos < s.len() && radix_ok(s[pos], radix) {
        spec_run_rest(s, pos + 1, radix)
    } else if 0 <= pos < s.len() && s[pos] == '_' {
        if pos + 1 < s.len() && radix_ok(s[pos + 1], radix) {
            spec_run_rest(s, pos + 2, radix)
        } else {
            None
        }
    } else {
        Some(pos)
    }
}

/// A digit run stays inside the input and is not empty.
pub proof fn lemma_run_rest_bounds(s: Seq<char>, pos: int, radix: int)
    requires
        0 <= pos <= s.len(),
    ensures
        spec_run_rest(s, pos, radix) matches Some(e) ==> pos <= e <= s.len(),
    decreases s.len() - pos,
{
    if 0 <= pos < s.len() && radix_ok(s[pos], radix) {
        lemma_run_rest_bounds(s, pos + 1, radix);
    } else if 0 <= pos < s.len() && s[pos] == '_' && pos + 1 < s.len() && radix_ok(
        s[pos + 1],
        radix,
    ) {
        lemma_run_rest_bounds(s, pos + 2, radix);
    }
}

/// The value of the digits of `s[a..b]`, underscores skipped, in the given
/// radix.
pub open spec fn spec_run_value(s: Seq<char>, a: int, b: int, radix: int) -> int
    decreases b - a,
{
    if b <= a {
        0
    } else if s[b - 1] == '_' {
        spec_run_value(s, a, b - 1, radix)
    } else {
        spec_run_value(s, a, b - 1, radix) * radix + hex_digit_val(s[b - 1])
    }
}

/// A run value is never negative.
pub proof fn lemma_run_value_nonneg(s: Seq<char>, a: int, b: int, radix: int)
    requires
        radix >= 2,
        forall|k: int| a <= k < b ==> s[k] == '_' || radix_ok(#[trigger] s[k], radix),
    ensures
        spec_run_value(s, a, b, radix) >= 0,
    decreases b - a,
{
    if b > a {
        lemma_run_value_nonneg(s, a, b - 1, radix);
        if s[b - 1] != '_' {
            let x = spec_run_value(s, a, b - 1, radix);
            assert(x * radix >= 0) by (nonlinear_arith)
                requires
                    x >= 0,
                    radix >= 2,
            ;
            assert(hex_digit_val(s[b - 1]) >= 0);
        }
    }
}

/// Extending a run to the right never lowers its value.
pub proof fn lemma_run_value_mono(s: Seq<char>, a: int, c: int, b: int, radix: int)
    requires
        radix >= 2,
        a <= c <= b,
        forall|k: int| a <= k < b ==> s[k] == '_' || radix_ok(#[trigger] s[k], radix),
    ensures
        spec_run_value(s, a, b, radix) >= spec_run_value(s, a, c, radix),
    decreases b - c,
{
    if c < b {
        lemma_run_value_mono(s, a, c, b - 1, radix);
        lemma_run_value_nonneg(s, a, b - 1, radix);
        if s[b - 1] != '_' {
            let x = spec_run_value(s, a, b - 1, radix);
            assert(x * radix >= x) by (nonlinear_arith)
                requires
                    x >= 0,
                    radix >= 2,
            ;
        }
    }
}

/// If `x` is at most `y / r`, then `x * r` is at most `y`.
proof fn lemma_div_mul_le(x: int, y: int, r: int)
    requires
        r > 0,
        y >= 0,
        x <= y / r,
    ensures
        x * r <= y,
{
    vstd::arithmetic::div_mod::lemma_fundamental_div_mod(y, r);
    assert(x * r <= y) by (nonlinear_arith)
        requires
            r > 0,
            x <= y / r,
            y == r * (y / r) + y % r,
            y % r >= 0,
    ;
}

/// If `x` exceeds `y / r`, then `x * r` exceeds `y`.
proof fn lemma_div_mul_gt(x: int, y: int, r: int)
    requires
        r > 0,
        y >= 0,
        x > y / r,
    ensures
        x * r > y,
{
    vstd::arithmetic::div_mod::lemma_fundamental_div_mod(y, r);
    assert(x * r > y) by (nonlinear_arith)
        requires
            r > 0,
            x > y / r,
            y == r * (y / r) + y % r,
            y % r < r,
    ;
}

/// Executable digit test for a radix.
fn radix_digit(c: char, radix: u64) -> (r: bool)
    requires
        radix == 2 || radix == 8 || radix == 10 || radix == 16,
    ensures
        r == radix_ok(c, radix as int),
{
    if radix == 16 {
        is_hexdigit(c)
    } else if radix == 8 {
        let u = c as u32;
        48 <= u && u <= 55
    } else if radix == 2 {
        c == '0' || c == '1'
    } else {
        is_digit(c)
    }
}

/// Scan a digit run of the given radix at `pos`: its end, or nothing where
/// no digit starts the run or an underscore stands wrongly.
fn run_end(v: &Vec<char>, pos: usize, radix: u64) -> (r: Option<usize>)
    requires
        pos <= v.len(),
        radix == 2 || radix == 8 || radix == 10 || radix == 16,
    ensures
        match r {
            Some(e) => spec_run_end(v@, pos as int, radix as int) == Some(e as int) && pos < e
                <= v.len(),
            None => spec_run_end(v@, pos as int, radix as int) is None,
        },
{
    if pos >= v.len() || !radix_digit(v[pos], radix) {
        return None;
    }
    let mut p = pos + 1;
    loop
        invariant
            pos < p <= v.len(),
            radix == 2 || radix == 8 || radix == 10 || radix == 16,
            spec_run_end(v@, pos as int, radix as int) == spec_run_rest(v@, p as int, radix as int),
        decreases v.len() - p,
    {
        if p < v.len() && radix_digit(v[p], radix) {
            p = p + 1;
        } else if p < v.len() && v[p] == '_' {
            if p + 1 < v.len() && radix_digit(v[p + 1], radix) {
                p = p + 2;
            } else {
                return None;
            }
        } else {
            return Some(p);
        }
    }
}

/// Accumulate the value of the digit run `v[a..b]`, underscores skipped;
/// nothing when the value exceeds `limit`.
fn run_value(v: &Vec<char>, a: usize, b: usize, radix: u64, limit: u64) -> (r: Option<u64>)
    requires
        a <= b <= v.len(),
        radix == 2 || radix == 8 || radix == 10 || radix == 16,
        limit <= 0x8000_0000_0000_0000,
        forall|k: int| a <= k < b ==> v@[k] == '_' || radix_ok(#[trigger] v@[k], radix as int),
    ensures
        match r {
            Some(x) => x == spec_run_value(v@, a as int, b as int, radix as int) && x <= limit,
            None => spec_run_value(v@, a as int, b as int, radix as int) > limit,
        },
{
    let mut p = a;
    let mut acc: u64 = 0;
    while p < b
        invariant
            a <= p <= b <= v.len(),
            radix == 2 || radix == 8 || radix == 10 || radix == 16,
            limit <= 0x8000_0000_0000_0000,
            forall|k: int| a <= k < b ==> v@[k] == '_' || radix_ok(#[trigger] v@[k], radix as int),
            acc == spec_run_value(v@, a as int, p as int, radix as int),
            acc <= limit,
        decreases b - p,
    {
        let c = v[p];
        if c == '_' {
            p = p + 1;
        } else {
            let d = if radix == 16 {
                hex_digit_value(c) as u64
            } else {
                // The digits of the smaller radices are decimal digits.
                (c as u32 - 48) as u64
            };
            proof {
                assert(d == hex_digit_val(v@[p as int]));
                assert(d < radix);
            }
            if d > limit {
                proof {
                    lemma_run_value_nonneg(v@, a as int, p as int, radix as int);
                    let x = spec_run_value(v@, a as int, p as int, radix as int);
                    assert(x * radix >= 0) by (nonlinear_arith)
                        requires
                            x >= 0,
                            radix >= 2,
                    ;
                    lemma_run_value_mono(v@, a as int, p as int + 1, b as int, radix as int);
                }
                return None;
            }
            if acc > (limit - d) / radix {
                proof {
                    lemma_div_mul_gt(acc as int, (limit - d) as int, radix as int);
                    lemma_run_value_mono(v@, a as int, p as int + 1, b as int, radix as int);
                }
                return None;
            }
            proof {
                lemma_div_mul_le(acc as int, (limit - d) as int, radix as int);
            }
            acc = acc * radix + d;
            p = p + 1;
        }
    }
    Some(acc)
}

/// A boolean literal at `pos`: exactly `true` or `false`.
pub open spec fn spec_parse_bool(s: Seq<char>, pos: int) -> Option<(bool, int)> {
    if pos + 4 <= s.len() && s[pos] == 't' && s[pos + 1] == 'r' && s[pos + 2] == 'u' && s[pos + 3]
        == 'e' {
        Some((true, pos + 4))
    } else if pos + 5 <= s.len() && s[pos] == 'f' && s[pos + 1] == 'a' && s[pos + 2] == 'l' && s[pos
        + 3] == 's' && s[pos + 4] == 'e' {
        Some((false, pos + 5))
    } else {
        None
    }
}

/// Parse a boolean literal.
pub fn parse_bool(v: &Vec<char>, pos: usize) -> (r: Option<(bool, usize)>)
    requires
        pos <= v.len(),
    ensures
        match r {
            Some((b, e)) => spec_parse_bool(v@, pos as int) == Some((b, e as int)) && pos < e
                <= v.len(),
            None => spec_parse_bool(v@, pos as int) is None,
        },
{
    if pos < v.len() && pos + 1 < v.len() && pos + 2 < v.len() && pos + 3 < v.len() && v[pos] == 't'
        && v[pos + 1] == 'r' && v[pos + 2] == 'u' && v[pos + 3] == 'e' {
        Some((true, pos + 4))
    } else if pos < v.len() && pos + 1 < v.len() && pos + 2 < v.len() && pos + 3 < v.len() && pos
        + 4 < v.len() && v[pos] == 'f' && v[pos + 1] == 'a' && v[pos + 2] == 'l' && v[pos + 3]
        == 's' && v[pos + 4] == 'e' {
        Some((false, pos + 5))
    } else {
        None
    }
}

/// The end of the decimal integer run at `pos`: a lone zero, or a nonzero
/// digit followed by digits and underscore-digit pairs.
pub open spec fn spec_dec_run_end(s: Seq<char>, pos: int) -> Option<int> {
    if 0 <= pos < s.len() && s[pos] == '0' {
        Some(pos + 1)
    } else {
        spec_run_end(s, pos, 10)
    }
}

/// Scan the decimal integer run at `pos`.
fn dec_run_end(v: &Vec<char>, pos: usize) -> (r: Option<usize>)
    requires
        pos <= v.len(),
    ensures
        match r {
            Some(e) => spec_dec_run_end(v@, pos as int) == Some(e as int) && pos < e <= v.len(),
            None => spec_dec_run_end(v@, pos as int) is None,
        },
{
    if pos < v.len() && v[pos] == '0' {
        Some(pos + 1)
    } else {
        run_end(v, pos, 10)
    }
}

/// An integer literal at `pos`: an optional sign and an unsigned decimal,
/// or an unsigned radix form `0x`, `0o` or `0b`; its 64-bit signed value
/// and the position after the run.  A value outside the 64-bit signed
/// range yields nothing.
pub open spec fn spec_parse_integer(s: Seq<char>, pos: int) -> Option<(i64, int)> {
    if pos + 2 <= s.len() && s[pos] == '0' && s[pos + 1] == 'x' {
        spec_radix_result(s, pos + 2, 16)
    } else if pos + 2 <= s.len() && s[pos] == '0' && s[pos + 1] == 'o' {
        spec_radix_result(s, pos + 2, 8)
    } else if pos + 2 <= s.len() && s[pos] == '0' && s[pos + 1] == 'b' {
        spec_radix_result(s, pos + 2, 2)
    } else {
        let negative = pos < s.len() && s[pos] == '-';
        let p = if pos < s.len() && (s[pos] == '+' || s[pos] == '-') {
            pos + 1
        } else {
            pos
        };
        match spec_dec_run_end(s, p) {
            None => None,
            Some(e) => {
                let m = spec_run_value(s, p, e, 10);
                if negative {
                    if m <= 0x8000_0000_0000_0000 {
                        Some(((-m) as i64, e))
                    } else {
                        None
                    }
                } else {
                    if m <= 0x7fff_ffff_ffff_ffff {
                        Some((m as i64, e))
                    } else {
                        None
                    }
                }
            },
        }
    }
}

/// The value of an unsigned radix run at `pos`, within the positive 64-bit
/// signed range.
pub open spec fn spec_radix_result(s: Seq<char>, pos: int, radix: int) -> Option<(i64, int)> {
    match spec_run_end(s, pos, radix) {
        None => None,
        Some(e) => {
            let m = spec_run_value(s, pos, e, radix);
            if m <= 0x7fff_ffff_ffff_ffff {
                Some((m as i64, e))
            } else {
                None
            }
        },
    }
}

/// Every character of a scanned run is a digit of the radix or an
/// underscore.
proof fn lemma_run_chars(s: Seq<char>, pos: int, radix: int)
    requires
        0 <= pos <= s.len(),
    ensures
        spec_run_rest(s, pos, radix) matches Some(e) ==> forall|k: int|
            pos <= k < e ==> s[k] == '_' || radix_ok(#[trigger] s[k], radix),
    decreases s.len() - pos,
{
    if 0 <= pos < s.len() && radix_ok(s[pos], radix) {
        lemma_run_chars(s, pos + 1, radix);
    } else if 0 <= pos < s.len() && s[pos] == '_' && pos + 1 < s.len() && radix_ok(
        s[pos + 1],
        radix,
    ) {
        lemma_run_chars(s, pos + 2, radix);
    }
}

/// Every character of a scanned decimal integer run is a digit or an
/// underscore.
proof fn lemma_dec_run_chars(s: Seq<char>, p: int, ie: int)
    requires
        0 <= p,
        spec_dec_run_end(s, p) == Some(ie),
    ensures
        p <= ie <= s.len(),
        forall|k: int| p <= k < ie ==> s[k] == '_' || radix_ok(#[trigger] s[k], 10),
{
    if 0 <= p < s.len() && s[p] == '0' {
    } else {
        lemma_run_rest_bounds(s, p + 1, 10);
        lemma_run_chars(s, p + 1, 10);
    }
}

/// Every character of a fraction digit run is a digit or an underscore.
proof fn lemma_frac_run_chars(s: Seq<char>, p: int, fe: int)
    requires
        0 <= p,
        spec_run_end(s, p, 10) == Some(fe),
    ensures
        p <= fe <= s.len(),
        forall|k: int| p <= k < fe ==> s[k] == '_' || radix_ok(#[trigger] s[k], 10),
{
    lemma_run_rest_bounds(s, p + 1, 10);
    lemma_run_chars(s, p + 1, 10);
}

/// Parse the unsigned radix body (after `0x`, `0o` or `0b`).
fn parse_radix_body(v: &Vec<char>, pos: usize, radix: u64) -> (r: Option<(i64, usize)>)
    requires
        pos <= v.len(),
        radix == 2 || radix == 8 || radix == 16,
    ensures
        match r {
            Some((x, e)) => spec_radix_result(v@, pos as int, radix as int) == Some(
                (x, e as int),
            ) && pos <= e <= v.len(),
            None => spec_radix_result(v@, pos as int, radix as int) is None,
        },
{
    let e = match run_end(v, pos, radix) {
        Some(e) => e,
        None => {
            return None;
        },
    };
    proof {
        if 0 <= pos < v@.len() && radix_ok(v@[pos as int], radix as int) {
            lemma_run_chars(v@, pos as int + 1, radix as int);
        }
    }
    match run_value(v, pos, e, radix, 0x7fff_ffff_ffff_ffff) {
        Some(m) => Some((m as i64, e)),
        None => None,
    }
}

/// Parse an integer literal at `pos`: its value and the position after it.
pub fn parse_integer(v: &Vec<char>, pos: usize) -> (r: Option<(i64, usize)>)
    requires
        pos <= v.len(),
    ensures
        match r {
            Some((x, e)) => spec_parse_integer(v@, pos as int) == Some((x, e as int)) && pos < e
                <= v.len(),
            None => spec_parse_integer(v@, pos as int) is None,
        },
{
    if pos < v.len() && pos + 1 < v.len() && v[pos] == '0' && v[pos + 1] == 'x' {
        match parse_radix_body(v, pos + 2, 16) {
            Some((x, e)) => Some((x, e)),
            None => None,
        }
    } else if pos < v.len() && pos + 1 < v.len() && v[pos] == '0' && v[pos + 1] == 'o' {
        match parse_radix_body(v, pos + 2, 8) {
            Some((x, e)) => Some((x, e)),
            None => None,
        }
    } else if pos < v.len() && pos + 1 < v.len() && v[pos] == '0' && v[pos + 1] == 'b' {
        match parse_radix_body(v, pos + 2, 2) {
            Some((x, e)) => Some((x, e)),
            None => None,
        }
    } else {
        let negative = pos < v.len() && v[pos] == '-';
        let p = if pos < v.len() && (v[pos] == '+' || v[pos] == '-') {
            pos + 1
        } else {
            pos
        };
        let e = match dec_run_end(v, p) {
            Some(e) => e,
            None => {
                return None;
            },
        };
        proof {
            if !(0 <= p < v@.len() && v@[p as int] == '0') {
                if 0 <= p < v@.len() && radix_ok(v@[p as int], 10) {
                    lemma_run_chars(v@, p as int + 1, 10);
                }
            } else {
                assert(forall|k: int|
                    p <= k < e ==> v@[k] == '_' || radix_ok(#[trigger] v@[k], 10));
            }
        }
        let limit: u64 = if negative {
            0x8000_0000_0000_0000
        } else {
            0x7fff_ffff_ffff_ffff
        };
        let m = match run_value(v, p, e, 10, limit) {
            Some(m) => m,
            None => {
                return None;
            },
        };
        if negative {
            if m == 0x8000_0000_0000_0000 {
                Some((i64::MIN, e))
            } else {
                Some((-(m as i64), e))
            }
        } else {
            Some((m as i64, e))
        }
    }
}

/// The characters of `s[a..b]` with every underscore removed.
pub open spec fn strip_underscores(s: Seq<char>, a: int, b: int) -> Seq<char>
    decreases b - a,
{
    if b <= a {
        Seq::empty()
    } else if s[b - 1] == '_' {
        strip_underscores(s, a, b - 1)
    } else {
        strip_underscores(s, a, b - 1).push(s[b - 1])
    }
}

/// Copy `v[a..b]` into characters, dropping underscores.
fn strip_run_chars(v: &Vec<char>, a: usize, b: usize) -> (r: Vec<char>)
    requires
        a <= b <= v.len(),
    ensures
        r@ == strip_underscores(v@, a as int, b as int),
{
    let mut out: Vec<char> = Vec::new();
    let mut p = a;
    while p < b
        invariant
            a <= p <= b <= v.len(),
            out@ == strip_underscores(v@, a as int, p as int),
        decreases b - p,
    {
        let c = v[p];
        if !(c == '_') {
            out.push(c);
        }
        p = p + 1;
    }
    out
}

/// Copy `v[a..b]`, dropping underscores.
fn strip_run(v: &Vec<char>, a: usize, b: usize) -> (r: String)
    requires
        a <= b <= v.len(),
    ensures
        r@ == strip_underscores(v@, a as int, b as int),
{
    let out = strip_run_chars(v, a, b);
    crate::scan::string_from_chars(&out)
}


/// The decimal digits of the least magnitude whose conversion to a 64-bit
/// binary floating-point value rounds to infinity under round-to-nearest.
pub open spec fn overflow_cutoff_digits() -> Seq<char> {
    "179769313486231580793728971405303415079934132710037826936173778980444968292764750946649017977587207096330286416692887910946555547851940402630657488671505820681908902000708383676273854845817711531764475730270069855571366959622842914819860834936475292719074168444365510704342711559699508093042880177904174497792"@
}

/// `s` without its leading zero digits.
pub open spec fn strip_leading_zeros(s: Seq<char>) -> Seq<char>
    decreases s.len(),
{
    if s.len() > 0 && s[0] == '0' {
        strip_leading_zeros(s.drop_first())
    } else {
        s
    }
}

/// Whether the number written with digits `d` (padded with zeros on the
/// right) is at least the one written with digits `c`, comparing from
/// position `i` on.
pub open spec fn seq_ge_padded(d: Seq<char>, c: Seq<char>, i: int) -> bool
    decreases c.len() - i,
{
    if i < 0 || i >= c.len() {
        true
    } else {
        let dc = if i < d.len() {
            d[i]
        } else {
            '0'
        };
        if (dc as u32) > (c[i] as u32) {
            true
        } else if (dc as u32) < (c[i] as u32) {
            false
        } else {
            seq_ge_padded(d, c, i + 1)
        }
    }
}

/// Whether the finite decimal literal with significant digits `mant` (the
/// last `fraclen` of them fractional) and exponent `e` reaches the
/// overflow cutoff: its magnitude is `mant` read as an integer, scaled by
/// ten to `e - fraclen`, and it overflows exactly when that magnitude is
/// at least the cutoff.
pub open spec fn float_overflows(mant: Seq<char>, fraclen: int, e: int) -> bool {
    let m = strip_leading_zeros(mant);
    if m.len() == 0 {
        false
    } else {
        let n = m.len() + e - fraclen;
        n > 309 || (n == 309 && seq_ge_padded(m, overflow_cutoff_digits(), 0))
    }
}

/// The signed value of an exponent part: an optional sign at `pos`, then
/// the digit run ending at `ee`.
pub open spec fn spec_exp_value(s: Seq<char>, pos: int, ee: int) -> int {
    let neg = 0 <= pos < s.len() && s[pos] == '-';
    let q = if 0 <= pos < s.len() && (s[pos] == '+' || s[pos] == '-') {
        pos + 1
    } else {
        pos
    };
    let v = spec_run_value(s, q, ee, 10);
    if neg {
        -v
    } else {
        v
    }
}

/// The outcome of a finite float literal over its spans: the sign and
/// integer part start at `pos` and `p`, the integer digits end at `ie`,
/// the fraction digits (when present) end at `fe`, the exponent (when
/// present) follows the marker at `xat` and runs to `end`.  A literal
/// whose conversion would overflow to infinity yields nothing.
pub open spec fn spec_float_finite(
    s: Seq<char>,
    pos: int,
    p: int,
    ie: int,
    has_frac: bool,
    fe: int,
    has_exp: bool,
    xat: int,
    end: int,
) -> Option<(FloatModel, int)> {
    let intpart = strip_underscores(s, p, ie);
    let fracpart = if has_frac {
        strip_underscores(s, ie + 1, fe)
    } else {
        Seq::empty()
    };
    let e = if has_exp {
        spec_exp_value(s, xat + 1, end)
    } else {
        0
    };
    if float_overflows(intpart + fracpart, fracpart.len() as int, e) {
        None
    } else {
        Some((FloatModel::Finite(strip_underscores(s, pos, end)), end))
    }
}

/// The end of an exponent part body at `pos`: an optional sign, then a
/// digit run (leading zeros permitted).
pub open spec fn spec_exp_run(s: Seq<char>, pos: int) -> Option<int> {
    let p = if 0 <= pos < s.len() && (s[pos] == '+' || s[pos] == '-') {
        pos + 1
    } else {
        pos
    };
    spec_run_end(s, p, 10)
}

/// A special float literal at `pos`: an optional sign, then `inf` or
/// `nan`.
pub open spec fn spec_parse_special(s: Seq<char>, pos: int) -> Option<(FloatModel, int)> {
    let negative = 0 <= pos < s.len() && s[pos] == '-';
    let p = if 0 <= pos < s.len() && (s[pos] == '+' || s[pos] == '-') {
        pos + 1
    } else {
        pos
    };
    if p + 3 <= s.len() && s[p] == 'i' && s[p + 1] == 'n' && s[p + 2] == 'f' {
        Some((FloatModel::Infinite(negative), p + 3))
    } else if p + 3 <= s.len() && s[p] == 'n' && s[p + 1] == 'a' && s[p + 2] == 'n' {
        Some((FloatModel::NotANumber, p + 3))
    } else {
        None
    }
}

/// A float literal at `pos`: a decimal integer part followed by a fraction
/// and/or an exponent, or a signed `inf`/`nan` special literal.  A finite
/// literal is kept as its text with underscores stripped.
pub open spec fn spec_parse_float(s: Seq<char>, pos: int) -> Option<(FloatModel, int)> {
    let p = if 0 <= pos < s.len() && (s[pos] == '+' || s[pos] == '-') {
        pos + 1
    } else {
        pos
    };
    let numeric = match spec_dec_run_end(s, p) {
        None => None,
        Some(ie) => {
            if ie < s.len() && (s[ie] == 'e' || s[ie] == 'E') {
                match spec_exp_run(s, ie + 1) {
                    Some(ee) => spec_float_finite(s, pos, p, ie, false, ie, true, ie, ee),
                    None => None,
                }
            } else if ie < s.len() && s[ie] == '.' {
                match spec_run_end(s, ie + 1, 10) {
                    None => None,
                    Some(fe) => {
                        if fe < s.len() && (s[fe] == 'e' || s[fe] == 'E') {
                            match spec_exp_run(s, fe + 1) {
                                Some(ee) => spec_float_finite(
                                    s,
                                    pos,
                                    p,
                                    ie,
                                    true,
                                    fe,
                                    true,
                                    fe,
                                    ee,
                                ),
                                None => None,
                            }
                        } else {
                            spec_float_finite(s, pos, p, ie, true, fe, false, fe, fe)
                        }
                    },
                }
            } else {
                None
            }
        },
    };
    match numeric {
        Some(r) => Some(r),
        None => spec_parse_special(s, pos),
    }
}


/// The run value over underscored digits equals the digit value of the
/// stripped copy.
proof fn lemma_run_value_strip(s: Seq<char>, a: int, b: int)
    requires
        0 <= a <= b <= s.len(),
        forall|k: int| a <= k < b ==> s[k] == '_' || radix_ok(#[trigger] s[k], 10),
    ensures
        crate::scan::digits_at(
            strip_underscores(s, a, b),
            0,
            strip_underscores(s, a, b).len() as int,
        ),
        spec_run_value(s, a, b, 10) == crate::scan::digits_value(
            strip_underscores(s, a, b),
            0,
            strip_underscores(s, a, b).len() as int,
        ),
    decreases b - a,
{
    if b > a {
        lemma_run_value_strip(s, a, b - 1);
        let t0 = strip_underscores(s, a, b - 1);
        let t1 = strip_underscores(s, a, b);
        if s[b - 1] == '_' {
            assert(t1 == t0);
        } else {
            assert(t1 == t0.push(s[b - 1]));
            assert(spec_is_digit(s[b - 1]));
            assert forall|k: int| 0 <= k < t1.len() implies spec_is_digit(#[trigger] t1[k]) by {
                if k < t0.len() {
                    assert(t1[k] == t0[k]);
                }
            }
            crate::datetime::lemma_digits_value_congruence(t1, t0, 0, 0, t0.len() as int);
            assert(crate::scan::digits_value(t1, 0, t1.len() as int) == crate::scan::digits_value(
                t1,
                0,
                t1.len() as int - 1,
            ) * 10 + crate::scan::digit_val(t1[t1.len() - 1]));
            assert(crate::scan::digit_val(s[b - 1]) == hex_digit_val(s[b - 1]));
        }
    } else {
        assert(strip_underscores(s, a, b) =~= Seq::<char>::empty());
    }
}

/// A leading zero digit does not change a digit value.
proof fn lemma_leading_zero_value(s: Seq<char>, a: int, n: int)
    requires
        0 <= a,
        a + n <= s.len(),
        n >= 1,
        s[a] == '0',
    ensures
        crate::scan::digits_value(s, a, n) == crate::scan::digits_value(s, a + 1, n - 1),
    decreases n,
{
    if n == 1 {
        assert(crate::scan::digits_value(s, a, 0) == 0);
        assert(crate::scan::digits_value(s, a + 1, 0) == 0);
        assert(crate::scan::digit_val(s[a]) == 0);
        assert(crate::scan::digits_value(s, a, 1) == crate::scan::digits_value(s, a, 0) * 10
            + crate::scan::digit_val(s[a]));
    } else {
        lemma_leading_zero_value(s, a, n - 1);
        assert(crate::scan::digits_value(s, a, n) == crate::scan::digits_value(s, a, n - 1) * 10
            + crate::scan::digit_val(s[a + n - 1]));
        assert(crate::scan::digits_value(s, a + 1, n - 1) == crate::scan::digits_value(
            s,
            a + 1,
            n - 2,
        ) * 10 + crate::scan::digit_val(s[a + 1 + (n - 1) - 1]));
        assert(a + 1 + (n - 1) - 1 == a + n - 1);
    }
}

/// Dropping all leading zeros keeps the digit value.
proof fn lemma_leading_zeros_value(s: Seq<char>, a: int, n: int, z: int)
    requires
        0 <= a,
        a + n <= s.len(),
        0 <= z <= n,
        forall|k: int| a <= k < a + z ==> #[trigger] s[k] == '0',
    ensures
        crate::scan::digits_value(s, a, n) == crate::scan::digits_value(s, a + z, n - z),
    decreases z,
{
    if z > 0 {
        assert(s[a] == '0');
        lemma_leading_zero_value(s, a, n);
        lemma_leading_zeros_value(s, a + 1, n - 1, z - 1);
    }
}

/// The stripped form of a sequence is its suffix past the leading zeros.
proof fn lemma_strip_leading_zeros_skip(s: Seq<char>, k: int)
    requires
        0 <= k <= s.len(),
        forall|j: int| 0 <= j < k ==> #[trigger] s[j] == '0',
        k == s.len() || s[k] != '0',
    ensures
        strip_leading_zeros(s) == s.skip(k),
    decreases k,
{
    if k == 0 {
        assert(s.skip(0) =~= s);
    } else {
        assert(s[0] == '0');
        let d = s.drop_first();
        assert forall|j: int| 0 <= j < k - 1 implies #[trigger] d[j] == '0' by {
            assert(d[j] == s[j + 1]);
        }
        if k - 1 < d.len() {
            assert(d[k - 1] == s[k]);
        }
        lemma_strip_leading_zeros_skip(d, k - 1);
        assert(d.skip(k - 1) =~= s.skip(k));
    }
}

/// Decide whether the number written with digits `d` from `from` on,
/// padded with zeros, is at least the one written with the cutoff digits.
fn ge_cutoff(d: &Vec<char>, from: usize) -> (r: bool)
    requires
        from <= d.len(),
    ensures
        r == seq_ge_padded(d@.skip(from as int), overflow_cutoff_digits(), 0),
{
    let cutoff = crate::scan::chars_vec(
        "179769313486231580793728971405303415079934132710037826936173778980444968292764750946649017977587207096330286416692887910946555547851940402630657488671505820681908902000708383676273854845817711531764475730270069855571366959622842914819860834936475292719074168444365510704342711559699508093042880177904174497792",
    );
    proof {
        reveal_strlit(
            "179769313486231580793728971405303415079934132710037826936173778980444968292764750946649017977587207096330286416692887910946555547851940402630657488671505820681908902000708383676273854845817711531764475730270069855571366959622842914819860834936475292719074168444365510704342711559699508093042880177904174497792",
        );
    }
    let n = cutoff.len();
    let mut i: usize = 0;
    loop
        invariant
            i <= n,
            from <= d.len(),
            n == overflow_cutoff_digits().len(),
            cutoff@ == overflow_cutoff_digits(),
            seq_ge_padded(d@.skip(from as int), overflow_cutoff_digits(), 0) == seq_ge_padded(
                d@.skip(from as int),
                overflow_cutoff_digits(),
                i as int,
            ),
        decreases n - i,
    {
        if i >= n {
            return true;
        }
        let dc: char = if from < d.len() && i < d.len() - from {
            d[from + i]
        } else {
            '0'
        };
        proof {
            if (i as int) < d@.skip(from as int).len() {
                assert(d@.skip(from as int)[i as int] == d@[from as int + i as int]);
            }
        }
        let cc = cutoff[i];
        if (dc as u32) > (cc as u32) {
            return true;
        }
        if (dc as u32) < (cc as u32) {
            return false;
        }
        proof {
            vstd::utf8::char_u32_cast(dc, dc as u32);
            vstd::utf8::char_u32_cast(cc, cc as u32);
        }
        i = i + 1;
    }
}

/// Decide whether a finite literal overflows, from its spans: integer
/// digits in `p..ie`, fraction digits in `ie+1..fe` where present, and
/// the exponent after `xat` up to `end` where present.
fn float_overflow_check(
    v: &Vec<char>,
    p: usize,
    ie: usize,
    has_frac: bool,
    fe: usize,
    has_exp: bool,
    xat: usize,
    end: usize,
) -> (r: bool)
    requires
        p <= ie <= v.len(),
        has_frac ==> ie + 1 <= fe <= v.len(),
        has_exp ==> xat + 1 <= end <= v.len(),
        forall|k: int| p <= k < ie ==> v@[k] == '_' || radix_ok(#[trigger] v@[k], 10),
        has_frac ==> forall|k: int|
            ie + 1 <= k < fe ==> v@[k] == '_' || radix_ok(#[trigger] v@[k], 10),
        has_exp ==> spec_exp_run(v@, xat as int + 1) == Some(end as int),
    ensures
        r == float_overflows(
            strip_underscores(v@, p as int, ie as int) + (if has_frac {
                strip_underscores(v@, ie as int + 1, fe as int)
            } else {
                Seq::empty()
            }),
            (if has_frac {
                strip_underscores(v@, ie as int + 1, fe as int).len() as int
            } else {
                0
            }),
            (if has_exp {
                spec_exp_value(v@, xat as int + 1, end as int)
            } else {
                0
            }),
        ),
{
    proof {
        crate::scan::lemma_pow10_values();
        crate::scan::lemma_pow10_large_values();
    }
    let mut mant = strip_run_chars(v, p, ie);
    let ghost intpart = strip_underscores(v@, p as int, ie as int);
    let fraclen: usize = if has_frac {
        let mut f = strip_run_chars(v, ie + 1, fe);
        let fl = f.len();
        mant.append(&mut f);
        fl
    } else {
        0
    };
    let ghost mantissa = intpart + (if has_frac {
        strip_underscores(v@, ie as int + 1, fe as int)
    } else {
        Seq::<char>::empty()
    });
    proof {
        assert(mant@ =~= mantissa);
    }
    let mut k: usize = 0;
    while k < mant.len() && mant[k] == '0'
        invariant
            k <= mant@.len(),
            mant@ == mantissa,
            forall|j: int| 0 <= j < k ==> #[trigger] mant@[j] == '0',
        decreases mant@.len() - k,
    {
        k = k + 1;
    }
    proof {
        lemma_strip_leading_zeros_skip(mantissa, k as int);
    }
    let siglen = mant.len() - k;
    if siglen == 0 {
        proof {
            assert(strip_leading_zeros(mantissa).len() == 0);
        }
        return false;
    }
    let ghost e_exact: int = if has_exp {
        spec_exp_value(v@, xat as int + 1, end as int)
    } else {
        0
    };
    let mut eneg = false;
    let mut e_mag: u128 = 0;
    if has_exp {
        let s0 = xat + 1;
        eneg = s0 < v.len() && v[s0] == '-';
        let q = if s0 < v.len() && (v[s0] == '+' || v[s0] == '-') {
            s0 + 1
        } else {
            s0
        };
        proof {
            lemma_exp_run_chars(v@, xat as int + 1, end as int);
        }
        let digits = strip_run_chars(v, q, end);
        proof {
            lemma_run_value_strip(v@, q as int, end as int);
        }
        let mut z: usize = 0;
        while z < digits.len() && digits[z] == '0'
            invariant
                z <= digits@.len(),
                forall|j: int| 0 <= j < z ==> #[trigger] digits@[j] == '0',
            decreases digits@.len() - z,
        {
            z = z + 1;
        }
        let sig = digits.len() - z;
        proof {
            lemma_leading_zeros_value(digits@, 0, digits@.len() as int, z as int);
        }
        if sig >= 39 {
            // The exponent magnitude dwarfs every other quantity: the
            // literal overflows exactly when it is positive.
            proof {
                crate::scan::lemma_digits_value_lower(digits@, z as int, sig as int);
                crate::scan::lemma_pow10_le(38, (sig - 1) as nat);
                let m = strip_leading_zeros(mantissa);
                assert(m.len() == siglen as int);
                if !eneg {
                    assert(e_exact >= pow10(38));
                    assert(m.len() + e_exact - fraclen > 309);
                } else {
                    assert(-e_exact >= pow10(38));
                    assert(m.len() <= mantissa.len() < pow10(20));
                    assert(m.len() + e_exact - fraclen < 309);
                }
            }
            return !eneg;
        }
        let mut acc: u128 = 0;
        let mut j = z;
        while j < digits.len()
            invariant
                z <= j <= digits@.len(),
                (j - z) <= 38,
                crate::scan::digits_at(digits@, 0, digits@.len() as int),
                acc == crate::scan::digits_value(digits@, z as int, j as int - z),
                acc < pow10((j - z) as nat),
                digits@.len() - z <= 38,
            decreases digits@.len() - j,
        {
            proof {
                crate::scan::lemma_pow10_le((j - z + 1) as nat, 38);
                crate::scan::lemma_pow10_large_values();
                assert(pow10((j - z + 1) as nat) == 10 * pow10((j - z) as nat));
            }
            let dch = digits[j];
            let dv = crate::scan::digit_value(dch) as u128;
            acc = acc * 10 + dv;
            j = j + 1;
        }
        proof {
            assert(acc == crate::scan::digits_value(digits@, 0, digits@.len() as int));
            if eneg {
                assert(e_exact == -(acc as int));
            } else {
                assert(e_exact == acc as int);
            }
        }
        e_mag = acc;
    }
    proof {
        assert(e_mag < pow10(38));
        if eneg {
            assert(e_exact == -(e_mag as int));
        } else {
            assert(e_exact == e_mag as int);
        }
        assert(siglen < pow10(20) && fraclen < pow10(20));
    }
    let n: i128 = if eneg {
        siglen as i128 - e_mag as i128 - fraclen as i128
    } else {
        siglen as i128 + e_mag as i128 - fraclen as i128
    };
    proof {
        assert(n == strip_leading_zeros(mantissa).len() + e_exact - fraclen);
    }
    if n > 309 {
        true
    } else if n == 309 {
        ge_cutoff(&mant, k)
    } else {
        false
    }
}

/// Every character of an exponent part is a digit or an underscore.
proof fn lemma_exp_run_chars(s: Seq<char>, pos: int, ee: int)
    requires
        0 <= pos,
        spec_exp_run(s, pos) == Some(ee),
    ensures
        ({
            let q = if 0 <= pos < s.len() && (s[pos] == '+' || s[pos] == '-') {
                pos + 1
            } else {
                pos
            };
            &&& q <= ee <= s.len()
            &&& forall|k: int| q <= k < ee ==> s[k] == '_' || radix_ok(#[trigger] s[k], 10)
        }),
{
    let q = if 0 <= pos < s.len() && (s[pos] == '+' || s[pos] == '-') {
        pos + 1
    } else {
        pos
    };
    lemma_run_rest_bounds(s, q + 1, 10);
    lemma_run_chars(s, q + 1, 10);
}

/// Parse the optional sign and digit run of an exponent part.
fn exp_run(v: &Vec<char>, pos: usize) -> (r: Option<usize>)
    requires
        pos <= v.len(),
    ensures
        match r {
            Some(e) => spec_exp_run(v@, pos as int) == Some(e as int) && pos < e <= v.len(),
            None => spec_exp_run(v@, pos as int) is None,
        },
{
    let p = if pos < v.len() && (v[pos] == '+' || v[pos] == '-') {
        pos + 1
    } else {
        pos
    };
    run_end(v, p, 10)
}

/// Parse a float literal at `pos`: the kept literal and the position after
/// it.
pub fn parse_float(v: &Vec<char>, pos: usize) -> (r: Option<(FloatValue, usize)>)
    requires
        pos <= v.len(),
    ensures
        match r {
            Some((f, e)) => spec_parse_float(v@, pos as int) == Some(
                (crate::value::float_model(f), e as int),
            ) && pos < e <= v.len(),
            None => spec_parse_float(v@, pos as int) is None,
        },
{
    let p = if pos < v.len() && (v[pos] == '+' || v[pos] == '-') {
        pos + 1
    } else {
        pos
    };
    // The spans of a matched numeric form: integer digits, fraction
    // digits, exponent position, literal end.
    let mut spans: Option<(usize, bool, usize, bool, usize, usize)> = None;
    match dec_run_end(v, p) {
        None => {},
        Some(ie) => {
            if ie < v.len() && (v[ie] == 'e' || v[ie] == 'E') {
                match exp_run(v, ie + 1) {
                    Some(ee) => {
                        spans = Some((ie, false, ie, true, ie, ee));
                    },
                    None => {},
                }
            } else if ie < v.len() && v[ie] == '.' {
                match run_end(v, ie + 1, 10) {
                    None => {},
                    Some(fe) => {
                        if fe < v.len() && (v[fe] == 'e' || v[fe] == 'E') {
                            match exp_run(v, fe + 1) {
                                Some(ee) => {
                                    spans = Some((ie, true, fe, true, fe, ee));
                                },
                                None => {},
                            }
                        } else {
                            spans = Some((ie, true, fe, false, fe, fe));
                        }
                    },
                }
            }
        },
    }
    match spans {
        Some((ie, has_frac, fe, has_exp, xat, end)) => {
            proof {
                lemma_dec_run_chars(v@, p as int, ie as int);
                if has_frac {
                    lemma_frac_run_chars(v@, ie as int + 1, fe as int);
                }
            }
            if float_overflow_check(v, p, ie, has_frac, fe, has_exp, xat, end) {
                parse_special(v, pos)
            } else {
                let text = strip_run(v, pos, end);
                Some((FloatValue::Finite { text }, end))
            }
        },
        None => parse_special(v, pos),
    }
}

/// Parse a signed `inf` or `nan` special literal.
fn parse_special(v: &Vec<char>, pos: usize) -> (r: Option<(FloatValue, usize)>)
    requires
        pos <= v.len(),
    ensures
        match r {
            Some((f, e)) => spec_parse_special(v@, pos as int) == Some(
                (crate::value::float_model(f), e as int),
            ) && pos < e <= v.len(),
            None => spec_parse_special(v@, pos as int) is None,
        },
{
    let negative = pos < v.len() && v[pos] == '-';
    let p = if pos < v.len() && (v[pos] == '+' || v[pos] == '-') {
        pos + 1
    } else {
        pos
    };
    if p < v.len() && p + 1 < v.len() && p + 2 < v.len() && v[p] == 'i' && v[p + 1] == 'n' && v[p
        + 2] == 'f' {
        Some((FloatValue::Infinite { negative }, p + 3))
    } else if p < v.len() && p + 1 < v.len() && p + 2 < v.len() && v[p] == 'n' && v[p + 1] == 'a'
        && v[p + 2] == 'n' {
        Some((FloatValue::NotANumber, p + 3))
    } else {
        None
    }
}

} // verus!
