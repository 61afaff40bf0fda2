//! Character-level groundwork shared by the recognizers: turning the input
//! into an indexable character buffer, building owned strings back out of
//! characters, digit arithmetic, and the few character classifications the
//! grammar needs.
use vstd::prelude::*;
use vstd::string::StrSliceExecFns;

verus! {

/// Relies on `alloc::string::String::push`: appends the given character to
/// the end of the string.
pub assume_specification[ std::string::String::push ](s: &mut String, ch: char)
    ensures
        final (s)@ == old(s)@.push(ch),
;

/// Relies on `core::char::from_u32`: converts the integer to a `char` when
/// it is a Unicode scalar value (not a surrogate, not above 0x10FFFF), and
/// returns `None` otherwise.
pub assume_specification[ char::from_u32 ](i: u32) -> (r: Option<char>)
    ensures
        (i < 0xD800 || (0xDFFF < i && i <= 0x10FFFF)) ==> r == Some(i as char),
        !(i < 0xD800 || (0xDFFF < i && i <= 0x10FFFF)) ==> r is None,
;

/// What `char::is_alphanumeric` returns: whether the character is in one of
/// the Unicode general categories for letters and numbers.  The table is the
/// Unicode character database; the result depends on the character alone.
pub uninterp spec fn char_is_alphanumeric(c: char) -> bool;

/// Relies on `core::char::is_alphanumeric`: a lookup in the Unicode tables
/// for the letter and number general categories.
pub assume_specification[ char::is_alphanumeric ](c: char) -> (r: bool)
    ensures
        r == char_is_alphanumeric(c),
;

/// The characters of the input, one per Unicode scalar value.
pub fn chars_vec(s: &str) -> (v: Vec<char>)
    ensures
        v@ == s@,
{
    let n: usize = s.unicode_len();
    let mut v: Vec<char> = Vec::new();
    let mut i: usize = 0;
    while i < n
        invariant
            i <= n,
            n == s@.len(),
            v@ == s@.subrange(0, i as int),
        decreases n - i,
    {
        let c = s.get_char(i);
        v.push(c);
        assert(v@ =~= s@.subrange(0, i + 1));
        i = i + 1;
    }
    assert(v@ =~= s@);
    v
}

/// An owned string holding exactly the given characters.
pub fn string_from_chars(v: &Vec<char>) -> (s: String)
    ensures
        s@ == v@,
{
    let mut s = String::new();
    let mut i: usize = 0;
    while i < v.len()
        invariant
            i <= v.len(),
            s@ == v@.subrange(0, i as int),
        decreases v.len() - i,
    {
        s.push(v[i]);
        assert(s@ =~= v@.subrange(0, i + 1));
        i = i + 1;
    }
    assert(s@ =~= v@);
    s
}

/// Whether `c` is an ASCII decimal digit.
pub open spec fn spec_is_digit(c: char) -> bool {
    48 <= c as u32 <= 57
}

/// The numeric value of the ASCII digit `c`.
pub open spec fn digit_val(c: char) -> int {
    c as u32 - 48
}

/// ASCII decimal digit test.
pub fn is_digit(c: char) -> (r: bool)
    ensures
        r == spec_is_digit(c),
{
    let u = c as u32;
    48 <= u && u <= 57
}

/// The numeric value of an ASCII digit.
pub fn digit_value(c: char) -> (r: u32)
    requires
        spec_is_digit(c),
    ensures
        r == digit_val(c),
        r <= 9,
{
    c as u32 - 48
}

/// Whether `s[i..i+n]` consists of ASCII digits (and lies inside `s`).
pub open spec fn digits_at(s: Seq<char>, i: int, n: int) -> bool {
    &&& 0 <= i
    &&& i + n <= s.len()
    &&& forall|k: int| i <= k < i + n ==> spec_is_digit(#[trigger] s[k])
}

/// The value of the `n` decimal digits of `s` starting at `i`.
pub open spec fn digits_value(s: Seq<char>, i: int, n: int) -> int
    decreases n,
{
    if n <= 0 {
        0
    } else {
        digits_value(s, i, n - 1) * 10 + digit_val(s[i + n - 1])
    }
}

/// The number of consecutive ASCII digits of `s` starting at `i`.
pub open spec fn count_digits(s: Seq<char>, i: int) -> int
    decreases s.len() - i,
{
    if 0 <= i < s.len() && spec_is_digit(s[i]) {
        1 + count_digits(s, i + 1)
    } else {
        0
    }
}

/// A run of `m` digits at `a`, ended by the input or a non-digit, is exactly
/// what `count_digits` counts.
pub proof fn lemma_count_digits(s: Seq<char>, a: int, m: int)
    requires
        0 <= a,
        0 <= m,
        a + m <= s.len(),
        forall|k: int| a <= k < a + m ==> spec_is_digit(#[trigger] s[k]),
        a + m == s.len() || !spec_is_digit(s[a + m]),
    ensures
        count_digits(s, a) == m,
    decreases m,
{
    if m == 0 {
    } else {
        lemma_count_digits(s, a + 1, m - 1);
    }
}

/// `count_digits` is never negative and stays inside the input.
pub proof fn lemma_count_digits_bounds(s: Seq<char>, a: int)
    requires
        0 <= a <= s.len(),
    ensures
        0 <= count_digits(s, a),
        a + count_digits(s, a) <= s.len(),
        forall|k: int| a <= k < a + count_digits(s, a) ==> spec_is_digit(#[trigger] s[k]),
    decreases s.len() - a,
{
    if a < s.len() && spec_is_digit(s[a]) {
        lemma_count_digits_bounds(s, a + 1);
    }
}

/// Ten to the `n`.
pub open spec fn pow10(n: nat) -> nat
    decreases n,
{
    if n == 0 {
        1nat
    } else {
        10 * pow10((n - 1) as nat)
    }
}

/// `pow10` is positive and weakly increasing.
pub proof fn lemma_pow10_le(a: nat, b: nat)
    requires
        a <= b,
    ensures
        1 <= pow10(a) <= pow10(b),
    decreases b,
{
    if b == 0 {
    } else if a == b {
        lemma_pow10_le(0, (b - 1) as nat);
    } else {
        lemma_pow10_le(a, (b - 1) as nat);
    }
}

/// The value of `pow10` at each exponent up to nine.
pub proof fn lemma_pow10_values()
    ensures
        pow10(0) == 1,
        pow10(1) == 10,
        pow10(2) == 100,
        pow10(3) == 1000,
        pow10(4) == 10000,
        pow10(5) == 100000,
        pow10(6) == 1000000,
        pow10(7) == 10000000,
        pow10(8) == 100000000,
        pow10(9) == 1000000000,
{
    assert(pow10(0) == 1);
    assert(pow10(1) == 10);
    assert(pow10(2) == 100);
    assert(pow10(3) == 1000);
    assert(pow10(4) == 10000);
    assert(pow10(5) == 100000);
    assert(pow10(6) == 1000000);
    assert(pow10(7) == 10000000);
    assert(pow10(8) == 100000000);
    assert(pow10(9) == 1000000000);
}

/// Powers of ten multiply by adding exponents.
pub proof fn lemma_pow10_add(a: nat, b: nat)
    ensures
        pow10(a) * pow10(b) == pow10(a + b),
    decreases a,
{
    if a == 0 {
    } else {
        let p = pow10((a - 1) as nat);
        let q = pow10(b);
        lemma_pow10_add((a - 1) as nat, b);
        assert(((a - 1) as nat) + b == (a + b - 1) as nat);
        assert(p * q == pow10((a + b - 1) as nat));
        assert(pow10(a) == 10 * p);
        assert(pow10(a) * q == (10 * p) * q) by (nonlinear_arith)
            requires
                pow10(a) == 10 * p,
        ;
        assert((10 * p) * q == 10 * (p * q)) by (nonlinear_arith);
        assert(pow10(a + b) == 10 * pow10((a + b - 1) as nat));
    }
}

/// Whether `c` is an ASCII hexadecimal digit.
pub open spec fn spec_is_hexdigit(c: char) -> bool {
    spec_is_digit(c) || (65 <= c as u32 <= 70) || (97 <= c as u32 <= 102)
}

/// The numeric value of the ASCII hexadecimal digit `c`.
pub open spec fn hex_digit_val(c: char) -> int {
    if spec_is_digit(c) {
        c as u32 - 48
    } else if 65 <= c as u32 <= 70 {
        c as u32 - 55
    } else {
        c as u32 - 87
    }
}

/// ASCII hexadecimal digit test.
pub fn is_hexdigit(c: char) -> (r: bool)
    ensures
        r == spec_is_hexdigit(c),
{
    let u = c as u32;
    (48 <= u && u <= 57) || (65 <= u && u <= 70) || (97 <= u && u <= 102)
}

/// The numeric value of an ASCII hexadecimal digit.
pub fn hex_digit_value(c: char) -> (r: u32)
    requires
        spec_is_hexdigit(c),
    ensures
        r == hex_digit_val(c),
        r <= 15,
{
    let u = c as u32;
    if 48 <= u && u <= 57 {
        u - 48
    } else if 65 <= u && u <= 70 {
        u - 55
    } else {
        u - 87
    }
}

/// Whether `s[i..i+n]` consists of ASCII hexadecimal digits.
pub open spec fn hex_at(s: Seq<char>, i: int, n: int) -> bool {
    &&& 0 <= i
    &&& i + n <= s.len()
    &&& forall|k: int| i <= k < i + n ==> spec_is_hexdigit(#[trigger] s[k])
}

/// The value of the `n` hexadecimal digits of `s` starting at `i`.
pub open spec fn hex_value(s: Seq<char>, i: int, n: int) -> int
    decreases n,
{
    if n <= 0 {
        0
    } else {
        hex_value(s, i, n - 1) * 16 + hex_digit_val(s[i + n - 1])
    }
}

/// Sixteen to the `n`.
pub open spec fn pow16(n: nat) -> nat
    decreases n,
{
    if n == 0 {
        1nat
    } else {
        16 * pow16((n - 1) as nat)
    }
}

/// The value of `pow16` at each exponent up to eight.
pub proof fn lemma_pow16_values()
    ensures
        pow16(0) == 1,
        pow16(1) == 0x10,
        pow16(2) == 0x100,
        pow16(3) == 0x1000,
        pow16(4) == 0x10000,
        pow16(5) == 0x100000,
        pow16(6) == 0x1000000,
        pow16(7) == 0x10000000,
        pow16(8) == 0x100000000,
{
    assert(pow16(0) == 1);
    assert(pow16(1) == 0x10);
    assert(pow16(2) == 0x100);
    assert(pow16(3) == 0x1000);
    assert(pow16(4) == 0x10000);
    assert(pow16(5) == 0x100000);
    assert(pow16(6) == 0x1000000);
    assert(pow16(7) == 0x10000000);
    assert(pow16(8) == 0x100000000);
}

/// `pow16` is positive and weakly increasing.
pub proof fn lemma_pow16_le(a: nat, b: nat)
    requires
        a <= b,
    ensures
        1 <= pow16(a) <= pow16(b),
    decreases b,
{
    if b == 0 {
    } else if a == b {
        lemma_pow16_le(0, (b - 1) as nat);
    } else {
        lemma_pow16_le(a, (b - 1) as nat);
    }
}

/// An `n`-digit hexadecimal value is below sixteen to the `n`.
pub proof fn lemma_hex_value_bound(s: Seq<char>, i: int, n: int)
    requires
        hex_at(s, i, n),
        0 <= n,
    ensures
        0 <= hex_value(s, i, n) < pow16(n as nat),
    decreases n,
{
    if n == 0 {
    } else {
        lemma_hex_value_bound(s, i, n - 1);
    }
}

/// Lexicographic order on character sequences, by Unicode scalar value.
pub open spec fn str_lt(a: Seq<char>, b: Seq<char>) -> bool
    decreases a.len(),
{
    if b.len() == 0 {
        false
    } else if a.len() == 0 {
        true
    } else if (a[0] as u32) < (b[0] as u32) {
        true
    } else if a[0] == b[0] {
        str_lt(a.drop_first(), b.drop_first())
    } else {
        false
    }
}

/// Dropping an equal head preserves the lexicographic comparison.
proof fn lemma_str_lt_step(a: Seq<char>, b: Seq<char>)
    requires
        a.len() > 0,
        b.len() > 0,
        a[0] == b[0],
    ensures
        str_lt(a, b) == str_lt(a.drop_first(), b.drop_first()),
{
}

/// Of two character sequences, exactly one of: the first is smaller, they
/// are equal, the second is smaller.
pub proof fn lemma_str_lt_trichotomy(a: Seq<char>, b: Seq<char>)
    ensures
        str_lt(a, b) || a == b || str_lt(b, a),
        str_lt(a, b) ==> a != b && !str_lt(b, a),
        a == b ==> !str_lt(a, b) && !str_lt(b, a),
    decreases a.len(),
{
    if a.len() == 0 && b.len() == 0 {
        assert(a =~= b);
    } else if a.len() > 0 && b.len() > 0 && a[0] == b[0] {
        lemma_str_lt_trichotomy(a.drop_first(), b.drop_first());
        if a.drop_first() == b.drop_first() {
            assert forall|k: int| 0 <= k < a.len() implies a[k] == b[k] by {
                if k > 0 {
                    assert(a[k] == a.drop_first()[k - 1]);
                    assert(b[k] == b.drop_first()[k - 1]);
                }
            }
            assert(a =~= b);
        }
        if a == b {
            assert(a.drop_first() =~= b.drop_first());
        }
    } else {
        if a.len() == 0 {
        } else if b.len() == 0 {
            assert(str_lt(b, a));
        } else {
            if (a[0] as u32) < (b[0] as u32) {
                assert(str_lt(a, b));
                assert(!str_lt(b, a));
            } else {
                assert(a[0] as u32 != b[0] as u32) by {
                    if a[0] as u32 == b[0] as u32 {
                        vstd::utf8::char_u32_cast(a[0], a[0] as u32);
                        vstd::utf8::char_u32_cast(b[0], b[0] as u32);
                    }
                }
                assert(str_lt(b, a));
                assert(!str_lt(a, b));
            }
            if a == b {
                assert(a[0] == b[0]);
            }
        }
    }
}

/// Lexicographic order is transitive.
pub proof fn lemma_str_lt_trans(a: Seq<char>, b: Seq<char>, c: Seq<char>)
    requires
        str_lt(a, b),
        str_lt(b, c),
    ensures
        str_lt(a, c),
    decreases a.len(),
{
    if b.len() == 0 || c.len() == 0 {
    } else if a.len() == 0 {
    } else {
        if a[0] == b[0] && b[0] == c[0] {
            lemma_str_lt_trans(a.drop_first(), b.drop_first(), c.drop_first());
        }
    }
}

/// Comparison is decided by the first difference: sequences with a common
/// prefix compare as their tails do.
proof fn lemma_str_lt_common_prefix(a: Seq<char>, b: Seq<char>, i: int)
    requires
        0 <= i <= a.len(),
        i <= b.len(),
        forall|k: int| 0 <= k < i ==> a[k] == b[k],
    ensures
        str_lt(a, b) == str_lt(a.skip(i), b.skip(i)),
    decreases i,
{
    if i == 0 {
        assert(a.skip(0) =~= a);
        assert(b.skip(0) =~= b);
    } else {
        lemma_str_lt_step(a, b);
        lemma_str_lt_common_prefix(a.drop_first(), b.drop_first(), i - 1);
        assert(a.drop_first().skip(i - 1) =~= a.skip(i));
        assert(b.drop_first().skip(i - 1) =~= b.skip(i));
    }
}

/// Whether `a` comes lexicographically before `b`.
pub fn str_less(a: &str, b: &str) -> (r: bool)
    ensures
        r == str_lt(a@, b@),
{
    let an: usize = a.unicode_len();
    let bn: usize = b.unicode_len();
    let mut i: usize = 0;
    loop
        invariant
            i <= an,
            i <= bn,
            an == a@.len(),
            bn == b@.len(),
            forall|k: int| 0 <= k < i ==> a@[k] == b@[k],
        decreases an - i,
    {
        proof {
            lemma_str_lt_common_prefix(a@, b@, i as int);
        }
        if i >= an || i >= bn {
            // One is a prefix of the other: the shorter comes first.
            assert(a@.skip(i as int).len() == a@.len() - i);
            assert(b@.skip(i as int).len() == b@.len() - i);
            return an < bn;
        }
        let ca = a.get_char(i);
        let cb = b.get_char(i);
        if (ca as u32) < (cb as u32) {
            assert(a@.skip(i as int)[0] == ca && b@.skip(i as int)[0] == cb);
            return true;
        }
        if (ca as u32) > (cb as u32) {
            assert(a@.skip(i as int)[0] == ca && b@.skip(i as int)[0] == cb);
            return false;
        }
        assert(ca == cb) by {
            vstd::utf8::char_u32_cast(ca, ca as u32);
            vstd::utf8::char_u32_cast(cb, cb as u32);
        }
        i = i + 1;
    }
}

/// Whether `a` and `b` hold the same characters.
pub fn str_eq(a: &str, b: &str) -> (r: bool)
    ensures
        r == (a@ == b@),
{
    let an: usize = a.unicode_len();
    let bn: usize = b.unicode_len();
    if an != bn {
        return false;
    }
    let mut i: usize = 0;
    while i < an
        invariant
            i <= an,
            an == a@.len(),
            an == b@.len(),
            forall|k: int| 0 <= k < i ==> a@[k] == b@[k],
        decreases an - i,
    {
        let ca = a.get_char(i);
        let cb = b.get_char(i);
        if !(ca == cb) {
            return false;
        }
        i = i + 1;
    }
    assert(a@ =~= b@);
    true
}


/// The value of `pow10` at the larger exponents the float range check
/// needs.
pub proof fn lemma_pow10_large_values()
    ensures
        pow10(10) == 10000000000,
        pow10(11) == 100000000000,
        pow10(12) == 1000000000000,
        pow10(13) == 10000000000000,
        pow10(14) == 100000000000000,
        pow10(15) == 1000000000000000,
        pow10(16) == 10000000000000000,
        pow10(17) == 100000000000000000,
        pow10(18) == 1000000000000000000,
        pow10(19) == 10000000000000000000,
        pow10(20) == 100000000000000000000,
        pow10(21) == 1000000000000000000000,
        pow10(22) == 10000000000000000000000,
        pow10(23) == 100000000000000000000000,
        pow10(24) == 1000000000000000000000000,
        pow10(25) == 10000000000000000000000000,
        pow10(26) == 100000000000000000000000000,
        pow10(27) == 1000000000000000000000000000,
        pow10(28) == 10000000000000000000000000000,
        pow10(29) == 100000000000000000000000000000,
        pow10(30) == 1000000000000000000000000000000,
        pow10(31) == 10000000000000000000000000000000,
        pow10(32) == 100000000000000000000000000000000,
        pow10(33) == 1000000000000000000000000000000000,
        pow10(34) == 10000000000000000000000000000000000,
        pow10(35) == 100000000000000000000000000000000000,
        pow10(36) == 1000000000000000000000000000000000000,
        pow10(37) == 10000000000000000000000000000000000000,
        pow10(38) == 100000000000000000000000000000000000000,
{
    lemma_pow10_values();
    assert(pow10(10) == 10000000000);
    assert(pow10(11) == 100000000000);
    assert(pow10(12) == 1000000000000);
    assert(pow10(13) == 10000000000000);
    assert(pow10(14) == 100000000000000);
    assert(pow10(15) == 1000000000000000);
    assert(pow10(16) == 10000000000000000);
    assert(pow10(17) == 100000000000000000);
    assert(pow10(18) == 1000000000000000000);
    assert(pow10(19) == 10000000000000000000);
    assert(pow10(20) == 100000000000000000000);
    assert(pow10(21) == 1000000000000000000000);
    assert(pow10(22) == 10000000000000000000000);
    assert(pow10(23) == 100000000000000000000000);
    assert(pow10(24) == 1000000000000000000000000);
    assert(pow10(25) == 10000000000000000000000000);
    assert(pow10(26) == 100000000000000000000000000);
    assert(pow10(27) == 1000000000000000000000000000);
    assert(pow10(28) == 10000000000000000000000000000);
    assert(pow10(29) == 100000000000000000000000000000);
    assert(pow10(30) == 1000000000000000000000000000000);
    assert(pow10(31) == 10000000000000000000000000000000);
    assert(pow10(32) == 100000000000000000000000000000000);
    assert(pow10(33) == 1000000000000000000000000000000000);
    assert(pow10(34) == 10000000000000000000000000000000000);
    assert(pow10(35) == 100000000000000000000000000000000000);
    assert(pow10(36) == 1000000000000000000000000000000000000);
    assert(pow10(37) == 10000000000000000000000000000000000000);
    assert(pow10(38) == 100000000000000000000000000000000000000);
}

/// A digit run with a nonzero leading digit is at least ten to one less
/// than its length.
pub proof fn lemma_digits_value_lower(s: Seq<char>, i: int, n: int)
    requires
        digits_at(s, i, n),
        n >= 1,
        s[i] != '0',
    ensures
        digits_value(s, i, n) >= pow10((n - 1) as nat),
    decreases n,
{
    if n == 1 {
        assert(digit_val(s[i]) >= 1) by {
            vstd::utf8::char_u32_cast(s[i], s[i] as u32);
            if s[i] as u32 == 48 {
                assert((48u32 as char) == s[i]);
                assert(s[i] == '0');
            }
        }
    } else {
        lemma_digits_value_lower(s, i, n - 1);
        let p = pow10((n - 2) as nat);
        assert(pow10((n - 1) as nat) == 10 * p);
        assert(digits_value(s, i, n - 1) * 10 >= p * 10) by (nonlinear_arith)
            requires
                digits_value(s, i, n - 1) >= p,
        ;
        assert(digit_val(s[i + n - 1]) >= 0);
    }
}

/// An `n`-digit value is below ten to the `n`.
pub proof fn lemma_digits_value_bound(s: Seq<char>, i: int, n: int)
    requires
        digits_at(s, i, n),
        0 <= n,
    ensures
        0 <= digits_value(s, i, n) < pow10(n as nat),
    decreases n,
{
    if n == 0 {
    } else {
        lemma_digits_value_bound(s, i, n - 1);
    }
}

} // verus!
