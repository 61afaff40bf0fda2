//! The string engine: the four TOML string forms and escape processing.
//!
//! The forms are tried in priority order — multiline basic, basic,
//! multiline literal, literal — so that the longer opening delimiter wins.
//! Basic forms decode escapes; literal forms take their content verbatim.
//! A multiline form discards exactly one line feed standing right after its
//! opening delimiter.
use vstd::prelude::*;

use crate::error::ParseError;
use crate::scan::{
    hex_at, hex_value, is_hexdigit, hex_digit_value, lemma_hex_value_bound, lemma_pow16_le,
    lemma_pow16_values, pow16, string_from_chars,
};

verus! {

/// One escape, at position `i` right after the backslash: the decoded
/// character and the position after the escape.  `\u` takes exactly four
/// hexadecimal digits and `\U` exactly eight, and the digits must form a
/// Unicode scalar value; any other character after the backslash is
/// refused.
pub open spec fn spec_escape_char(s: Seq<char>, i: int) -> Option<(char, int)> {
    if i >= s.len() {
        None
    } else {
        let c = s[i];
        if c == '"' {
            Some(('"', i + 1))
        } else if c == '\\' {
            Some(('\\', i + 1))
        } else if c == 'b' {
            Some(('\u{8}', i + 1))
        } else if c == 't' {
            Some(('\t', i + 1))
        } else if c == 'n' {
            Some(('\n', i + 1))
        } else if c == 'f' {
            Some(('\u{c}', i + 1))
        } else if c == 'r' {
            Some(('\r', i + 1))
        } else if c == 'u' {
            if hex_at(s, i + 1, 4) {
                let u = hex_value(s, i + 1, 4);
                if is_scalar_value(u) {
                    Some(((u as u32) as char, i + 5))
                } else {
                    None
                }
            } else {
                None
            }
        } else if c == 'U' {
            if hex_at(s, i + 1, 8) {
                let u = hex_value(s, i + 1, 8);
                if is_scalar_value(u) {
                    Some(((u as u32) as char, i + 9))
                } else {
                    None
                }
            } else {
                None
            }
        } else {
            None
        }
    }
}

/// Whether `u` is a Unicode scalar value: a code point that is not a
/// surrogate.
pub open spec fn is_scalar_value(u: int) -> bool {
    (0 <= u < 0xD800) || (0xDFFF < u <= 0x10FFFF)
}

/// Whether the closing delimiter of a basic string stands at `pos`: one
/// double quote, or three for the multiline form.
pub open spec fn at_basic_close(s: Seq<char>, pos: int, multi: bool) -> bool {
    if multi {
        pos + 3 <= s.len() && s[pos] == '"' && s[pos + 1] == '"' && s[pos + 2] == '"'
    } else {
        pos < s.len() && s[pos] == '"'
    }
}

/// The decoded content of a basic string from `pos` to its closing
/// delimiter, and the position of that delimiter.  The input ending before
/// the delimiter leaves the string unterminated.
pub open spec fn spec_basic_chars(s: Seq<char>, pos: int, multi: bool) -> Option<(Seq<char>, int)>
    decreases s.len() - pos,
{
    if pos >= s.len() {
        None
    } else if at_basic_close(s, pos, multi) {
        Some((Seq::empty(), pos))
    } else if s[pos] == '\\' {
        match spec_escape_char(s, pos + 1) {
            Some((c, j)) => if j <= pos + 1 || j > s.len() {
                None
            } else {
                match spec_basic_chars(s, j, multi) {
                    Some((rest, e)) => Some((seq![c] + rest, e)),
                    None => None,
                }
            },
            None => None,
        }
    } else {
        match spec_basic_chars(s, pos + 1, multi) {
            Some((rest, e)) => Some((seq![s[pos]] + rest, e)),
            None => None,
        }
    }
}

/// Whether the closing delimiter of a literal string stands at `pos`: one
/// single quote, or three for the multiline form.
pub open spec fn at_literal_close(s: Seq<char>, pos: int, multi: bool) -> bool {
    if multi {
        pos + 3 <= s.len() && s[pos] == '\'' && s[pos + 1] == '\'' && s[pos + 2] == '\''
    } else {
        pos < s.len() && s[pos] == '\''
    }
}

/// The verbatim content of a literal string from `pos` to its closing
/// delimiter, and the position of that delimiter.
pub open spec fn spec_literal_chars(s: Seq<char>, pos: int, multi: bool) -> Option<
    (Seq<char>, int),
>
    decreases s.len() - pos,
{
    if pos >= s.len() {
        None
    } else if at_literal_close(s, pos, multi) {
        Some((Seq::empty(), pos))
    } else {
        match spec_literal_chars(s, pos + 1, multi) {
            Some((rest, e)) => Some((seq![s[pos]] + rest, e)),
            None => None,
        }
    }
}

/// A whole string value at `pos`: the four forms tried in priority order.
/// On success, the decoded content and the position after the closing
/// delimiter.
pub open spec fn spec_parse_string(s: Seq<char>, pos: int) -> Option<(Seq<char>, int)> {
    if pos + 3 <= s.len() && s[pos] == '"' && s[pos + 1] == '"' && s[pos + 2] == '"' {
        let start = if pos + 3 < s.len() && s[pos + 3] == '\n' {
            pos + 4
        } else {
            pos + 3
        };
        match spec_basic_chars(s, start, true) {
            Some((c, e)) => Some((c, e + 3)),
            None => None,
        }
    } else if pos < s.len() && s[pos] == '"' {
        match spec_basic_chars(s, pos + 1, false) {
            Some((c, e)) => Some((c, e + 1)),
            None => None,
        }
    } else if pos + 3 <= s.len() && s[pos] == '\'' && s[pos + 1] == '\'' && s[pos + 2] == '\'' {
        let start = if pos + 3 < s.len() && s[pos + 3] == '\n' {
            pos + 4
        } else {
            pos + 3
        };
        match spec_literal_chars(s, start, true) {
            Some((c, e)) => Some((c, e + 3)),
            None => None,
        }
    } else if pos < s.len() && s[pos] == '\'' {
        match spec_literal_chars(s, pos + 1, false) {
            Some((c, e)) => Some((c, e + 1)),
            None => None,
        }
    } else {
        None
    }
}

/// Reads `n` hexadecimal digits at `i` as a number.
fn read_hex(v: &Vec<char>, i: usize, n: usize) -> (r: Option<u32>)
    requires
        i <= v.len(),
        n <= 8,
    ensures
        match r {
            Some(x) => hex_at(v@, i as int, n as int) && x == hex_value(v@, i as int, n as int),
            None => !hex_at(v@, i as int, n as int),
        },
{
    proof {
        lemma_pow16_values();
    }
    let mut k: usize = 0;
    let mut acc: u32 = 0;
    while k < n
        invariant
            k <= n <= 8,
            i <= v.len(),
            hex_at(v@, i as int, k as int),
            acc == hex_value(v@, i as int, k as int),
            acc < pow16(k as nat),
            pow16(8) == 0x100000000,
        decreases n - k,
    {
        if i + k >= v.len() || !is_hexdigit(v[i + k]) {
            return None;
        }
        let d = hex_digit_value(v[i + k]);
        proof {
            lemma_pow16_le((k + 1) as nat, 8);
            assert(pow16((k + 1) as nat) == 16 * pow16(k as nat));
        }
        acc = acc * 16 + d;
        k = k + 1;
        assert(hex_at(v@, i as int, k as int));
    }
    Some(acc)
}

/// Decode one escape standing at `i`, right after the backslash.
fn parse_escape(v: &Vec<char>, i: usize) -> (r: Result<(char, usize), ParseError>)
    requires
        i <= v.len(),
    ensures
        match r {
            Ok((c, j)) => spec_escape_char(v@, i as int) == Some((c, j as int)) && i < j
                <= v.len(),
            Err(_) => spec_escape_char(v@, i as int) is None,
        },
{
    if i >= v.len() {
        return Err(ParseError::new(i, "an escape after the backslash"));
    }
    let c = v[i];
    if c == '"' {
        Ok(('"', i + 1))
    } else if c == '\\' {
        Ok(('\\', i + 1))
    } else if c == 'b' {
        Ok(('\u{8}', i + 1))
    } else if c == 't' {
        Ok(('\t', i + 1))
    } else if c == 'n' {
        Ok(('\n', i + 1))
    } else if c == 'f' {
        Ok(('\u{c}', i + 1))
    } else if c == 'r' {
        Ok(('\r', i + 1))
    } else if c == 'u' {
        match read_hex(v, i + 1, 4) {
            Some(u) => {
                proof {
                    lemma_hex_value_bound(v@, i as int + 1, 4);
                    lemma_pow16_values();
                }
                match char::from_u32(u) {
                    Some(ch) => Ok((ch, i + 5)),
                    None => Err(ParseError::new(i, "a Unicode scalar value")),
                }
            },
            None => Err(ParseError::new(i, "four hexadecimal digits")),
        }
    } else if c == 'U' {
        match read_hex(v, i + 1, 8) {
            Some(u) => {
                proof {
                    lemma_hex_value_bound(v@, i as int + 1, 8);
                    lemma_pow16_values();
                }
                match char::from_u32(u) {
                    Some(ch) => Ok((ch, i + 9)),
                    None => Err(ParseError::new(i, "a Unicode scalar value")),
                }
            },
            None => Err(ParseError::new(i, "eight hexadecimal digits")),
        }
    } else {
        Err(ParseError::new(i, "a valid escape character"))
    }
}

/// Composes an optional content-and-close with characters already decoded.
pub open spec fn prepend_content(prefix: Seq<char>, r: Option<(Seq<char>, int)>) -> Option<
    (Seq<char>, int),
> {
    match r {
        Some((rest, e)) => Some((prefix + rest, e)),
        None => None,
    }
}

/// Scan the content of a basic string up to its closing delimiter, decoding
/// escapes.
fn basic_chars(v: &Vec<char>, pos: usize, multi: bool) -> (r: Result<(String, usize), ParseError>)
    requires
        pos <= v.len(),
    ensures
        match r {
            Ok((c, e)) => spec_basic_chars(v@, pos as int, multi) == Some((c@, e as int)) && pos
                <= e <= v.len() && at_basic_close(v@, e as int, multi),
            Err(_) => spec_basic_chars(v@, pos as int, multi) is None,
        },
{
    let mut out: Vec<char> = Vec::new();
    let mut p = pos;
    loop
        invariant
            pos <= p <= v.len(),
            spec_basic_chars(v@, pos as int, multi) == prepend_content(
                out@,
                spec_basic_chars(v@, p as int, multi),
            ),
        decreases v.len() - p,
    {
        if p >= v.len() {
            return Err(ParseError::new(p, "a closing quote"));
        }
        let c = v[p];
        let mut is_close = false;
        if multi {
            if c == '"' && p + 1 < v.len() && p + 2 < v.len() && v[p + 1] == '"' && v[p + 2] == '"' {
                is_close = true;
            }
        } else {
            if c == '"' {
                is_close = true;
            }
        }
        if is_close {
            let s = string_from_chars(&out);
            proof {
                assert(out@ + Seq::<char>::empty() =~= out@);
            }
            return Ok((s, p));
        }
        if c == '\\' {
            match parse_escape(v, p + 1) {
                Ok((ch, j)) => {
                    let ghost oldout = out@;
                    out.push(ch);
                    proof {
                        assert(oldout + (seq![ch] + spec_rest(v@, j as int, multi)) =~= out@
                            + spec_rest(v@, j as int, multi));
                    }
                    p = j;
                },
                Err(e) => {
                    return Err(e);
                },
            }
        } else {
            let ghost oldout = out@;
            out.push(c);
            proof {
                assert(oldout + (seq![c] + spec_rest(v@, p + 1, multi)) =~= out@ + spec_rest(
                    v@,
                    p + 1,
                    multi,
                ));
            }
            p = p + 1;
        }
    }
}

/// The content that remains to be decoded from `pos`, where the scan is
/// known to succeed; arbitrary otherwise.
pub open spec fn spec_rest(s: Seq<char>, pos: int, multi: bool) -> Seq<char> {
    match spec_basic_chars(s, pos, multi) {
        Some((c, _)) => c,
        None => Seq::empty(),
    }
}

/// Scan the content of a literal string up to its closing delimiter.
fn literal_chars(v: &Vec<char>, pos: usize, multi: bool) -> (r: Result<
    (String, usize),
    ParseError,
>)
    requires
        pos <= v.len(),
    ensures
        match r {
            Ok((c, e)) => spec_literal_chars(v@, pos as int, multi) == Some((c@, e as int)) && pos
                <= e <= v.len() && at_literal_close(v@, e as int, multi),
            Err(_) => spec_literal_chars(v@, pos as int, multi) is None,
        },
{
    let mut out: Vec<char> = Vec::new();
    let mut p = pos;
    loop
        invariant
            pos <= p <= v.len(),
            spec_literal_chars(v@, pos as int, multi) == prepend_content(
                out@,
                spec_literal_chars(v@, p as int, multi),
            ),
        decreases v.len() - p,
    {
        if p >= v.len() {
            return Err(ParseError::new(p, "a closing single quote"));
        }
        let c = v[p];
        let mut is_close = false;
        if multi {
            if c == '\'' && p + 1 < v.len() && p + 2 < v.len() && v[p + 1] == '\'' && v[p + 2] == '\'' {
                is_close = true;
            }
        } else {
            if c == '\'' {
                is_close = true;
            }
        }
        if is_close {
            let s = string_from_chars(&out);
            proof {
                assert(out@ + Seq::<char>::empty() =~= out@);
            }
            return Ok((s, p));
        }
        let ghost oldout = out@;
        out.push(c);
        proof {
            assert(oldout + (seq![c] + spec_lit_rest(v@, p + 1, multi)) =~= out@ + spec_lit_rest(
                v@,
                p + 1,
                multi,
            ));
        }
        p = p + 1;
    }
}

/// The literal content that remains from `pos`, where the scan is known to
/// succeed; arbitrary otherwise.
pub open spec fn spec_lit_rest(s: Seq<char>, pos: int, multi: bool) -> Seq<char> {
    match spec_literal_chars(s, pos, multi) {
        Some((c, _)) => c,
        None => Seq::empty(),
    }
}

/// Parse a whole string value at `pos`: the four forms in priority order,
/// multiline before single-line.  On success, the decoded content and the
/// position after the closing delimiter.
pub fn parse_string(v: &Vec<char>, pos: usize) -> (r: Result<(String, usize), ParseError>)
    requires
        pos <= v.len(),
    ensures
        match r {
            Ok((c, e)) => spec_parse_string(v@, pos as int) == Some((c@, e as int)) && pos < e
                <= v.len(),
            Err(_) => spec_parse_string(v@, pos as int) is None,
        },
{
    if pos < v.len() && pos + 1 < v.len() && pos + 2 < v.len() && v[pos] == '"' && v[pos + 1] == '"'
        && v[pos + 2] == '"' {
        let start = if pos + 3 < v.len() && v[pos + 3] == '\n' {
            pos + 4
        } else {
            pos + 3
        };
        match basic_chars(v, start, true) {
            Ok((c, e)) => Ok((c, e + 3)),
            Err(e) => Err(e),
        }
    } else if pos < v.len() && v[pos] == '"' {
        match basic_chars(v, pos + 1, false) {
            Ok((c, e)) => Ok((c, e + 1)),
            Err(e) => Err(e),
        }
    } else if pos < v.len() && pos + 1 < v.len() && pos + 2 < v.len() && v[pos] == '\''
        && v[pos + 1] == '\'' && v[pos + 2] == '\'' {
        let start = if pos + 3 < v.len() && v[pos + 3] == '\n' {
            pos + 4
        } else {
            pos + 3
        };
        match literal_chars(v, start, true) {
            Ok((c, e)) => Ok((c, e + 3)),
            Err(e) => Err(e),
        }
    } else if pos < v.len() && v[pos] == '\'' {
        match literal_chars(v, pos + 1, false) {
            Ok((c, e)) => Ok((c, e + 1)),
            Err(e) => Err(e),
        }
    } else {
        Err(ParseError::new(pos, "a string"))
    }
}

/// Parse a single-line quoted key form at `pos`: a basic or a literal
/// string, the multiline forms excluded.
pub fn parse_quoted_key(v: &Vec<char>, pos: usize) -> (r: Result<(String, usize), ParseError>)
    requires
        pos <= v.len(),
    ensures
        match r {
            Ok((c, e)) => spec_parse_quoted_key(v@, pos as int) == Some((c@, e as int)) && pos < e
                <= v.len(),
            Err(_) => spec_parse_quoted_key(v@, pos as int) is None,
        },
{
    if pos < v.len() && v[pos] == '"' {
        match basic_chars(v, pos + 1, false) {
            Ok((c, e)) => Ok((c, e + 1)),
            Err(e) => Err(e),
        }
    } else if pos < v.len() && v[pos] == '\'' {
        match literal_chars(v, pos + 1, false) {
            Ok((c, e)) => Ok((c, e + 1)),
            Err(e) => Err(e),
        }
    } else {
        Err(ParseError::new(pos, "a quoted key"))
    }
}

/// A single-line quoted key at `pos`: a basic or a literal string.
pub open spec fn spec_parse_quoted_key(s: Seq<char>, pos: int) -> Option<(Seq<char>, int)> {
    if pos < s.len() && s[pos] == '"' {
        match spec_basic_chars(s, pos + 1, false) {
            Some((c, e)) => Some((c, e + 1)),
            None => None,
        }
    } else if pos < s.len() && s[pos] == '\'' {
        match spec_literal_chars(s, pos + 1, false) {
            Some((c, e)) => Some((c, e + 1)),
            None => None,
        }
    } else {
        None
    }
}

} // verus!
