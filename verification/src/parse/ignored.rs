//! The layout skipper: whitespace, comments and line terminators between
//! grammar tokens.  It fails only on a malformed line terminator (a carriage
//! return not followed by a line feed); the control characters that are
//! illegal even inside comments end the comment, so that the surrounding
//! recognizer fails on them.
use vstd::prelude::*;

use crate::error::ParseError;

verus! {

/// Horizontal whitespace: space or tab.
pub open spec fn is_space(c: char) -> bool {
    c == ' ' || c == '\t'
}

/// A character permitted inside a comment: anything but the control
/// characters U+0000 to U+0008, U+000A to U+001F and U+007F.
pub open spec fn comment_char_ok(c: char) -> bool {
    !(c as u32 <= 0x08 || (0x0a <= c as u32 && c as u32 <= 0x1f) || c as u32 == 0x7f)
}

/// The position after any run of horizontal whitespace at `pos`.
pub open spec fn spec_skip_spaces(s: Seq<char>, pos: int) -> int
    decreases s.len() - pos,
{
    if 0 <= pos < s.len() && is_space(s[pos]) {
        spec_skip_spaces(s, pos + 1)
    } else {
        pos
    }
}

/// Skipping spaces stays inside the input and ends on a non-space.
pub proof fn lemma_skip_spaces_bounds(s: Seq<char>, pos: int)
    requires
        0 <= pos <= s.len(),
    ensures
        pos <= spec_skip_spaces(s, pos) <= s.len(),
        spec_skip_spaces(s, pos) == s.len() || !is_space(s[spec_skip_spaces(s, pos)]),
    decreases s.len() - pos,
{
    if pos < s.len() && is_space(s[pos]) {
        lemma_skip_spaces_bounds(s, pos + 1);
    }
}

/// The position after any run of whitespace (including line terminators)
/// and comments at `pos`, or nothing on a malformed line terminator.
pub open spec fn spec_skip_layout(s: Seq<char>, pos: int) -> Option<int>
    decreases s.len() - pos, 0int,
{
    if pos >= s.len() {
        Some(pos)
    } else if is_space(s[pos]) || s[pos] == '\n' {
        spec_skip_layout(s, pos + 1)
    } else if s[pos] == '\r' {
        if pos + 1 < s.len() && s[pos + 1] == '\n' {
            spec_skip_layout(s, pos + 2)
        } else {
            None
        }
    } else if s[pos] == '#' {
        spec_skip_comment(s, pos + 1)
    } else {
        Some(pos)
    }
}

/// The rest of a comment from `pos` on, then further layout.
pub open spec fn spec_skip_comment(s: Seq<char>, pos: int) -> Option<int>
    decreases s.len() - pos, 1int,
{
    if pos >= s.len() {
        Some(pos)
    } else if comment_char_ok(s[pos]) {
        spec_skip_comment(s, pos + 1)
    } else {
        spec_skip_layout(s, pos)
    }
}

/// The layout skipper stays inside the input.
pub proof fn lemma_skip_layout_bounds(s: Seq<char>, pos: int)
    requires
        0 <= pos <= s.len(),
    ensures
        spec_skip_layout(s, pos) matches Some(r) ==> pos <= r <= s.len(),
    decreases s.len() - pos, 0int,
{
    if pos >= s.len() {
    } else if is_space(s[pos]) || s[pos] == '\n' {
        lemma_skip_layout_bounds(s, pos + 1);
    } else if s[pos] == '\r' {
        if pos + 1 < s.len() && s[pos + 1] == '\n' {
            lemma_skip_layout_bounds(s, pos + 2);
        }
    } else if s[pos] == '#' {
        lemma_skip_comment_bounds(s, pos + 1);
    }
}

/// The comment skipper stays inside the input.
pub proof fn lemma_skip_comment_bounds(s: Seq<char>, pos: int)
    requires
        0 <= pos <= s.len(),
    ensures
        spec_skip_comment(s, pos) matches Some(r) ==> pos <= r <= s.len(),
    decreases s.len() - pos, 1int,
{
    if pos >= s.len() {
    } else if comment_char_ok(s[pos]) {
        lemma_skip_comment_bounds(s, pos + 1);
    } else {
        lemma_skip_layout_bounds(s, pos);
    }
}

/// Advance over horizontal whitespace.
pub fn skip_spaces(v: &Vec<char>, pos: usize) -> (np: usize)
    requires
        pos <= v.len(),
    ensures
        np == spec_skip_spaces(v@, pos as int),
        pos <= np <= v.len(),
{
    let mut p = pos;
    while p < v.len() && (v[p] == ' ' || v[p] == '\t')
        invariant
            pos <= p <= v.len(),
            spec_skip_spaces(v@, pos as int) == spec_skip_spaces(v@, p as int),
        decreases v.len() - p,
    {
        p = p + 1;
    }
    p
}

/// Advance over whitespace, line terminators and comments; fail on a
/// carriage return that no line feed follows.
pub fn skip_layout(v: &Vec<char>, pos: usize) -> (r: Result<usize, ParseError>)
    requires
        pos <= v.len(),
    ensures
        match r {
            Ok(np) => spec_skip_layout(v@, pos as int) == Some(np as int) && pos <= np <= v.len(),
            Err(_) => spec_skip_layout(v@, pos as int) is None,
        },
{
    let mut p = pos;
    loop
        invariant
            pos <= p <= v.len(),
            spec_skip_layout(v@, pos as int) == spec_skip_layout(v@, p as int),
        decreases v.len() - p,
    {
        if p >= v.len() {
            return Ok(p);
        }
        let c = v[p];
        if c == ' ' || c == '\t' || c == '\n' {
            p = p + 1;
        } else if c == '\r' {
            if p + 1 < v.len() && v[p + 1] == '\n' {
                p = p + 2;
            } else {
                return Err(ParseError::new(p, "a line feed after a carriage return"));
            }
        } else if c == '#' {
            let mut q = p + 1;
            while q < v.len() && comment_ok(v[q])
                invariant
                    p + 1 <= q <= v.len(),
                    spec_skip_layout(v@, p as int) == spec_skip_comment(v@, q as int),
                    spec_skip_layout(v@, pos as int) == spec_skip_layout(v@, p as int),
                decreases v.len() - q,
            {
                q = q + 1;
            }
            if q >= v.len() {
                return Ok(q);
            }
            // The comment ended on a character it does not permit; let the
            // layout rules decide whether it is a line terminator.
            assert(spec_skip_comment(v@, q as int) == spec_skip_layout(v@, q as int));
            p = q;
        } else {
            return Ok(p);
        }
    }
}

/// Executable test for a character permitted inside a comment.
pub fn comment_ok(c: char) -> (r: bool)
    ensures
        r == comment_char_ok(c),
{
    let u = c as u32;
    !(u <= 0x08 || (0x0a <= u && u <= 0x1f) || u == 0x7f)
}

} // verus!
