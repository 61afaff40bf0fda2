//! Author information, read from strings of the shape `Name <email>`.
use vstd::prelude::*;

use crate::error::Error;
use crate::scan::string_from_chars;
use crate::value::{Toml, Value};

verus! {

/// Author information.
#[derive(Debug, Clone, PartialEq, Eq)]
pub struct Author {
    /// The name of the author.
    pub name: String,
    /// The email address of the author, if one was given.
    pub email: Option<String>,
}

/// The first position at or after `i` where `" <"` stands.
pub open spec fn spec_find_angle(s: Seq<char>, i: int) -> Option<int>
    decreases s.len() - i,
{
    if i < 0 || i + 2 > s.len() {
        None
    } else if s[i] == ' ' && s[i + 1] == '<' {
        Some(i)
    } else {
        spec_find_angle(s, i + 1)
    }
}

/// The first position at or after `i` where `'>'` stands.
pub open spec fn spec_find_gt(s: Seq<char>, i: int) -> Option<int>
    decreases s.len() - i,
{
    if i < 0 || i >= s.len() {
        None
    } else if s[i] == '>' {
        Some(i)
    } else {
        spec_find_gt(s, i + 1)
    }
}

/// The name and optional email of an author string: `Name <email>` splits
/// when the name part before the first `" <"` is not empty, the email part
/// is not empty, and the first `'>'` after it ends the string; any other
/// shape is all name.
pub open spec fn author_fields(s: Seq<char>) -> (Seq<char>, Option<Seq<char>>) {
    match spec_find_angle(s, 0) {
        Some(j) => {
            if j >= 1 {
                match spec_find_gt(s, j + 2) {
                    Some(g) => {
                        if g == s.len() - 1 && g > j + 2 {
                            (s.subrange(0, j), Some(s.subrange(j + 2, g)))
                        } else {
                            (s, None)
                        }
                    },
                    None => (s, None),
                }
            } else {
                (s, None)
            }
        },
        None => (s, None),
    }
}

impl Author {
    /// The name of the author.
    pub fn name(&self) -> (r: &str)
        ensures
            r@ == self.name@,
    {
        self.name.as_str()
    }

    /// The email address of the author, if one was given.
    pub fn email(&self) -> (r: Option<&str>)
        ensures
            match r {
                Some(e) => self.email matches Some(m) && e@ == m@,
                None => self.email is None,
            },
    {
        match &self.email {
            Some(e) => Some(e.as_str()),
            None => None,
        }
    }

    /// Read an author out of a parsed value: a string of the shape
    /// `Name <email>`, or any other string taken whole as the name.
    pub fn from_value(value: &Value) -> (r: Result<Author, Error>)
        ensures
            match r {
                Ok(a) => value@ matches Toml::String(s) && {
                    let (n, e) = author_fields(s);
                    &&& a.name@ == n
                    &&& match a.email {
                        Some(em) => e matches Some(es) && em@ == es,
                        None => e is None,
                    }
                },
                Err(e) => !(value@ is String) && e matches Error::Convert { .. },
            },
    {
        let s = match value {
            Value::String(s) => s,
            _ => {
                return Err(Error::Convert { from: "a value", to: "an author" });
            },
        };
        let v = crate::scan::chars_vec(s.as_str());
        match find_angle(&v) {
            Some(j) => {
                if j < 1 {
                    return Ok(author_whole(&v));
                }
                match find_gt(&v, j + 2) {
                    Some(g) => {
                        if g == v.len() - 1 && g > j + 2 {
                            let name = copy_range(&v, 0, j);
                            let email = copy_range(&v, j + 2, g);
                            Ok(Author { name, email: Some(email) })
                        } else {
                            Ok(author_whole(&v))
                        }
                    },
                    None => Ok(author_whole(&v)),
                }
            },
            None => Ok(author_whole(&v)),
        }
    }
}

/// An author holding the whole string as its name.
fn author_whole(v: &Vec<char>) -> (a: Author)
    ensures
        a.name@ == v@,
        a.email is None,
{
    Author { name: string_from_chars(v), email: None }
}

/// The first position where `" <"` stands.
fn find_angle(v: &Vec<char>) -> (r: Option<usize>)
    ensures
        match r {
            Some(j) => spec_find_angle(v@, 0) == Some(j as int) && j + 2 <= v.len(),
            None => spec_find_angle(v@, 0) is None,
        },
{
    let mut j: usize = 0;
    loop
        invariant
            j <= v.len(),
            spec_find_angle(v@, 0) == spec_find_angle(v@, j as int),
        decreases v.len() - j,
    {
        if j >= v.len() || j + 1 >= v.len() {
            return None;
        }
        if v[j] == ' ' && v[j + 1] == '<' {
            return Some(j);
        }
        j = j + 1;
    }
}

/// The first position at or after `start` where `'>'` stands.
fn find_gt(v: &Vec<char>, start: usize) -> (r: Option<usize>)
    requires
        start <= v.len(),
    ensures
        match r {
            Some(g) => spec_find_gt(v@, start as int) == Some(g as int) && start <= g < v.len(),
            None => spec_find_gt(v@, start as int) is None,
        },
{
    let mut g: usize = start;
    loop
        invariant
            start <= g <= v.len(),
            spec_find_gt(v@, start as int) == spec_find_gt(v@, g as int),
        decreases v.len() - g,
    {
        if g >= v.len() {
            return None;
        }
        if v[g] == '>' {
            return Some(g);
        }
        g = g + 1;
    }
}

/// An owned string holding `v[a..b]`.
fn copy_range(v: &Vec<char>, a: usize, b: usize) -> (s: String)
    requires
        a <= b <= v.len(),
    ensures
        s@ == v@.subrange(a as int, b as int),
{
    let mut chars: Vec<char> = Vec::new();
    let mut k: usize = a;
    while k < b
        invariant
            a <= k <= b <= v.len(),
            chars@ == v@.subrange(a as int, k as int),
        decreases b - k,
    {
        chars.push(v[k]);
        assert(chars@ =~= v@.subrange(a as int, k + 1));
        k = k + 1;
    }
    string_from_chars(&chars)
}

} // verus!
