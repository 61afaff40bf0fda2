//! The dependency resolver version field.
use vstd::prelude::*;

use crate::error::Error;
use crate::scan::str_eq;
use crate::value::{Toml, Value};

verus! {

/// The resolver version.
#[derive(Debug, Clone, Copy, PartialEq, Eq, Structural)]
pub enum ResolverVersion {
    /// Resolver version 1.
    V1,
    /// Resolver version 2.
    V2,
}

/// Whether the value is a string naming a known resolver version.
pub open spec fn resolver_ok(m: Toml) -> bool {
    match m {
        Toml::String(s) => s == "1"@ || s == "2"@,
        _ => false,
    }
}

/// The resolver version a string names.
pub open spec fn resolver_of(m: Toml) -> ResolverVersion {
    match m {
        Toml::String(s) => if s == "1"@ {
            ResolverVersion::V1
        } else {
            ResolverVersion::V2
        },
        _ => ResolverVersion::V2,
    }
}

impl ResolverVersion {
    /// Read a resolver version out of a parsed value: the string `1` or
    /// `2`; anything else is a conversion error.
    pub fn from_value(value: &Value) -> (r: Result<ResolverVersion, Error>)
        ensures
            match r {
                Ok(v) => resolver_ok(value@) && v == resolver_of(value@),
                Err(e) => !resolver_ok(value@) && e matches Error::Convert { .. },
            },
    {
        match value {
            Value::String(s) => {
                if str_eq(s.as_str(), "1") {
                    Ok(ResolverVersion::V1)
                } else if str_eq(s.as_str(), "2") {
                    Ok(ResolverVersion::V2)
                } else {
                    Err(Error::Convert { from: "a string", to: "a resolver version" })
                }
            },
            _ => Err(Error::Convert { from: "a value", to: "a resolver version" }),
        }
    }
}

} // verus!
