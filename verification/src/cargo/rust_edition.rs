//! The Rust edition field.
use vstd::prelude::*;

use crate::error::Error;
use crate::scan::str_eq;
use crate::value::{Toml, Value};

verus! {

/// The Rust edition.
#[derive(Debug, Clone, Copy, PartialEq, Eq, Structural)]
pub enum RustEdition {
    /// Edition 2015.
    E2015,
    /// Edition 2018.
    E2018,
    /// Edition 2021.
    E2021,
    /// Edition 2024.
    E2024,
}

/// Whether the value is a string naming a known edition.
pub open spec fn edition_ok(m: Toml) -> bool {
    match m {
        Toml::String(s) => s == "2015"@ || s == "2018"@ || s == "2021"@ || s == "2024"@,
        _ => false,
    }
}

/// The edition a string names.
pub open spec fn edition_of(m: Toml) -> RustEdition {
    match m {
        Toml::String(s) => if s == "2015"@ {
            RustEdition::E2015
        } else if s == "2018"@ {
            RustEdition::E2018
        } else if s == "2021"@ {
            RustEdition::E2021
        } else {
            RustEdition::E2024
        },
        _ => RustEdition::E2024,
    }
}

impl RustEdition {
    /// Read an edition out of a parsed value: one of the strings `2015`,
    /// `2018`, `2021` or `2024`; anything else is a conversion error.
    pub fn from_value(value: &Value) -> (r: Result<RustEdition, Error>)
        ensures
            match r {
                Ok(e) => edition_ok(value@) && e == edition_of(value@),
                Err(e) => !edition_ok(value@) && e matches Error::Convert { .. },
            },
    {
        match value {
            Value::String(s) => {
                if str_eq(s.as_str(), "2015") {
                    Ok(RustEdition::E2015)
                } else if str_eq(s.as_str(), "2018") {
                    Ok(RustEdition::E2018)
                } else if str_eq(s.as_str(), "2021") {
                    Ok(RustEdition::E2021)
                } else if str_eq(s.as_str(), "2024") {
                    Ok(RustEdition::E2024)
                } else {
                    Err(Error::Convert { from: "a string", to: "an edition" })
                }
            },
            _ => Err(Error::Convert { from: "a value", to: "an edition" }),
        }
    }
}

} // verus!
