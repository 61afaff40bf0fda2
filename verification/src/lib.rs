//! A TOML parser: grammar-level recognizers for keys, strings, numbers,
//! booleans, date/time literals, arrays and inline tables, together with a
//! document assembler that folds the recognized events into one nested
//! table, and a schema layer that reads Cargo manifest declarations out of
//! the parsed tree.

pub mod array;
pub mod cargo;
pub mod datetime;
pub mod error;
pub mod parse;
pub mod scan;
pub mod table;
pub mod value;

pub use array::Array;
pub use datetime::{Date, Datetime, Offset, Time};
pub use error::{Error, ParseError};
pub use parse::parse;
pub use table::Table;
pub use value::{FloatValue, Value};
