//! The untyped notation in which a request arrives.

use vstd::prelude::*;

verus! {

/// A piece of request notation, as far as a request is read.
///
/// A request is a list of family entries. An entry is a tuple: first the
/// family's name, a string; then any number of attributes, each a key
/// bound to a list of values.
#[derive(Debug, PartialEq, Eq)]
pub enum Term {
    /// An unsigned integer, such as `400`.
    Int(u64),
    /// A string, such as `"Open Sans"` or `"100..900"`.
    Str(String),
    /// A parenthesised group of terms, such as `(1, 700)`.
    Tuple(Vec<Term>),
    /// A bracketed list of terms, such as `[400, 700]`.
    Array(Vec<Term>),
    /// A key bound to a value, such as `weights = [400]`.
    Assign(String, Box<Term>),
    /// Any other notation.
    Other,
}

} // verus!
