//! The ways in which a request can be refused.

use vstd::prelude::*;
use vstd::string::*;

verus! {

/// Why a request was refused. Nothing is rendered for a refused request.
#[derive(Clone, Debug, PartialEq, Eq)]
pub enum CompileError {
    /// The request names no family at all.
    EmptyInput,
    /// A family has no name, or what stands in the name's place is not a
    /// string.
    InvalidName,
    /// A family carries an attribute other than `weights` and `italics`;
    /// the field is the attribute's key.
    UnknownAttribute(String),
    /// An element of a `weights` list is neither an integer nor a string.
    InvalidWeight,
    /// An element of an `italics` list is not a pair of two integers.
    InvalidItalicPair,
}

/// The mathematical content of a [`CompileError`].
pub enum Violation {
    EmptyInput,
    InvalidName,
    UnknownAttribute(Seq<char>),
    InvalidWeight,
    InvalidItalicPair,
}

impl View for CompileError {
    type V = Violation;

    open spec fn view(&self) -> Violation {
        match self {
            CompileError::EmptyInput => Violation::EmptyInput,
            CompileError::InvalidName => Violation::InvalidName,
            CompileError::UnknownAttribute(key) => Violation::UnknownAttribute(key@),
            CompileError::InvalidWeight => Violation::InvalidWeight,
            CompileError::InvalidItalicPair => Violation::InvalidItalicPair,
        }
    }
}

/// What a result holds: the text of a success, or the violation behind a
/// refusal.
pub open spec fn outcome(result: Result<String, CompileError>) -> Result<Seq<char>, Violation> {
    match result {
        Ok(text) => Ok(text@),
        Err(error) => Err(error@),
    }
}

/// The sentence that describes a violation to the caller.
pub open spec fn description(violation: Violation) -> Seq<char> {
    match violation {
        Violation::EmptyInput => "At least one font family is required"@,
        Violation::InvalidName => "Font name must be a string"@,
        Violation::UnknownAttribute(key) => "Unknown attribute: "@ + key,
        Violation::InvalidWeight => "Invalid weight value"@,
        Violation::InvalidItalicPair => "Invalid italic pair"@,
    }
}

impl CompileError {
    /// Describes the violation; for an unknown attribute the sentence ends
    /// with the offending key.
    pub fn message(&self) -> (out: String)
        ensures
            out@ == description(self@),
    {
        match self {
            CompileError::EmptyInput => String::from_str("At least one font family is required"),
            CompileError::InvalidName => String::from_str("Font name must be a string"),
            CompileError::UnknownAttribute(key) => {
                let mut out = String::from_str("Unknown attribute: ");
                out.append(key.as_str());
                out
            },
            CompileError::InvalidWeight => String::from_str("Invalid weight value"),
            CompileError::InvalidItalicPair => String::from_str("Invalid italic pair"),
        }
    }
}

} // verus!
