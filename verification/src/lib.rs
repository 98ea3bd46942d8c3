//! Compiles a declarative description of font families into the URL of a
//! Google Fonts CSS2 stylesheet.
//!
//! A request is an ordered list of families, each with optional weights
//! and optional pairs of an italic flag and a weight. It arrives either
//! typed, as [`FamilyRequest`] values for [`compile`], or in the untyped
//! notation of [`Term`] for [`google_fonts_url`], which checks the
//! notation first and refuses the whole request on the first violation.

pub mod decimal;
pub mod decode;
pub mod error;
pub mod render;
pub mod request;
pub mod term;
pub mod text;

pub use decode::google_fonts_url;
pub use error::CompileError;
pub use render::compile;
pub use request::FamilyRequest;
pub use term::Term;
