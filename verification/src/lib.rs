//! A small library for representing HTML markup as discrete tokens (start
//! tags, end tags, text, raw text, comments, and the DOCTYPE declaration)
//! and rendering them to HTML text with correct escaping, together with an
//! ordered attribute collection supporting lookup, insertion and replacement
//! by name.

pub mod attr;
pub mod escape;
pub mod token;

pub use attr::Attribute;
pub use attr::AttributeSet;
pub use escape::escape_str;
pub use token::Token;
