//! Compile-time name aliasing over token sequences.
//!
//! An alias definition has the shape `<identifier> = <tokens...>`. It binds the
//! identifier to the replacement tokens, which are carried without being
//! interpreted. The alias can then be invoked with no arguments, which yields
//! the replacement as it was captured, or with arguments, which yields an
//! invocation of the replacement with those arguments.
pub mod definition;
pub mod expansion;
pub mod ident;
pub mod laws;
pub mod rules;
pub mod sample;
pub mod token;

pub use definition::{DefineError, DefineInput};
pub use expansion::define;
pub use ident::{has_opening, identifier_of, is_identifier, names_itself};
pub use sample::something;
pub use token::{clone_tokens, open_front, Delimiter, Spacing, Token};
