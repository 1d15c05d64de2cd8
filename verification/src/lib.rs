//! Compiles schema documents into validator trees and applies them to values.
//!
//! A [`scope::Scope`] compiles a document, and every document that it refers
//! to, into [`schema::Schema`]s: each key of the document goes to its
//! [`keywords::Keyword`], which checks the shape of the value under the key
//! and gives a [`validators::Validator`]. A compiled schema checks a
//! [`value::Value`] with every one of its validators and returns all that
//! they found as a [`state::ValidationState`].
//!
//! Numbers are exact decimals ([`number::Number`]). Whether a number is a
//! multiple of a divisor is decided exactly, without a tolerance: 0.3 is a
//! multiple of 0.1.
//!
//! References between documents must not run in a circle. A scope resolves
//! them while it compiles, depth first, and refuses a reference that leads
//! back to a document still being compiled.

pub mod compiler;
pub mod context;
pub mod error;
pub mod keywords;
pub mod number;
pub mod registry;
pub mod schema;
pub mod scope;
pub mod state;
pub mod validators;
pub mod value;
