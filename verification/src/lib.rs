//! Fluent codes: identifiers that are easy to read, say and type.
//!
//! A code is a run of dictionary words, each drawn at random from the word
//! list of a grammatical category, optionally followed by six digits, and
//! joined by a separator: `fluffy-vacuum-misuse-deadly`,
//! `calmer-taints-fourty-887709`.
//!
//! [`FluentCodes`] is the builder. It collects tokens one call at a time and
//! renders them on request:
//!
//! ```text
//! let mut codes = FluentCodes::default();
//! let code = codes.adjective()?.verb()?.noun()?.six_digits().to_string();
//! ```
//!
//! The word lists live in an SQLite store that the builder opens on the first
//! draw. Everything the builder does with the store's answers, and everything
//! it does without the store (the query text, the digits, the joining) is
//! verified. What is trusted is named where it stands: the calls into
//! `rusqlite` in [`store`], the call into `rand` in [`chance`], and what
//! `String::push` of the standard library does, in [`digits`].

pub mod builder;
pub mod category;
pub mod chance;
pub mod digits;
pub mod error;
pub mod query;
pub mod recipes;
pub mod render;
pub mod store;
pub mod word;

pub use builder::{CodesView, FluentCodes};
pub use category::WordCategory;
pub use error::FluentError;
pub use render::render;
pub use store::{Answer, OpenStore};
