//! A verified search-query engine for a local chat archive.
//!
//! Free-form query text (with `AFTER:`, `BEFORE:`, `FROM:` and
//! `CONVERSATION:` directives, quoting and parenthesized groups) and
//! structured filter fields are parsed, normalized and composed into a
//! single parameterized query against a relational message store.
//! The store itself is an external collaborator: callers execute the
//! composed query and feed the resulting rows back through the row
//! mappers of this crate.

pub mod compose;
pub mod contacts;
pub mod dates;
pub mod errors;
pub mod extract;
pub mod filters;
pub mod rows;
pub mod senders;
pub mod tokens;
