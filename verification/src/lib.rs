//! A programmatic builder for SQL statement text.
//!
//! Callers assemble a statement by chaining clause-setting calls in any
//! order; rendering walks a fixed, statement-specific clause order, splices
//! in raw text recorded for each clause, and joins the non-empty segments.
//! The builder never inspects the SQL fragments it is handed beyond
//! whitespace trimming and clause boundaries.

pub mod behavior;
pub mod concat;
pub mod drop_index;
pub mod fmt;
pub mod insert;
pub mod laws;
pub mod select;
pub mod structure;
pub mod text;

pub use structure::Dialect;
pub use structure::DropIndex;
pub use structure::DropIndexParams;
pub use structure::Insert;
pub use structure::InsertClause;
pub use structure::InsertVars;
pub use structure::Select;
