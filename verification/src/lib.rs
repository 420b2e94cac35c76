//! A small expense-tracking core: an `Expense` record type, a heuristic
//! date parser, a sqlite-backed record store, and the modal entry state
//! machine that turns committed text fields into persisted records.

pub mod control;
pub mod data;
pub mod date;
pub mod errors;
pub mod record;
pub mod syntax;
pub mod text;
