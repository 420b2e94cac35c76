//! The error kinds that the library surfaces to its callers.

use vstd::prelude::*;

verus! {

/// One error type for the whole library.
///
/// - `DBError` wraps a storage-backend failure, carrying its message.
/// - `IOError` wraps a filesystem failure around the data directory.
/// - `EnvError` reports a missing required setting.
/// - `DateError` reports date text that none of the accepted forms fit.
/// - `ParseError` reports amount text that is not a well-formed integer.
#[derive(Debug)]
pub enum Error {
    DBError(String),
    IOError(String),
    EnvError(String),
    DateError,
    ParseError,
}

} // verus!
