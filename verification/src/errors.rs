use vstd::prelude::*;

verus! {

/// The error values this library reports.  Every failure is returned as a
/// value; no verified function panics.
#[derive(Clone, Copy, Debug, PartialEq, Eq, Structural)]
pub enum IndexError {
    /// A field name appears twice in the schema given at construction.
    DuplicateField,
    /// Opening the single writer, buffering a document, or committing failed.
    WriterError,
    /// The query string could not be parsed.
    QueryParseError,
    /// The committed storage could not be read back.
    StorageError,
}

} // verus!
