//! The error type shared by the library's parsers.
use vstd::prelude::*;

verus! {

/// Which required section of an alignment file was found missing (or
/// inconsistent) once the whole file had been read. The variants are listed
/// in the order in which they are checked.
#[derive(Debug, Clone, Copy, PartialEq, Eq, Structural)]
pub enum MissingSection {
    /// No sequence-alignment row.
    SequenceRows,
    /// No per-sequence posterior-probability row.
    PosteriorRows,
    /// The numbers of sequence and posterior rows differ.
    CountMismatch,
    /// No consensus posterior-probability row.
    Consensus,
    /// No reference-mask row, or one that retains no column.
    Mask,
}

/// An error raised by one of the library's parsers or queries.
#[derive(Debug)]
pub enum ProleError {
    /// A line matched none of the recognised shapes; holds the line.
    MalformedLine(String),
    /// A record that may appear once (per identifier) appeared again; holds the line.
    DuplicateRecord(String),
    /// The input ended with a required section absent.
    IncompleteInput(MissingSection),
    /// No record has the requested identifier; holds the identifier.
    NotFound(String),
    /// A retained column lies beyond the end of a sequence; holds its identifier.
    OutOfRange(String),
    /// A delimited record had the wrong number of fields.
    FieldCount { expected: usize, found: usize },
    /// An integer column does not fit its type; holds the column's text.
    IntOverflow(String),
}

/// The mathematical model of a [`ProleError`].
pub enum ErrorModel {
    MalformedLine(Seq<char>),
    DuplicateRecord(Seq<char>),
    IncompleteInput(MissingSection),
    NotFound(Seq<char>),
    OutOfRange(Seq<char>),
    FieldCount { expected: nat, found: nat },
    IntOverflow(Seq<char>),
}

impl View for ProleError {
    type V = ErrorModel;

    open spec fn view(&self) -> ErrorModel {
        match self {
            ProleError::MalformedLine(l) => ErrorModel::MalformedLine(l@),
            ProleError::DuplicateRecord(l) => ErrorModel::DuplicateRecord(l@),
            ProleError::IncompleteInput(s) => ErrorModel::IncompleteInput(*s),
            ProleError::NotFound(id) => ErrorModel::NotFound(id@),
            ProleError::OutOfRange(id) => ErrorModel::OutOfRange(id@),
            ProleError::FieldCount { expected, found } => ErrorModel::FieldCount {
                expected: *expected as nat,
                found: *found as nat,
            },
            ProleError::IntOverflow(t) => ErrorModel::IntOverflow(t@),
        }
    }
}

/// The result type of the library's fallible functions.
pub type ProleResult<T> = Result<T, ProleError>;

} // verus!
