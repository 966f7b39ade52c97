//! Why one archive could not become a package record.

use vstd::prelude::*;

verus! {

/// The kinds of per-archive failure.
#[derive(Clone, Copy, Debug, PartialEq, Eq, Structural, Hash)]
pub enum ErrorKind {
    Io,
    MalformedArchive,
    MissingRequiredField,
    UnknownComparator,
    InvalidConstraint,
}

/// A per-archive failure with the text it concerns: the cause for `Io` and
/// `MalformedArchive`, the missing tag, the unknown comparator token, or the
/// constraint text that holds no separating space.
#[derive(Clone, Debug)]
pub enum IngestError {
    Io(String),
    MalformedArchive(String),
    MissingRequiredField(String),
    UnknownComparator(String),
    InvalidConstraint(String),
}

impl View for IngestError {
    type V = (ErrorKind, Seq<char>);

    open spec fn view(&self) -> (ErrorKind, Seq<char>) {
        match self {
            IngestError::Io(s) => (ErrorKind::Io, s@),
            IngestError::MalformedArchive(s) => (ErrorKind::MalformedArchive, s@),
            IngestError::MissingRequiredField(s) => (ErrorKind::MissingRequiredField, s@),
            IngestError::UnknownComparator(s) => (ErrorKind::UnknownComparator, s@),
            IngestError::InvalidConstraint(s) => (ErrorKind::InvalidConstraint, s@),
        }
    }
}

impl IngestError {
    /// The kind of this failure.
    pub fn kind(&self) -> (r: ErrorKind)
        ensures
            r == self@.0,
    {
        match self {
            IngestError::Io(_) => ErrorKind::Io,
            IngestError::MalformedArchive(_) => ErrorKind::MalformedArchive,
            IngestError::MissingRequiredField(_) => ErrorKind::MissingRequiredField,
            IngestError::UnknownComparator(_) => ErrorKind::UnknownComparator,
            IngestError::InvalidConstraint(_) => ErrorKind::InvalidConstraint,
        }
    }

    /// The text this failure concerns.
    pub fn detail(&self) -> (r: &str)
        ensures
            r@ == self@.1,
    {
        match self {
            IngestError::Io(s) => s.as_str(),
            IngestError::MalformedArchive(s) => s.as_str(),
            IngestError::MissingRequiredField(s) => s.as_str(),
            IngestError::UnknownComparator(s) => s.as_str(),
            IngestError::InvalidConstraint(s) => s.as_str(),
        }
    }
}

} // verus!
