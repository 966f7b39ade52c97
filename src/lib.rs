//! Turns the metadata of Debian binary packages into typed package records:
//! a closed vocabulary of control fields, a parser for the relationship
//! grammar, the record builder, archive-path selection and the accounting of
//! a whole ingestion run.

pub mod depends;
pub mod error;
pub mod ingest;
pub mod record;
pub mod scan;
pub mod stanza;
pub mod tags;
pub mod text;
