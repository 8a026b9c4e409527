//! Reading a document from its text.

pub mod read;
