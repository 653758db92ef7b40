use vstd::prelude::*;

verus! {

/// The error taxonomy of the library.
///
/// `Io` carries a host error message from the access layer; `NotFoundAcpiMcfg`
/// reports that no firmware table entry describes the memory-mapped
/// configuration window; `Parse` reports that the name-database text failed
/// to match the grammar, with a description of the failure; `TrailingData`
/// reports that text was left over after both database sections were parsed.
#[derive(Debug)]
pub enum Error {
    Io(String),
    NotFoundAcpiMcfg,
    Parse(String),
    TrailingData,
}

impl Error {
    /// True exactly on the `TrailingData` variant.
    pub fn is_trailing_data(&self) -> (r: bool)
        ensures
            r == (self is TrailingData),
    {
        match self {
            Error::TrailingData => true,
            _ => false,
        }
    }

    /// True exactly on the `Parse` variant.
    pub fn is_parse(&self) -> (r: bool)
        ensures
            r == (self is Parse),
    {
        match self {
            Error::Parse(_) => true,
            _ => false,
        }
    }
}

} // verus!
