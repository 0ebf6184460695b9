//! Options of symbol queries.

use vstd::prelude::*;

verus! {

/// The kind of analysis record a query asks for.
#[derive(Clone, Copy, Debug, PartialEq, Eq, Structural)]
pub enum RecordType {
    Source,
    Target,
    Structured,
}

/// A query for a symbol, by its name or by an identifier.
#[derive(Debug)]
pub struct SymbolicQueryOpts {
    /// Exact symbol match.
    pub symbol: Option<String>,
    /// Exact identifier match.
    pub identifier: Option<String>,
}

} // verus!
