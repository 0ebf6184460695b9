//! The value that flows through a pipeline.

use crate::bundle::FlattenedResultsBundle;
use crate::records::{
    FileMatches, HtmlExcerpts, JsonRecords, JsonValue, SymbolGraphCollection, TextFile,
    TextMatches,
};
use crate::symbols::{IdentifierList, SymbolCrossrefInfoList, SymbolList};
use vstd::prelude::*;

verus! {

/// What a pipeline step takes in and gives out.
///
/// Each operation says which of these it accepts; to hand it another is a
/// mistake of the caller that the operation answers with an error.
#[derive(Debug)]
pub enum PipelineValues {
    IdentifierList(IdentifierList),
    SymbolList(SymbolList),
    SymbolCrossrefInfoList(SymbolCrossrefInfoList),
    SymbolGraphCollection(SymbolGraphCollection),
    JsonValue(JsonValue),
    JsonRecords(JsonRecords),
    FileMatches(FileMatches),
    TextMatches(TextMatches),
    HtmlExcerpts(HtmlExcerpts),
    FlattenedResultsBundle(FlattenedResultsBundle),
    TextFile(TextFile),
    /// No value yet.
    Void,
}

impl PipelineValues {
    /// Whether this is the value that stands for "no value yet".
    pub fn is_void(&self) -> (void: bool)
        ensures
            void == (*self is Void),
    {
        match self {
            PipelineValues::Void => true,
            _ => false,
        }
    }
}

} // verus!
