//! The results bundle: line results grouped by kind of path, by
//! presentation kind and by file.

use crate::facets::ResultFacetRoot;
use crate::kinds::{PathKind, PresentationKind};
use crate::name_map::NameMap;
use crate::spans::{
    accumulate_each, any_covers_line, any_covers_path, each_ingested_from, ingest_each,
    line_sets_extended, lines_at, FlattenedResultsByFile, SpanGroup,
};
use std::collections::{HashMap, HashSet};
use vstd::prelude::*;

verus! {

/// The results of one presentation kind, file by file.
#[derive(Debug)]
pub struct FlattenedKindGroupResults {
    pub kind: PresentationKind,
    pub pretty: String,
    pub facets: Vec<ResultFacetRoot>,
    pub by_file: Vec<FlattenedResultsByFile>,
}

/// The results under one kind of path: the files matched by name, and the
/// line results by presentation kind.
#[derive(Debug)]
pub struct FlattenedPathKindGroupResults {
    pub path_kind: PathKind,
    pub file_names: Vec<String>,
    pub kind_groups: Vec<FlattenedKindGroupResults>,
}

/// Results ready to render: grouped by kind of path, then by presentation
/// kind, then by file, then by line span.
///
/// `content_type` says what the spans' contents are: `text/plain` for the
/// plain source lines, `text/html` once rendered lines have been put in.
#[derive(Debug)]
pub struct FlattenedResultsBundle {
    pub path_kind_results: Vec<FlattenedPathKindGroupResults>,
    pub content_type: String,
}

impl SpanGroup for FlattenedKindGroupResults {
    open spec fn covers_path(&self, path: Seq<char>) -> bool {
        any_covers_path(self.by_file@, self.by_file.len() as int, path)
    }

    open spec fn covers_line(&self, path: Seq<char>, line: u32, before: u32, after: u32) -> bool {
        any_covers_line(self.by_file@, self.by_file.len() as int, path, line, before, after)
    }

    /// Nothing but the spans changes.
    open spec fn ingested_from(
        &self,
        earlier: &Self,
        contents: Map<Seq<char>, HashMap<u32, String>>,
        before: u32,
        after: u32,
    ) -> bool {
        &&& self.kind == earlier.kind
        &&& self.pretty == earlier.pretty
        &&& self.facets == earlier.facets
        &&& each_ingested_from(self.by_file@, earlier.by_file@, contents, before, after)
    }

    fn accumulate_path_line_sets(
        &self,
        path_line_sets: &mut NameMap<HashSet<u32>>,
        before: u32,
        after: u32,
    ) {
        accumulate_each(&self.by_file, path_line_sets, before, after)
    }

    fn ingest_html_lines(
        &mut self,
        path_line_contents: &NameMap<HashMap<u32, String>>,
        before: u32,
        after: u32,
    ) {
        ingest_each(&mut self.by_file, path_line_contents, before, after)
    }
}

impl FlattenedKindGroupResults {
    /// Adds to `path_line_sets`, for each file of this group, every line
    /// of every span, each widened by `before` and `after` lines.
    pub fn accumulate_path_line_sets(
        &self,
        path_line_sets: &mut NameMap<HashSet<u32>>,
        before: u32,
        after: u32,
    )
        ensures
            line_sets_extended(
                old(path_line_sets)@,
                final(path_line_sets)@,
                self,
                before,
                after,
            ),
    {
        SpanGroup::accumulate_path_line_sets(self, path_line_sets, before, after)
    }

    /// Puts into the spans of each file the lines that
    /// `path_line_contents` has for it.
    pub fn ingest_html_lines(
        &mut self,
        path_line_contents: &NameMap<HashMap<u32, String>>,
        before: u32,
        after: u32,
    )
        ensures
            final(self).ingested_from(old(self), path_line_contents@, before, after),
    {
        SpanGroup::ingest_html_lines(self, path_line_contents, before, after)
    }
}

impl SpanGroup for FlattenedPathKindGroupResults {
    open spec fn covers_path(&self, path: Seq<char>) -> bool {
        any_covers_path(self.kind_groups@, self.kind_groups.len() as int, path)
    }

    open spec fn covers_line(&self, path: Seq<char>, line: u32, before: u32, after: u32) -> bool {
        any_covers_line(self.kind_groups@, self.kind_groups.len() as int, path, line, before, after)
    }

    /// Nothing but the spans changes.
    open spec fn ingested_from(
        &self,
        earlier: &Self,
        contents: Map<Seq<char>, HashMap<u32, String>>,
        before: u32,
        after: u32,
    ) -> bool {
        &&& self.path_kind == earlier.path_kind
        &&& self.file_names == earlier.file_names
        &&& each_ingested_from(self.kind_groups@, earlier.kind_groups@, contents, before, after)
    }

    fn accumulate_path_line_sets(
        &self,
        path_line_sets: &mut NameMap<HashSet<u32>>,
        before: u32,
        after: u32,
    ) {
        accumulate_each(&self.kind_groups, path_line_sets, before, after)
    }

    fn ingest_html_lines(
        &mut self,
        path_line_contents: &NameMap<HashMap<u32, String>>,
        before: u32,
        after: u32,
    ) {
        ingest_each(&mut self.kind_groups, path_line_contents, before, after)
    }
}

impl FlattenedPathKindGroupResults {
    /// Adds to `path_line_sets`, for each file of each kind group, every
    /// line of every span, each widened by `before` and `after` lines.
    pub fn accumulate_path_line_sets(
        &self,
        path_line_sets: &mut NameMap<HashSet<u32>>,
        before: u32,
        after: u32,
    )
        ensures
            line_sets_extended(
                old(path_line_sets)@,
                final(path_line_sets)@,
                self,
                before,
                after,
            ),
    {
        SpanGroup::accumulate_path_line_sets(self, path_line_sets, before, after)
    }

    /// Puts into the spans of each kind group the lines that
    /// `path_line_contents` has for their files.
    pub fn ingest_html_lines(
        &mut self,
        path_line_contents: &NameMap<HashMap<u32, String>>,
        before: u32,
        after: u32,
    )
        ensures
            final(self).ingested_from(old(self), path_line_contents@, before, after),
    {
        SpanGroup::ingest_html_lines(self, path_line_contents, before, after)
    }
}

impl FlattenedResultsBundle {
    /// Whether the bundle has results for the file at `path`.
    pub open spec fn covers_path(&self, path: Seq<char>) -> bool {
        any_covers_path(self.path_kind_results@, self.path_kind_results.len() as int, path)
    }

    /// Whether the bundle has, for the file at `path`, a span that holds
    /// `line` once it is widened by `before` and `after` lines.
    pub open spec fn covers_line(&self, path: Seq<char>, line: u32, before: u32, after: u32) -> bool {
        any_covers_line(
            self.path_kind_results@,
            self.path_kind_results.len() as int,
            path,
            line,
            before,
            after,
        )
    }

    /// The lines of each file that the spans of the bundle need, each span
    /// widened by `before` lines above and `after` lines below: a set for
    /// every file with results, and in it the lines of that file's spans
    /// and no others.
    pub fn compute_path_line_sets(&self, before: u32, after: u32) -> (path_line_sets: NameMap<
        HashSet<u32>,
    >)
        ensures
            forall|path: Seq<char>| #[trigger]
                path_line_sets@.contains_key(path) <==> self.covers_path(path),
            forall|path: Seq<char>, line: u32| #[trigger]
                lines_at(path_line_sets@, path).contains(line) <==> self.covers_line(
                    path,
                    line,
                    before,
                    after,
                ),
    {
        let mut path_line_sets: NameMap<HashSet<u32>> = NameMap::new();
        accumulate_each(&self.path_kind_results, &mut path_line_sets, before, after);
        path_line_sets
    }

    /// Puts into every span the lines that `path_line_contents` has for
    /// its file, and marks the bundle as holding HTML.
    pub fn ingest_html_lines(
        &mut self,
        path_line_contents: &NameMap<HashMap<u32, String>>,
        before: u32,
        after: u32,
    )
        ensures
            final(self).content_type@ == "text/html"@,
            each_ingested_from(
                final(self).path_kind_results@,
                old(self).path_kind_results@,
                path_line_contents@,
                before,
                after,
            ),
    {
        self.content_type = "text/html".to_owned();
        ingest_each(&mut self.path_kind_results, path_line_contents, before, after);
    }
}

} // verus!
