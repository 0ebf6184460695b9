//! Line spans: which lines of a file the results need, and how the text
//! of those lines is fitted into spans that lie close to one another.

use crate::name_map::NameMap;
use std::collections::{HashMap, HashSet};
use vstd::prelude::*;
use vstd::string::StringExecFns;

verus! {

/// A range of lines of one file, with the text to show for it.
#[derive(Debug)]
pub struct FlattenedLineSpan {
    /// The line to highlight; lines are numbered from 1.
    pub key_line: u32,
    /// The first and the last line of the span.  It may be wider than the
    /// key line alone, to take in a comment above it.
    pub line_range: (u32, u32),
    /// The text of the span: plain text or HTML, as the bundle says.
    pub contents: String,
    /// Empty when there is none.
    pub context: String,
    /// Empty when there is none.
    pub contextsym: String,
}

/// The line spans found in one file, in ascending order of their key lines.
#[derive(Debug)]
pub struct FlattenedResultsByFile {
    pub file: String,
    pub line_spans: Vec<FlattenedLineSpan>,
}

/// The first line of a span that starts at `start`, widened by `before`
/// lines of context: never below line 1.
pub open spec fn expanded_start(start: int, before: int) -> int {
    if start - before > 1 {
        start - before
    } else {
        1
    }
}

/// The highest line claimed by the spans before the span at `i`, each
/// widened by `after` lines and then cut off before its successor; 0 if
/// there is none.
pub open spec fn highest_line(spans: Seq<FlattenedLineSpan>, i: int, after: int) -> int
    decreases i,
{
    if i <= 0 {
        0
    } else {
        let earlier = highest_line(spans, i - 1, after);
        let end = clamped_end(spans, i - 1, after);
        if end > earlier {
            end
        } else {
            earlier
        }
    }
}

/// The last line that the span at `i` may show: its own last line and
/// `after` lines of context, but nothing from the line on which the next
/// span starts.
pub open spec fn clamped_end(spans: Seq<FlattenedLineSpan>, i: int, after: int) -> int {
    let wanted = spans[i].line_range.1 + after;
    if i + 1 < spans.len() && wanted >= spans[i + 1].line_range.0 {
        spans[i + 1].line_range.0 - 1
    } else {
        wanted
    }
}

/// The first line that the span at `i` may show: `before` lines of context
/// above its own first line, but nothing that an earlier span has claimed.
pub open spec fn clamped_start(
    spans: Seq<FlattenedLineSpan>,
    i: int,
    before: int,
    after: int,
) -> int {
    let wanted = expanded_start(spans[i].line_range.0 as int, before);
    let floor = highest_line(spans, i, after) + 1;
    if wanted >= floor {
        wanted
    } else {
        floor
    }
}

/// The text of the lines from `start` to `end` that `contents` has, in
/// ascending order.  Lines that it lacks are passed over.
pub open spec fn fetched_lines(contents: Map<u32, String>, start: int, end: int) -> Seq<
    Seq<char>,
>
    decreases end - start + 1,
{
    if end < start {
        Seq::empty()
    } else {
        let earlier = fetched_lines(contents, start, end - 1);
        if 0 <= end <= u32::MAX && contents.contains_key(end as u32) {
            earlier.push(contents[end as u32]@)
        } else {
            earlier
        }
    }
}

/// The lines joined into one text, with a newline between each two.
pub open spec fn joined_lines(lines: Seq<Seq<char>>) -> Seq<char>
    decreases lines.len(),
{
    if lines.len() == 0 {
        Seq::empty()
    } else if lines.len() == 1 {
        lines[0]
    } else {
        joined_lines(lines.drop_last()) + seq!['\n'] + lines.last()
    }
}

/// `reconciled` is the span `spans[i]` once the lines of `contents` have
/// been put into it: cut to the lines it may show, shrunk to as many lines
/// as were found, and holding their text.  Nothing else of it changes.
pub open spec fn span_reconciled(
    spans: Seq<FlattenedLineSpan>,
    i: int,
    contents: Map<u32, String>,
    before: int,
    after: int,
    reconciled: FlattenedLineSpan,
) -> bool {
    let start = clamped_start(spans, i, before, after);
    let end = clamped_end(spans, i, after);
    let lines = fetched_lines(contents, start, end);
    &&& reconciled.key_line == spans[i].key_line
    &&& reconciled.context == spans[i].context
    &&& reconciled.contextsym == spans[i].contextsym
    &&& reconciled.line_range.0 == start
    &&& reconciled.line_range.1 == start + lines.len() - 1
    &&& reconciled.contents@ == joined_lines(lines)
}

/// The lines of `path` in `sets`; none if `sets` lacks the path.
pub open spec fn lines_at(sets: Map<Seq<char>, HashSet<u32>>, path: Seq<char>) -> Set<u32> {
    if sets.contains_key(path) {
        sets[path]@
    } else {
        Set::empty()
    }
}

/// No span before the last one claims the last line a `u32` can hold.
pub proof fn lemma_highest_line_bounds(spans: Seq<FlattenedLineSpan>, i: int, after: int)
    requires
        0 <= i < spans.len(),
        0 <= after,
    ensures
        0 <= highest_line(spans, i, after) < u32::MAX,
    decreases i,
{
    if i > 0 {
        lemma_highest_line_bounds(spans, i - 1, after);
    }
}

/// Lines beyond the last one a `u32` can hold are never found.
pub proof fn lemma_fetched_lines_capped(contents: Map<u32, String>, start: int, end: int)
    requires
        end >= u32::MAX,
    ensures
        fetched_lines(contents, start, end) == fetched_lines(contents, start, u32::MAX as int),
    decreases end - u32::MAX,
{
    if end > u32::MAX {
        lemma_fetched_lines_capped(contents, start, end - 1);
    }
}

/// No more lines are found than the range holds.
pub proof fn lemma_fetched_lines_len(contents: Map<u32, String>, start: int, end: int)
    ensures
        end < start ==> fetched_lines(contents, start, end).len() == 0,
        end >= start ==> fetched_lines(contents, start, end).len() <= end - start + 1,
    decreases end - start + 1,
{
    if end >= start {
        lemma_fetched_lines_len(contents, start, end - 1);
    }
}

/// What the spans before the span at `j` have claimed takes in what each
/// of them may show.
pub proof fn lemma_highest_line_covers_earlier(
    spans: Seq<FlattenedLineSpan>,
    i: int,
    j: int,
    after: int,
)
    requires
        0 <= i < j,
    ensures
        clamped_end(spans, i, after) <= highest_line(spans, j, after),
    decreases j,
{
    if i < j - 1 {
        lemma_highest_line_covers_earlier(spans, i, j - 1, after);
    }
}

/// No two spans may show the same line: what an earlier span may show ends
/// before what a later one may show begins.
pub proof fn lemma_clamped_ranges_do_not_overlap(
    spans: Seq<FlattenedLineSpan>,
    i: int,
    j: int,
    before: int,
    after: int,
)
    requires
        0 <= i < j < spans.len(),
    ensures
        clamped_end(spans, i, after) < clamped_start(spans, j, before, after),
{
    lemma_highest_line_covers_earlier(spans, i, j, after);
}

/// Once the lines have been put in, the range of a span starts at line 1
/// or later and holds only lines that the span may show, and no line lies
/// in the ranges of two spans.
pub proof fn lemma_reconciled_ranges_do_not_overlap(
    spans: Seq<FlattenedLineSpan>,
    i: int,
    j: int,
    contents: Map<u32, String>,
    before: int,
    after: int,
    first: FlattenedLineSpan,
    second: FlattenedLineSpan,
    line: int,
)
    requires
        0 <= i < j < spans.len(),
        0 <= before,
        0 <= after,
        span_reconciled(spans, i, contents, before, after, first),
        span_reconciled(spans, j, contents, before, after, second),
    ensures
        1 <= first.line_range.0,
        1 <= second.line_range.0,
        first.line_range.0 <= line <= first.line_range.1 ==> line <= clamped_end(spans, i, after),
        !(first.line_range.0 <= line <= first.line_range.1 && second.line_range.0 <= line
            <= second.line_range.1),
{
    lemma_highest_line_bounds(spans, i, after);
    lemma_highest_line_bounds(spans, j, after);
    lemma_clamped_ranges_do_not_overlap(spans, i, j, before, after);
    lemma_fetched_lines_len(
        contents,
        clamped_start(spans, i, before, after),
        clamped_end(spans, i, after),
    );
}

/// Where no line that a span may show is missing, the span shows them
/// all: its range is cut, and not shrunk.
pub proof fn lemma_all_lines_found(contents: Map<u32, String>, start: int, end: int)
    requires
        0 <= start,
        end <= u32::MAX,
        forall|line: u32| start <= line <= end ==> contents.contains_key(line),
    ensures
        start <= end ==> fetched_lines(contents, start, end).len() == end - start + 1,
    decreases end - start + 1,
{
    if start <= end {
        lemma_all_lines_found(contents, start, end - 1);
        lemma_fetched_lines_len(contents, start, end - 1);
    }
}

/// Whether the spans start at line 1 or later and come in ascending order
/// of their first lines.
pub open spec fn spans_ascend(spans: Seq<FlattenedLineSpan>) -> bool {
    &&& forall|i: int| 0 <= i < spans.len() ==> 1 <= (#[trigger] spans[i]).line_range.0
    &&& forall|i: int, j: int|
        0 <= i < j < spans.len() ==> (#[trigger] spans[i]).line_range.0 <= (
        #[trigger] spans[j]).line_range.0
}

/// Among spans in ascending order, what the spans before a span have
/// claimed ends before that span's own first line.
pub proof fn lemma_highest_line_below_own_start(
    spans: Seq<FlattenedLineSpan>,
    i: int,
    after: int,
)
    requires
        spans_ascend(spans),
        0 <= i < spans.len(),
        0 <= after,
    ensures
        highest_line(spans, i, after) < spans[i].line_range.0,
    decreases i,
{
    if i > 0 {
        lemma_highest_line_below_own_start(spans, i - 1, after);
    }
}

/// Among spans in ascending order, context never costs a span its own
/// lines: what it may show starts no later than its own first line, and
/// ends no earlier than its own last line or the line before the next
/// span, whichever comes first.
pub proof fn lemma_own_lines_are_kept(
    spans: Seq<FlattenedLineSpan>,
    i: int,
    before: int,
    after: int,
)
    requires
        spans_ascend(spans),
        0 <= i < spans.len(),
        0 <= before,
        0 <= after,
    ensures
        1 <= clamped_start(spans, i, before, after) <= spans[i].line_range.0,
        i + 1 == spans.len() ==> clamped_end(spans, i, after) == spans[i].line_range.1 + after,
        i + 1 < spans.len() ==> clamped_end(spans, i, after) >= spans[i].line_range.1
            || clamped_end(spans, i, after) == spans[i + 1].line_range.0 - 1,
{
    lemma_highest_line_below_own_start(spans, i, after);
    lemma_highest_line_bounds(spans, i, after);
}

/// Among spans in ascending order, each of which ends no earlier than the
/// line before it starts, the highest line claimed so far is the last line
/// that the span just before may show.
pub proof fn lemma_highest_line_is_previous_end(
    spans: Seq<FlattenedLineSpan>,
    i: int,
    after: int,
)
    requires
        spans_ascend(spans),
        forall|k: int|
            0 <= k < spans.len() ==> (#[trigger] spans[k]).line_range.0 <= spans[k].line_range.1
                + 1,
        0 < i < spans.len(),
        0 <= after,
    ensures
        highest_line(spans, i, after) == clamped_end(spans, i - 1, after),
{
    lemma_highest_line_below_own_start(spans, i - 1, after);
}

/// A part of a results bundle that holds line spans, file by file.
///
/// Every level of a bundle collects the lines that its spans need and takes
/// in the text of those lines in the same way, one part after the other.
pub trait SpanGroup: Sized {
    /// Whether this part has results for the file at `path`.
    spec fn covers_path(&self, path: Seq<char>) -> bool;

    /// Whether this part has, for the file at `path`, a span that holds
    /// `line` once it is widened by `before` and `after` lines.
    spec fn covers_line(&self, path: Seq<char>, line: u32, before: u32, after: u32) -> bool;

    /// Whether `self` is `earlier` once the lines of `contents` have been
    /// put into its spans.
    spec fn ingested_from(
        &self,
        earlier: &Self,
        contents: Map<Seq<char>, HashMap<u32, String>>,
        before: u32,
        after: u32,
    ) -> bool;

    /// Adds the lines that this part needs to `path_line_sets`.
    fn accumulate_path_line_sets(
        &self,
        path_line_sets: &mut NameMap<HashSet<u32>>,
        before: u32,
        after: u32,
    )
        ensures
            forall|path: Seq<char>| #[trigger]
                final(path_line_sets)@.contains_key(path) <==> old(path_line_sets)@.contains_key(
                    path,
                ) || self.covers_path(path),
            forall|path: Seq<char>, line: u32| #[trigger]
                lines_at(final(path_line_sets)@, path).contains(line) <==> lines_at(
                    old(path_line_sets)@,
                    path,
                ).contains(line) || self.covers_line(path, line, before, after),
    ;

    /// Puts the lines of `path_line_contents` into the spans of this part.
    fn ingest_html_lines(
        &mut self,
        path_line_contents: &NameMap<HashMap<u32, String>>,
        before: u32,
        after: u32,
    )
        ensures
            final(self).ingested_from(old(self), path_line_contents@, before, after),
    ;
}

/// `later` is `earlier` with the paths and lines of `group` added: it has
/// a set for every path that either has, and each set holds the lines that
/// either holds.
pub open spec fn line_sets_extended<T: SpanGroup>(
    earlier: Map<Seq<char>, HashSet<u32>>,
    later: Map<Seq<char>, HashSet<u32>>,
    group: &T,
    before: u32,
    after: u32,
) -> bool {
    &&& forall|path: Seq<char>| #[trigger]
        later.contains_key(path) <==> earlier.contains_key(path) || group.covers_path(path)
    &&& forall|path: Seq<char>, line: u32| #[trigger]
        lines_at(later, path).contains(line) <==> lines_at(earlier, path).contains(line)
            || group.covers_line(path, line, before, after)
}

/// Whether one of the first `count` parts has results for `path`.
pub open spec fn any_covers_path<T: SpanGroup>(parts: Seq<T>, count: int, path: Seq<char>) -> bool {
    exists|i: int| 0 <= i < count && i < parts.len() && #[trigger] parts[i].covers_path(path)
}

/// Whether one of the first `count` parts has a span for `path` that holds
/// `line` once widened.
pub open spec fn any_covers_line<T: SpanGroup>(
    parts: Seq<T>,
    count: int,
    path: Seq<char>,
    line: u32,
    before: u32,
    after: u32,
) -> bool {
    exists|i: int|
        0 <= i < count && i < parts.len() && #[trigger] parts[i].covers_line(
            path,
            line,
            before,
            after,
        )
}

/// Whether each of `parts` is the part of `earlier` in its place, once the
/// lines of `contents` have been put into it.
pub open spec fn each_ingested_from<T: SpanGroup>(
    parts: Seq<T>,
    earlier: Seq<T>,
    contents: Map<Seq<char>, HashMap<u32, String>>,
    before: u32,
    after: u32,
) -> bool {
    &&& parts.len() == earlier.len()
    &&& forall|i: int|
        0 <= i < parts.len() ==> (#[trigger] parts[i]).ingested_from(
            &earlier[i],
            contents,
            before,
            after,
        )
}

/// Adds the lines that each of `parts` needs to `path_line_sets`.
pub fn accumulate_each<T: SpanGroup>(
    parts: &Vec<T>,
    path_line_sets: &mut NameMap<HashSet<u32>>,
    before: u32,
    after: u32,
)
    ensures
        forall|path: Seq<char>| #[trigger]
            final(path_line_sets)@.contains_key(path) <==> old(path_line_sets)@.contains_key(path)
                || any_covers_path(parts@, parts.len() as int, path),
        forall|path: Seq<char>, line: u32| #[trigger]
            lines_at(final(path_line_sets)@, path).contains(line) <==> lines_at(
                old(path_line_sets)@,
                path,
            ).contains(line) || any_covers_line(
                parts@,
                parts.len() as int,
                path,
                line,
                before,
                after,
            ),
{
    let mut i: usize = 0;
    while i < parts.len()
        invariant
            i <= parts.len(),
            forall|path: Seq<char>| #[trigger]
                path_line_sets@.contains_key(path) <==> old(path_line_sets)@.contains_key(path)
                    || any_covers_path(parts@, i as int, path),
            forall|path: Seq<char>, line: u32| #[trigger]
                lines_at(path_line_sets@, path).contains(line) <==> lines_at(
                    old(path_line_sets)@,
                    path,
                ).contains(line) || any_covers_line(parts@, i as int, path, line, before, after),
        decreases parts.len() - i,
    {
        let ghost midway = path_line_sets@;
        parts[i].accumulate_path_line_sets(path_line_sets, before, after);
        assert forall|path: Seq<char>| #[trigger]
            path_line_sets@.contains_key(path) <==> old(path_line_sets)@.contains_key(path)
                || any_covers_path(parts@, i + 1, path) by {
            assert(midway.contains_key(path) <==> old(path_line_sets)@.contains_key(path)
                || any_covers_path(parts@, i as int, path));
            assert(any_covers_path(parts@, i + 1, path) <==> any_covers_path(
                parts@,
                i as int,
                path,
            ) || parts@[i as int].covers_path(path));
        }
        assert forall|path: Seq<char>, line: u32| #[trigger]
            lines_at(path_line_sets@, path).contains(line) <==> lines_at(
                old(path_line_sets)@,
                path,
            ).contains(line) || any_covers_line(parts@, i + 1, path, line, before, after) by {
            assert(lines_at(midway, path).contains(line) <==> lines_at(
                old(path_line_sets)@,
                path,
            ).contains(line) || any_covers_line(parts@, i as int, path, line, before, after));
            assert(any_covers_line(parts@, i + 1, path, line, before, after) <==> any_covers_line(
                parts@,
                i as int,
                path,
                line,
                before,
                after,
            ) || parts@[i as int].covers_line(path, line, before, after));
        }
        i = i + 1;
    }
}

/// Puts the lines of `path_line_contents` into the spans of each of
/// `parts`.
pub fn ingest_each<T: SpanGroup>(
    parts: &mut Vec<T>,
    path_line_contents: &NameMap<HashMap<u32, String>>,
    before: u32,
    after: u32,
)
    ensures
        each_ingested_from(final(parts)@, old(parts)@, path_line_contents@, before, after),
{
    let mut i: usize = 0;
    while i < parts.len()
        invariant
            i <= parts.len(),
            parts.len() == old(parts).len(),
            forall|j: int| i <= j < parts.len() ==> parts[j] == old(parts)[j],
            forall|j: int|
                0 <= j < i ==> (#[trigger] parts[j]).ingested_from(
                    &old(parts)[j],
                    path_line_contents@,
                    before,
                    after,
                ),
        decreases parts.len() - i,
    {
        parts[i].ingest_html_lines(path_line_contents, before, after);
        i = i + 1;
    }
}

impl FlattenedLineSpan {
    /// Whether `line` lies in this span once it is widened by `before`
    /// lines above and `after` lines below.
    pub open spec fn covers(&self, line: u32, before: u32, after: u32) -> bool {
        expanded_start(self.line_range.0 as int, before as int) <= line <= self.line_range.1
            + after
    }

    /// The first line of this span with `before` lines of context above
    /// it: never below line 1.
    pub fn expanded_first_line(&self, before: u32) -> (first: u32)
        ensures
            first == expanded_start(self.line_range.0 as int, before as int),
    {
        if self.line_range.0 > before && self.line_range.0 - before > 1 {
            self.line_range.0 - before
        } else {
            1
        }
    }

    /// Expand the range by `before` lines above and `after` lines below.
    /// The start does not go below line 1; spans nearby are not looked at.
    pub fn expand_range_in_isolation(&self, before: u32, after: u32) -> (range: (u32, u32))
        requires
            self.line_range.1 + after <= u32::MAX,
        ensures
            range.0 == expanded_start(self.line_range.0 as int, before as int),
            range.1 == self.line_range.1 + after,
    {
        (self.expanded_first_line(before), self.line_range.1 + after)
    }
}

impl FlattenedResultsByFile {
    /// Whether one of the first `count` spans of this file, widened by
    /// `before` and `after` lines, holds `line`.
    pub open spec fn covers_within(&self, count: int, line: u32, before: u32, after: u32) -> bool {
        exists|i: int|
            0 <= i < count && i < self.line_spans.len() && #[trigger] self.line_spans[i].covers(
                line,
                before,
                after,
            )
    }

    /// Whether some span of this file, widened by `before` and `after`
    /// lines, holds `line`.
    pub open spec fn covers(&self, line: u32, before: u32, after: u32) -> bool {
        self.covers_within(self.line_spans.len() as int, line, before, after)
    }

    /// Adds to the set kept under this file's path every line of every
    /// span, each widened by `before` and `after` lines.  The path gets a
    /// set even if this file has no span.
    pub fn accumulate_path_line_sets(
        &self,
        path_line_sets: &mut NameMap<HashSet<u32>>,
        before: u32,
        after: u32,
    )
        ensures
            line_sets_extended(
                old(path_line_sets)@,
                final(path_line_sets)@,
                self,
                before,
                after,
            ),
    {
        SpanGroup::accumulate_path_line_sets(self, path_line_sets, before, after)
    }

    /// Puts into each span the lines of this file that `path_line_contents`
    /// has for it, with up to `before` lines of context above and `after`
    /// below.
    ///
    /// The spans are taken in order.  Each is widened by the context, then
    /// cut so that it starts after every line an earlier span has claimed
    /// and ends before the line on which the next span started.  Its range
    /// becomes the run of that many lines as were found, from its first
    /// line on, and its text the lines found, joined by newlines.  If
    /// `path_line_contents` does not have this file, nothing changes.
    pub fn ingest_html_lines(
        &mut self,
        path_line_contents: &NameMap<HashMap<u32, String>>,
        before: u32,
        after: u32,
    )
        ensures
            final(self).ingested_from(old(self), path_line_contents@, before, after),
    {
        SpanGroup::ingest_html_lines(self, path_line_contents, before, after)
    }
}

impl SpanGroup for FlattenedResultsByFile {
    open spec fn covers_path(&self, path: Seq<char>) -> bool {
        self.file@ == path
    }

    open spec fn covers_line(&self, path: Seq<char>, line: u32, before: u32, after: u32) -> bool {
        self.file@ == path && self.covers(line, before, after)
    }

    /// A file that `contents` lacks is left as it was.
    open spec fn ingested_from(
        &self,
        earlier: &Self,
        contents: Map<Seq<char>, HashMap<u32, String>>,
        before: u32,
        after: u32,
    ) -> bool {
        &&& self.file == earlier.file
        &&& self.line_spans.len() == earlier.line_spans.len()
        &&& !contents.contains_key(earlier.file@) ==> self == earlier
        &&& contents.contains_key(earlier.file@) ==> forall|i: int|
            0 <= i < earlier.line_spans.len() ==> span_reconciled(
                earlier.line_spans@,
                i,
                contents[earlier.file@]@,
                before as int,
                after as int,
                #[trigger] self.line_spans[i],
            )
    }

    fn accumulate_path_line_sets(
        &self,
        path_line_sets: &mut NameMap<HashSet<u32>>,
        before: u32,
        after: u32,
    ) {
        broadcast use vstd::std_specs::hash::group_hash_axioms;

        let mut line_set: HashSet<u32> = match path_line_sets.remove(self.file.as_str()) {
            Some(set) => set,
            None => HashSet::new(),
        };
        let ghost start_set = line_set@;
        let mut i: usize = 0;
        while i < self.line_spans.len()
            invariant
                i <= self.line_spans.len(),
                forall|l: u32|
                    #[trigger] line_set@.contains(l) <==> start_set.contains(l)
                        || self.covers_within(i as int, l, before, after),
            decreases self.line_spans.len() - i,
        {
            let span = &self.line_spans[i];
            let first: u32 = span.expanded_first_line(before);
            let wanted: u64 = span.line_range.1 as u64 + after as u64;
            let last: u64 = if wanted > u32::MAX as u64 {
                u32::MAX as u64
            } else {
                wanted
            };
            let ghost span_start_set = line_set@;
            let mut line: u64 = first as u64;
            while line <= last
                invariant
                    first <= line,
                    last <= u32::MAX,
                    line <= last + 1 || line == first,
                    forall|l: u32|
                        #[trigger] line_set@.contains(l) <==> span_start_set.contains(l) || (first
                            <= l < line),
                decreases last + 1 - line,
            {
                line_set.insert(line as u32);
                line = line + 1;
            }
            assert forall|l: u32|
                #[trigger] line_set@.contains(l) <==> start_set.contains(l) || self.covers_within(
                    i + 1,
                    l,
                    before,
                    after,
                ) by {
                assert(self.line_spans[i as int].covers(l, before, after) <==> first <= l < line);
                assert(self.covers_within(i + 1, l, before, after) <==> self.covers_within(
                    i as int,
                    l,
                    before,
                    after,
                ) || self.line_spans[i as int].covers(l, before, after));
            }
            i = i + 1;
        }
        path_line_sets.insert(self.file.clone(), line_set);
    }

    fn ingest_html_lines(
        &mut self,
        path_line_contents: &NameMap<HashMap<u32, String>>,
        before: u32,
        after: u32,
    ) {
        broadcast use vstd::std_specs::hash::group_hash_axioms;

        let file_contents = match path_line_contents.get(self.file.as_str()) {
            Some(contents) => contents,
            None => {
                return;
            },
        };
        let count: usize = self.line_spans.len();
        let mut highest: i64 = 0;
        let mut i: usize = 0;
        while i < count
            invariant
                count == old(self).line_spans.len(),
                self.line_spans.len() == count,
                i <= count,
                self.file == old(self).file,
                highest == highest_line(old(self).line_spans@, i as int, after as int),
                0 <= highest <= 2 * u32::MAX,
                forall|j: int| i <= j < count ==> self.line_spans[j] == old(self).line_spans[j],
                forall|j: int|
                    0 <= j < i ==> span_reconciled(
                        old(self).line_spans@,
                        j,
                        file_contents@,
                        before as int,
                        after as int,
                        #[trigger] self.line_spans[j],
                    ),
            decreases count - i,
        {
            proof {
                lemma_highest_line_bounds(old(self).line_spans@, i as int, after as int);
            }
            let own_end: i64 = self.line_spans[i].line_range.1 as i64;
            let mut this_start: i64 = self.line_spans[i].expanded_first_line(before) as i64;
            if this_start <= highest {
                this_start = highest + 1;
            }
            let mut this_end: i64 = own_end + after as i64;
            if i + 1 < count {
                let next_start: i64 = self.line_spans[i + 1].line_range.0 as i64;
                if this_end >= next_start {
                    this_end = next_start - 1;
                }
            }
            let last: i64 = if this_end > u32::MAX as i64 {
                u32::MAX as i64
            } else {
                this_end
            };
            let mut text = String::new();
            let mut found: i64 = 0;
            let mut line: i64 = this_start;
            proof {
                lemma_fetched_lines_len(file_contents@, this_start as int, this_start - 1);
            }
            while line <= last
                invariant
                    1 <= this_start <= line,
                    last <= u32::MAX,
                    line <= last + 1 || line == this_start,
                    0 <= found <= line - this_start,
                    found == fetched_lines(file_contents@, this_start as int, line - 1).len(),
                    text@ == joined_lines(
                        fetched_lines(file_contents@, this_start as int, line - 1),
                    ),
                decreases last + 1 - line,
            {
                let ghost earlier = fetched_lines(file_contents@, this_start as int, line - 1);
                let key: u32 = line as u32;
                match file_contents.get(&key) {
                    Some(content) => {
                        if found > 0 {
                            proof {
                                reveal_strlit("\n");
                            }
                            text.append("\n");
                        }
                        text.append(content.as_str());
                        found = found + 1;
                        assert(earlier.push(content@).drop_last() =~= earlier);
                    },
                    None => {},
                }
                line = line + 1;
            }
            proof {
                if line != last + 1 {
                    lemma_fetched_lines_len(file_contents@, this_start as int, last as int);
                }
                if this_end > u32::MAX {
                    lemma_fetched_lines_capped(file_contents@, this_start as int, this_end as int);
                }
            }
            let new_end: i64 = this_start + found - 1;
            self.line_spans[i].line_range = (this_start as u32, new_end as u32);
            self.line_spans[i].contents = text;
            if this_end > highest {
                highest = this_end;
            }
            i = i + 1;
        }
    }
}

} // verus!
