//! The plainer values of a pipeline: matches, records, excerpts and texts.

use crate::json::{as_str, json_member, json_str, member};
use serde_json::Value;
use std::collections::HashSet;
use vstd::prelude::*;

verus! {

/// A file found by its name or path.
#[derive(Debug)]
pub struct FileMatch {
    pub path: String,
}

/// A list of files found by name or path.
#[derive(Debug)]
pub struct FileMatches {
    pub file_matches: Vec<FileMatch>,
}

/// The raw analysis records of one source file.
#[derive(Debug)]
pub struct JsonRecordsByFile {
    pub file: String,
    pub records: Vec<Value>,
}

/// A single JSON value, as a query returned it.
#[derive(Debug)]
pub struct JsonValue {
    pub value: Value,
}

/// Raw analysis records, grouped by source file.
#[derive(Debug)]
pub struct JsonRecords {
    pub by_file: Vec<JsonRecordsByFile>,
}

/// The rendered excerpts of one file.
#[derive(Debug)]
pub struct HtmlExcerptsByFile {
    pub file: String,
    pub excerpts: Vec<String>,
}

/// Rendered excerpts, grouped by file.
#[derive(Debug)]
pub struct HtmlExcerpts {
    pub by_file: Vec<HtmlExcerptsByFile>,
}

/// A rendered text with its media type.
#[derive(Debug)]
pub struct TextFile {
    pub mime_type: String,
    pub contents: String,
}

/// Where on its line a text match lies, in bytes.
#[derive(Clone, Copy, Debug, PartialEq, Eq, Structural)]
pub struct TextBounds {
    pub start: u32,
    pub end_exclusive: u32,
}

/// One line of a file that matched a text search.
#[derive(Debug)]
pub struct TextMatchInFile {
    pub line_num: u32,
    pub bounds: TextBounds,
    pub line_str: String,
}

/// The lines of one file that matched a text search.
#[derive(Debug)]
pub struct TextMatchesByFile {
    pub file: String,
    pub matches: Vec<TextMatchInFile>,
}

/// What a text search found, grouped by file.
#[derive(Debug)]
pub struct TextMatches {
    pub by_file: Vec<TextMatchesByFile>,
}

/// A collection of symbol graphs.  It is made and read elsewhere; a
/// pipeline only carries it along, as the document that describes it.
#[derive(Debug)]
pub struct SymbolGraphCollection {
    pub graphs: Value,
}

/// Whether `c` is one of the digits `0` to `9`.
pub open spec fn is_digit(c: char) -> bool {
    '0' as u32 <= c as u32 <= '9' as u32
}

/// Whether `text` holds digits only.
pub open spec fn all_digits(text: Seq<char>) -> bool {
    forall|i: int| 0 <= i < text.len() ==> is_digit(#[trigger] text[i])
}

/// The number that the digits of `text` write in base ten.
pub open spec fn digits_value(text: Seq<char>) -> nat
    decreases text.len(),
{
    if text.len() == 0 {
        0
    } else {
        digits_value(text.drop_last()) * 10 + (text.last() as u32 - '0' as u32) as nat
    }
}

/// The place of the first colon of `loc` at or after `from`, or the length
/// of `loc` if there is none.
pub open spec fn first_colon(loc: Seq<char>, from: int) -> int
    decreases loc.len() - from,
{
    if from < 0 || from >= loc.len() {
        loc.len() as int
    } else if loc[from] == ':' {
        from
    } else {
        first_colon(loc, from + 1)
    }
}

/// The number that `text` writes: digits, with at most a `+` before them,
/// that make a number a `u32` can hold.  Anything else writes no number.
pub open spec fn parsed_number(text: Seq<char>) -> Option<u32> {
    let digits = if text.len() > 0 && text[0] == '+' {
        text.drop_first()
    } else {
        text
    };
    if digits.len() > 0 && all_digits(digits) && digits_value(digits) <= u32::MAX {
        Some(digits_value(digits) as u32)
    } else {
        None
    }
}

/// The line that the location `loc` starts on: the number before its
/// first colon, or 0 where that is no number.
pub open spec fn line_of_location(loc: Seq<char>) -> u32 {
    match parsed_number(loc.take(first_colon(loc, 0))) {
        Some(line) => line,
        None => 0,
    }
}

/// More digits do not write a smaller number.
pub proof fn lemma_digits_value_grows(text: Seq<char>, upto: int)
    requires
        0 <= upto <= text.len(),
        all_digits(text),
    ensures
        digits_value(text.take(upto)) <= digits_value(text),
    decreases text.len() - upto,
{
    if upto < text.len() {
        lemma_digits_value_grows(text, upto + 1);
        assert(text.take(upto + 1).drop_last() =~= text.take(upto));
    } else {
        assert(text.take(upto) =~= text);
    }
}

/// The first colon at or after `from` is at `from` or later, and within
/// the text or at its end.
pub proof fn lemma_first_colon_bounds(loc: Seq<char>, from: int)
    requires
        0 <= from <= loc.len(),
    ensures
        from <= first_colon(loc, from) <= loc.len(),
        first_colon(loc, from) < loc.len() ==> loc[first_colon(loc, from)] == ':',
        forall|i: int| from <= i < first_colon(loc, from) ==> loc[i] != ':',
    decreases loc.len() - from,
{
    if from < loc.len() && loc[from] != ':' {
        lemma_first_colon_bounds(loc, from + 1);
    }
}

/// The line that a location of the form `line:columns` starts on, or 0
/// where it names none.
pub fn location_line(loc: &str) -> (line: u32)
    ensures
        line == line_of_location(loc@),
{
    let mut first: bool = true;
    let mut done: bool = false;
    let mut failed: bool = false;
    let mut signed: bool = false;
    let mut any: bool = false;
    let mut value: u64 = 0;
    let ghost mut end: int = 0;
    for c in it: loc.chars()
        invariant
            it.seq() == loc@,
            first == (it.index() == 0),
            !failed && !done ==> first_colon(loc@, 0) == first_colon(loc@, it.index() as int),
            !failed && done ==> 0 <= end < it.index() && first_colon(loc@, 0) == end,
            !failed ==> (signed <==> it.index() > 0 && loc@[0] == '+'),
            failed ==> line_of_location(loc@) == 0,
            !failed ==> {
                let start = if signed { 1int } else { 0int };
                let upto = if done { end } else { it.index() as int };
                &&& start <= upto
                &&& all_digits(loc@.subrange(start, upto))
                &&& value == digits_value(loc@.subrange(start, upto))
                &&& value <= u32::MAX
                &&& any == (upto > start)
            },
    {
        let ghost k = it.index() as int;
        proof {
            lemma_first_colon_bounds(loc@, k);
            lemma_first_colon_bounds(loc@, k + 1);
            lemma_first_colon_bounds(loc@, 0);
        }
        if done || failed {
            // the line is settled; the rest of the location does not matter
        } else if c == ':' {
            done = true;
            proof {
                end = k;
            }
        } else if first && c == '+' {
            signed = true;
        } else {
            let code: u32 = c as u32;
            let ghost start = if signed { 1int } else { 0int };
            let ghost field = loc@.take(first_colon(loc@, 0));
            let ghost digits = loc@.subrange(start, first_colon(loc@, 0));
            let ghost sofar = loc@.subrange(start, k + 1);
            proof {
                if signed {
                    assert(field.drop_first() =~= digits);
                }
                assert(digits[k - start] == c);
                assert(sofar.drop_last() =~= loc@.subrange(start, k));
                assert(digits.take(k + 1 - start) =~= sofar);
            }
            if code < 48 || code > 57 {
                failed = true;
            } else {
                value = value * 10 + (code - 48) as u64;
                any = true;
                if value > u32::MAX as u64 {
                    proof {
                        if all_digits(digits) {
                            lemma_digits_value_grows(digits, k + 1 - start);
                        }
                    }
                    failed = true;
                }
            }
        }
        first = false;
    }
    proof {
        lemma_first_colon_bounds(loc@, 0);
        if signed && !failed {
            let last = first_colon(loc@, 0);
            assert(loc@.take(last).drop_first() =~= loc@.subrange(1, last));
        }
    }
    if failed || !any {
        0
    } else {
        value as u32
    }
}

impl JsonRecordsByFile {
    /// The line that `record` lies on, if it says where it lies: the line
    /// of the location in its `loc` field.
    pub open spec fn record_line(record: Value) -> Option<u32> {
        match json_str(json_member(record, "loc"@)) {
            Some(loc) => Some(line_of_location(loc)),
            None => None,
        }
    }

    /// Whether one of the first `count` records lies on `line`.
    pub open spec fn covers_within(&self, count: int, line: u32) -> bool {
        exists|i: int|
            0 <= i < count && i < self.records.len() && #[trigger] Self::record_line(
                self.records[i],
            ) == Some(line)
    }

    /// The set of lines that the records of this file lie on.
    pub fn line_set(&self) -> (lines: HashSet<u32>)
        ensures
            forall|line: u32| #[trigger]
                lines@.contains(line) <==> self.covers_within(self.records.len() as int, line),
    {
        broadcast use vstd::std_specs::hash::group_hash_axioms;

        let mut lines: HashSet<u32> = HashSet::new();
        let mut i: usize = 0;
        while i < self.records.len()
            invariant
                i <= self.records.len(),
                forall|line: u32| #[trigger]
                    lines@.contains(line) <==> self.covers_within(i as int, line),
            decreases self.records.len() - i,
        {
            match as_str(member(&self.records[i], "loc")) {
                Some(loc) => {
                    let line: u32 = location_line(loc);
                    lines.insert(line);
                },
                None => {},
            }
            assert forall|line: u32| #[trigger]
                lines@.contains(line) <==> self.covers_within(i + 1, line) by {
                assert(self.covers_within(i + 1, line) <==> self.covers_within(i as int, line)
                    || Self::record_line(self.records[i as int]) == Some(line));
            }
            i = i + 1;
        }
        lines
    }
}

} // verus!
