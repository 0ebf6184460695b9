//! The full-text search command: what it asks the backend.

use crate::errors::{ErrorLayer, ServerError};
use vstd::prelude::*;

verus! {

/// The arguments of a full-text search.
#[derive(Debug)]
pub struct SearchText {
    /// Text to search for, taken literally.
    pub text: Option<String>,
    /// A regular expression to search for; it goes before `text`.
    pub re: Option<String>,
    /// A path pattern that is no regular expression yet.
    pub path: Option<String>,
    /// A regular expression that paths must match; it goes before `path`.
    pub pathre: Option<String>,
    /// Whether case matters.  By default it does not.
    pub case_sensitive: bool,
    /// The most matches to return; 0 for the backend's own limit.
    pub limit: usize,
}

/// The command that runs a full-text search against the backend.
#[derive(Debug)]
pub struct SearchTextCommand {
    pub args: SearchText,
}

/// What the backend's text search is asked.
#[derive(Debug)]
pub struct TextSearchRequest {
    pub pattern: String,
    pub case_insensitive: bool,
    pub path_pattern: String,
    pub limit: usize,
}

/// Whether `c` means something in a regular expression: the characters
/// that `regex` escapes.
pub open spec fn is_meta_character(c: char) -> bool {
    c == '\\' || c == '.' || c == '+' || c == '*' || c == '?' || c == '(' || c == ')' || c == '|'
        || c == '[' || c == ']' || c == '{' || c == '}' || c == '^' || c == '$' || c == '#'
        || c == '&' || c == '-' || c == '~'
}

/// `text` with a backslash before each of its meta characters.
pub open spec fn escaped(text: Seq<char>) -> Seq<char>
    decreases text.len(),
{
    if text.len() == 0 {
        Seq::empty()
    } else if is_meta_character(text.last()) {
        escaped(text.drop_last()) + seq!['\\', text.last()]
    } else {
        escaped(text.drop_last()) + seq![text.last()]
    }
}

/// Calls `regex::escape`.  Trusted: the result is `text`, character by
/// character, with a backslash put before each character for which
/// `regex_syntax::is_meta_character` holds.
#[verifier::external_body]
fn escape(text: &str) -> (quoted: String)
    ensures
        quoted@ == escaped(text@),
{
    regex::escape(text)
}

impl SearchTextCommand {
    /// The message of the error for a search that names nothing to search
    /// for.
    pub open spec fn missing_pattern_message() -> Seq<char> {
        "Missing search text or `re` pattern!"@
    }

    /// The pattern that the backend is asked for: the regular expression
    /// if one is given, else the text with its meta characters escaped.
    pub open spec fn pattern(&self) -> Option<Seq<char>> {
        match (self.args.re, self.args.text) {
            (Some(re), _) => Some(re@),
            (None, Some(text)) => Some(escaped(text@)),
            (None, None) => None,
        }
    }

    /// Whether `path_pattern` is the path pattern that the backend is asked
    /// for: the regular expression for paths if one is given, else what
    /// `glob_to_regex` makes of the path pattern, else the empty pattern.
    pub open spec fn path_pattern_is<F: Fn(&str) -> String>(
        &self,
        glob_to_regex: F,
        path_pattern: String,
    ) -> bool {
        match (self.args.pathre, self.args.path) {
            (Some(pathre), _) => path_pattern@ == pathre@,
            (None, Some(path)) => exists|glob: &str|
                glob@ == path@ && #[trigger] glob_to_regex.ensures((glob,), path_pattern),
            (None, None) => path_pattern@ == Seq::<char>::empty(),
        }
    }

    /// Works out what to ask the backend.
    ///
    /// A search that gives neither a regular expression nor a text is
    /// answered with an error of the input layer, before anything else is
    /// looked at.  `glob_to_regex` is called only for a path pattern that
    /// is no regular expression, and only if none is given beside it.
    pub fn request<F: Fn(&str) -> String>(&self, glob_to_regex: F) -> (planned: Result<
        TextSearchRequest,
        ServerError,
    >)
        requires
            forall|glob: &str| glob_to_regex.requires((glob,)),
        ensures
            match planned {
                Ok(request) => {
                    &&& self.pattern() == Some(request.pattern@)
                    &&& request.case_insensitive == !self.args.case_sensitive
                    &&& self.path_pattern_is(glob_to_regex, request.path_pattern)
                    &&& request.limit == self.args.limit
                },
                Err(err) => {
                    &&& self.pattern() is None
                    &&& err.spec_layer() == ErrorLayer::BadInput
                    &&& err.spec_message() == Self::missing_pattern_message()
                },
            },
    {
        let pattern: String = match &self.args.re {
            Some(re) => re.clone(),
            None => match &self.args.text {
                Some(text) => escape(text.as_str()),
                None => {
                    return Err(ServerError::bad_input("Missing search text or `re` pattern!"));
                },
            },
        };
        let path_pattern: String = match &self.args.pathre {
            Some(pathre) => pathre.clone(),
            None => match &self.args.path {
                Some(path) => glob_to_regex(path.as_str()),
                None => String::new(),
            },
        };
        Ok(
            TextSearchRequest {
                pattern,
                case_insensitive: !self.args.case_sensitive,
                path_pattern,
                limit: self.args.limit,
            },
        )
    }
}

} // verus!
