//! Compiled regular expressions and the confusable-skeleton transform.
//!
//! Matching is done by the `regex` crate and skeletons by `unicode-security`;
//! both are reached only through the small trusted functions of this module,
//! whose results are given names (uninterpreted specification functions) over
//! the pattern's source text and the searched text.

use vstd::prelude::*;

verus! {

#[verifier::external_type_specification]
#[verifier::external_body]
pub struct ExRegex(regex::Regex);

#[verifier::external_type_specification]
#[verifier::external_body]
pub struct ExRegexError(regex::Error);

/// Whether `regex::Regex::new` accepts `pattern`: its syntax is valid and the
/// compiled program stays within the crate's default size limit.
pub uninterp spec fn regex_compiles(pattern: Seq<char>) -> bool;

/// What `regex::Regex::is_match` answers for `pattern` on `text`.
pub uninterp spec fn regex_is_match(pattern: Seq<char>, text: Seq<char>) -> bool;

/// The text of the leftmost-first match that `regex::Regex::find` reports.
pub uninterp spec fn regex_find(pattern: Seq<char>, text: Seq<char>) -> Option<Seq<char>>;

/// For the first match that `regex::Regex::captures` reports: the text of
/// capture group `group`, or `None` inside when that group took no part in it.
pub uninterp spec fn regex_captures_group(
    pattern: Seq<char>,
    text: Seq<char>,
    group: nat,
) -> Option<Option<Seq<char>>>;

/// For each successive match that `regex::Regex::captures_iter` yields, in
/// order: the text of capture group `group`, or `None` where it took no part.
pub uninterp spec fn regex_captures_iter_group(
    pattern: Seq<char>,
    text: Seq<char>,
    group: nat,
) -> Seq<Option<Seq<char>>>;

/// How many successive non-overlapping matches `regex::Regex::find_iter`
/// yields for `pattern` on `text`.
pub uninterp spec fn regex_match_count(pattern: Seq<char>, text: Seq<char>) -> nat;

/// The confusable skeleton (Unicode TS #39) that
/// `unicode_security::skeleton` computes for `text`.
pub uninterp spec fn confusable_skeleton(text: Seq<char>) -> Seq<char>;

/// The view of an optional string.
pub open spec fn opt_view(o: Option<String>) -> Option<Seq<char>> {
    match o {
        Some(s) => Some(s@),
        None => None,
    }
}

/// A compiled regular expression together with the source it was compiled
/// from. Only `Pattern::new` builds one, so `compiled` is always the
/// compilation of `source`.
pub struct Pattern {
    source: String,
    compiled: regex::Regex,
}

/// Why a pattern was refused: the error that the `regex` crate reported.
#[derive(Debug)]
pub struct PatternError {
    pub error: regex::Error,
}

impl View for Pattern {
    type V = Seq<char>;

    /// A pattern is seen as its source text.
    closed spec fn view(&self) -> Seq<char> {
        self.source@
    }
}

/// Calls `regex::Regex::new`; on success the pattern keeps `source` beside
/// the compiled expression. Claims: it succeeds exactly when
/// `regex_compiles(source)`, and the kept source is `source`.
#[verifier::external_body]
fn compile_regex(source: &str) -> (res: Result<Pattern, regex::Error>)
    ensures
        res is Ok <==> regex_compiles(source@),
        res matches Ok(p) ==> p@ == source@,
{
    match regex::Regex::new(source) {
        Ok(compiled) => Ok(Pattern { source: source.to_string(), compiled }),
        Err(e) => Err(e),
    }
}

/// Calls `unicode_security::skeleton` and collects its characters. Claims:
/// the result is `confusable_skeleton(text)`.
#[verifier::external_body]
pub(crate) fn skeletonize(text: &str) -> (res: String)
    ensures
        res@ == confusable_skeleton(text@),
{
    unicode_security::skeleton(text).collect()
}

impl Pattern {
    /// Compiles `source`, failing exactly when the `regex` crate refuses it.
    pub fn new(source: &str) -> (res: Result<Pattern, PatternError>)
        ensures
            res is Ok <==> regex_compiles(source@),
            res matches Ok(p) ==> p@ == source@,
    {
        match compile_regex(source) {
            Ok(p) => Ok(p),
            Err(error) => Err(PatternError { error }),
        }
    }

    /// The source text the pattern was compiled from; this is also how the
    /// `regex` crate displays a compiled expression.
    pub fn as_str(&self) -> (res: &str)
        ensures
            res@ == self@,
    {
        self.source.as_str()
    }

    /// Calls `regex::Regex::is_match`. Claims: the answer is
    /// `regex_is_match(self, text)`.
    #[verifier::external_body]
    pub(crate) fn is_match(&self, text: &str) -> (res: bool)
        ensures
            res == regex_is_match(self@, text@),
    {
        self.compiled.is_match(text)
    }

    /// Calls `regex::Regex::find` and copies out the matched text. Claims:
    /// the result is `regex_find(self, text)`.
    #[verifier::external_body]
    pub(crate) fn find(&self, text: &str) -> (res: Option<String>)
        ensures
            opt_view(res) == regex_find(self@, text@),
    {
        match self.compiled.find(text) {
            Some(m) => Some(m.as_str().to_string()),
            None => None,
        }
    }

    /// Calls `regex::Regex::captures` and reads group `group` of the match
    /// with `Captures::get`. Claims: the result is
    /// `regex_captures_group(self, text, group)`.
    #[verifier::external_body]
    pub(crate) fn captures_group(&self, text: &str, group: usize) -> (res: Option<Option<String>>)
        ensures
            res.deep_view() == regex_captures_group(self@, text@, group as nat),
    {
        match self.compiled.captures(text) {
            Some(c) => match c.get(group) {
                Some(m) => Some(Some(m.as_str().to_string())),
                None => Some(None),
            },
            None => None,
        }
    }

    /// Calls `regex::Regex::captures_iter` and reads group `group` of every
    /// match with `Captures::get`. Claims: the result is
    /// `regex_captures_iter_group(self, text, group)`.
    #[verifier::external_body]
    pub(crate) fn captures_iter_group(&self, text: &str, group: usize) -> (res: Vec<Option<String>>)
        ensures
            res.deep_view() == regex_captures_iter_group(self@, text@, group as nat),
    {
        let mut groups = Vec::new();
        for c in self.compiled.captures_iter(text) {
            match c.get(group) {
                Some(m) => groups.push(Some(m.as_str().to_string())),
                None => groups.push(None),
            }
        }
        groups
    }

    /// Calls `regex::Regex::find_iter` and counts the matches. Claims: the
    /// count is `regex_match_count(self, text)`.
    #[verifier::external_body]
    pub(crate) fn match_count(&self, text: &str) -> (res: usize)
        ensures
            res == regex_match_count(self@, text@),
    {
        self.compiled.find_iter(text).count()
    }
}

} // verus!
