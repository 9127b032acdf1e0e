//! Regular expressions.
//!
//! A regular expression is known by the text it was compiled from; what it matches is the
//! business of the `regex` crate.

use vstd::prelude::*;

verus! {

/// `regex::Regex`, a compiled regular expression.
#[verifier::external_type_specification]
#[verifier::external_body]
pub struct ExRegex(regex::Regex);

/// `regex::Error`, the reason why a text is no regular expression.
#[verifier::external_type_specification]
#[verifier::external_body]
pub struct ExRegexError(regex::Error);

/// The text that a regular expression was compiled from.
pub uninterp spec fn regex_source(re: regex::Regex) -> Seq<char>;

/// Whether a text is a regular expression that compiles.
pub uninterp spec fn regex_valid(pattern: Seq<char>) -> bool;

/// Whether a regular expression matches anywhere in a text.
pub uninterp spec fn regex_accepts(pattern: Seq<char>, text: Seq<char>) -> bool;

/// The byte ranges of the successive matches of a regular expression in a text.
pub uninterp spec fn regex_spans(pattern: Seq<char>, text: Seq<char>) -> Seq<(usize, usize)>;

/// `Regex::new` compiles a regular expression. Whether it does depends on the text alone, and
/// the text stays with the result.
pub assume_specification[ regex::Regex::new ](re: &str) -> (r: Result<regex::Regex, regex::Error>)
    ensures
        r is Ok <==> regex_valid(re@),
        r matches Ok(x) ==> regex_source(x) == re@,
;

/// `Regex::is_match` says whether there is a match anywhere in the text.
pub assume_specification[ regex::Regex::is_match ](re: &regex::Regex, haystack: &str) -> (r: bool)
    ensures
        r == regex_accepts(regex_source(*re), haystack@),
;

/// The start and end of each match that `Regex::find_iter` yields, in its order.
#[verifier::external_body]
pub(crate) fn find_spans(re: &regex::Regex, haystack: &str) -> (r: Vec<(usize, usize)>)
    ensures
        r@ == regex_spans(regex_source(*re), haystack@),
{
    re.find_iter(haystack).map(|m| (m.start(), m.end())).collect()
}

/// The text of the first match of a regular expression in a text.
pub uninterp spec fn regex_first(pattern: Seq<char>, text: Seq<char>) -> Option<Seq<char>>;

/// The text of the match that `Regex::find` returns. It is a piece of the text that is searched.
#[verifier::external_body]
pub(crate) fn find_text(re: &regex::Regex, haystack: &str) -> (r: Option<String>)
    ensures
        crate::incident::opt_view(r) == regex_first(regex_source(*re), haystack@),
        r matches Some(m) ==> crate::text::contains(haystack@, m@),
{
    re.find(haystack).map(|m| m.as_str().to_owned())
}

/// What an optional regular expression was compiled from.
pub open spec fn opt_source(re: Option<regex::Regex>) -> Option<Seq<char>> {
    match re {
        Some(x) => Some(regex_source(x)),
        None => None,
    }
}

/// Whether an optional text is absent or a regular expression that compiles.
pub open spec fn opt_valid(pattern: Option<Seq<char>>) -> bool {
    pattern matches Some(p) ==> regex_valid(p)
}

/// Compiles an optional regular expression.
pub fn compile_opt(pattern: &Option<String>) -> (r: Result<Option<regex::Regex>, regex::Error>)
    ensures
        r is Ok <==> opt_valid(crate::incident::opt_view(*pattern)),
        r matches Ok(x) ==> opt_source(x) == crate::incident::opt_view(*pattern),
{
    match pattern {
        Some(p) => match regex::Regex::new(p.as_str()) {
            Ok(x) => Ok(Some(x)),
            Err(e) => Err(e),
        },
        None => Ok(None),
    }
}

} // verus!
