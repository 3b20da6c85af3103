use vstd::prelude::*;

verus! {

/// Whether a pattern text compiles as a regular expression.
pub uninterp spec fn pattern_ok(pattern: Seq<char>) -> bool;

/// Whether a pattern matches anywhere in a text.
pub uninterp spec fn regex_match(pattern: Seq<char>, text: Seq<char>) -> bool;

/// The text with every non-overlapping match of the pattern replaced by the
/// literal replacement.
pub uninterp spec fn replace_all_of(
    pattern: Seq<char>,
    replacement: Seq<char>,
    text: Seq<char>,
) -> Seq<char>;

/// Relies on regex's `Regex::new`: whether a pattern compiles depends on the
/// pattern text alone.
#[verifier::external_body]
pub(crate) fn pattern_compiles(pattern: &str) -> (r: bool)
    ensures
        r == pattern_ok(pattern@),
{
    regex::Regex::new(pattern).is_ok()
}

/// Relies on regex's `Regex::new` and `Regex::is_match`: whether a pattern
/// matches somewhere in a text depends on the pattern and the text alone.
#[verifier::external_body]
pub(crate) fn pattern_matches(pattern: &str, text: &str) -> (r: bool)
    requires
        pattern_ok(pattern@),
    ensures
        r == regex_match(pattern@, text@),
{
    regex::Regex::new(pattern).unwrap().is_match(text)
}

/// Relies on regex's `Regex::new` and `Regex::replace_all` with `NoExpand`:
/// every non-overlapping match is replaced by the replacement taken
/// literally, with no capture-group expansion, and the result depends on the
/// three texts alone.
#[verifier::external_body]
pub(crate) fn pattern_replace_all(pattern: &str, replacement: &str, text: &str) -> (r: String)
    requires
        pattern_ok(pattern@),
    ensures
        r@ == replace_all_of(pattern@, replacement@, text@),
{
    let re = regex::Regex::new(pattern).unwrap();
    re.replace_all(text, regex::NoExpand(replacement)).into_owned()
}

/// One step of the rewrite engine: if the pattern matches the source, every
/// non-overlapping match is replaced by the literal replacement; otherwise
/// the step reports no rewrite.
pub fn apply_single_rewrite(rewrite: &String, replace: &String, source: &String) -> (r: Option<
    String,
>)
    requires
        pattern_ok(rewrite@),
    ensures
        r is Some <==> regex_match(rewrite@, source@),
        r matches Some(s) ==> s@ == replace_all_of(rewrite@, replace@, source@),
{
    if pattern_matches(rewrite.as_str(), source.as_str()) {
        Some(pattern_replace_all(rewrite.as_str(), replace.as_str(), source.as_str()))
    } else {
        None
    }
}

} // verus!
