//! Regular expressions and letter case, as the `regex` crate and std have them.
use vstd::prelude::*;

verus! {

/// What each capture group of each match holds, group 0 first; `None` where
/// the pattern does not compile.
pub uninterp spec fn regex_captures(pattern: Seq<char>, text: Seq<char>) -> Option<
    Seq<Seq<Option<Seq<char>>>>,
>;

/// The text with each match replaced; `None` where the pattern does not compile.
pub uninterp spec fn regex_replaced(
    pattern: Seq<char>,
    text: Seq<char>,
    replacement: Seq<char>,
) -> Option<Seq<char>>;

/// The parts of the text between the matches; `None` where the pattern does
/// not compile.
pub uninterp spec fn regex_split(pattern: Seq<char>, text: Seq<char>) -> Option<Seq<Seq<char>>>;

/// The lower-case form of a text.
pub uninterp spec fn lowercase(text: Seq<char>) -> Seq<char>;

/// Lists `regex::Regex::captures_iter` for the pattern: one item for each
/// match, from left to right, holding what each group matched, or `None` for a
/// group that took no part. The outcome is a function of pattern and text, and
/// is named, not described. `None` stands for a pattern that `Regex::new`
/// refuses.
#[verifier::external_body]
pub(crate) fn captures(pattern: &str, text: &str) -> (r: Option<Vec<Vec<Option<String>>>>)
    ensures
        r.deep_view() == regex_captures(pattern@, text@),
{
    let re = regex::Regex::new(pattern).ok()?;
    let groups = |c: regex::Captures| c.iter().map(|m| m.map(|m| m.as_str().to_string())).collect();
    Some(re.captures_iter(text).map(groups).collect())
}

/// `regex::Regex::replace_all` for the pattern: the text with every match
/// replaced. The outcome is a function of pattern, text and replacement, and is
/// named, not described. `None` stands for a pattern that `Regex::new` refuses.
#[verifier::external_body]
pub(crate) fn replace_all(pattern: &str, text: &str, replacement: &str) -> (r: Option<String>)
    ensures
        r.deep_view() == regex_replaced(pattern@, text@, replacement@),
{
    let re = regex::Regex::new(pattern).ok()?;
    Some(re.replace_all(text, replacement).into_owned())
}

/// Lists `regex::Regex::split` for the pattern: the parts of the text that the
/// matches delimit, from left to right. The outcome is a function of pattern
/// and text, and is named, not described. `None` stands for a pattern that
/// `Regex::new` refuses.
#[verifier::external_body]
pub(crate) fn split(pattern: &str, text: &str) -> (r: Option<Vec<String>>)
    ensures
        r.deep_view() == regex_split(pattern@, text@),
{
    let re = regex::Regex::new(pattern).ok()?;
    Some(re.split(text).map(|p| p.to_string()).collect())
}

/// `str::to_lowercase`: the lower-case form of the text, by Unicode's
/// `Lowercase` property. It depends on the text alone and is named, not
/// described.
pub assume_specification[ str::to_lowercase ](s: &str) -> (r: String)
    ensures
        r@ == lowercase(s@),
;

} // verus!
