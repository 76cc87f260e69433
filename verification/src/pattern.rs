//! Regular expressions, by the `regex` crate.

use vstd::prelude::*;

verus! {

/// Whether the pattern matches anywhere in the text, as `Regex::is_match`
/// tells; `None` where `Regex::new` does not take the pattern.
pub uninterp spec fn regex_is_match(pattern: Seq<char>, text: Seq<char>) -> Option<bool>;

/// The text with the first match of the pattern replaced, as `Regex::replace`
/// gives it; `None` where `Regex::new` does not take the pattern.
pub uninterp spec fn regex_replace_first(
    pattern: Seq<char>,
    text: Seq<char>,
    with: Seq<char>,
) -> Option<Seq<char>>;

/// The text with every match of the pattern replaced, as `Regex::replace_all`
/// gives it; `None` where `Regex::new` does not take the pattern.
pub uninterp spec fn regex_replace_all(
    pattern: Seq<char>,
    text: Seq<char>,
    with: Seq<char>,
) -> Option<Seq<char>>;

/// `Regex::new` compiles the pattern, `Regex::is_match` tells whether it
/// matches anywhere in the text. The answer depends on the pattern and the text
/// alone.
#[verifier::external_body]
pub(crate) fn is_match(pattern: &str, text: &str) -> (r: Option<bool>)
    ensures
        r == regex_is_match(pattern@, text@),
{
    match regex::Regex::new(pattern) {
        Ok(re) => Some(re.is_match(text)),
        Err(_) => None,
    }
}

/// `Regex::new` compiles the pattern, `Regex::replace` replaces its first match
/// in the text by what `with` expands to. The result depends on the three texts
/// alone.
#[verifier::external_body]
pub(crate) fn replace_first(pattern: &str, text: &str, with: &str) -> (r: Option<String>)
    ensures
        match r {
            Some(replaced) => regex_replace_first(pattern@, text@, with@) == Some(replaced@),
            None => regex_replace_first(pattern@, text@, with@) is None,
        },
{
    match regex::Regex::new(pattern) {
        Ok(re) => Some(re.replace(text, with).into_owned()),
        Err(_) => None,
    }
}

/// `Regex::new` compiles the pattern, `Regex::replace_all` replaces every match
/// in the text by what `with` expands to. The result depends on the three texts
/// alone.
#[verifier::external_body]
pub(crate) fn replace_all(pattern: &str, text: &str, with: &str) -> (r: Option<String>)
    ensures
        match r {
            Some(replaced) => regex_replace_all(pattern@, text@, with@) == Some(replaced@),
            None => regex_replace_all(pattern@, text@, with@) is None,
        },
{
    match regex::Regex::new(pattern) {
        Ok(re) => Some(re.replace_all(text, with).into_owned()),
        Err(_) => None,
    }
}

} // verus!
