//! Matching texts against regular expressions.

use vstd::prelude::*;

verus! {

/// Whether the regular expression `pattern` matches somewhere in `text`, or
/// `None` where `pattern` is no regular expression.
pub uninterp spec fn regex_verdict(pattern: Seq<char>, text: Seq<char>) -> Option<bool>;

/// `regex::Regex::new` and `regex::Regex::is_match`: compiles `pattern` and
/// says whether it matches somewhere in `text`. A pattern that does not
/// compile gives `None`.
#[verifier::external_body]
pub(crate) fn regex_test(pattern: &str, text: &str) -> (r: Option<bool>)
    ensures
        r == regex_verdict(pattern@, text@),
{
    match regex::Regex::new(pattern) {
        Ok(re) => Some(re.is_match(text)),
        Err(_) => None,
    }
}

/// The text `text` with the leftmost match of the regular expression
/// `pattern` replaced by `replacement`, in which `$` and a name or number
/// stand for what a group matched; or `None` where `pattern` is no regular
/// expression.
pub uninterp spec fn regex_replaced(
    pattern: Seq<char>,
    text: Seq<char>,
    replacement: Seq<char>,
) -> Option<Seq<char>>;

/// `regex::Regex::new` and `regex::Regex::replace`: compiles `pattern` and
/// replaces its leftmost match in `text`. A pattern that does not compile
/// gives `None`.
#[verifier::external_body]
pub(crate) fn regex_replace_first(pattern: &str, text: &str, replacement: &str) -> (r: Option<
    String,
>)
    ensures
        match r {
            Some(out) => regex_replaced(pattern@, text@, replacement@) == Some(out@),
            None => regex_replaced(pattern@, text@, replacement@) is None,
        },
{
    match regex::Regex::new(pattern) {
        Ok(re) => Some(re.replace(text, replacement).to_string()),
        Err(_) => None,
    }
}

} // verus!
