//! Matching a key against texts: exactly, by containment, by a regular
//! expression, or by similarity.

use crate::cmd_args::MatchMode;
use crate::pattern::{regex_test, regex_verdict};
use crate::text::{has_infix, lowercase_of, str_contains, to_lowercase};
use vstd::prelude::*;

verus! {

/// The bits of the similarity of two texts after Jaro and Winkler, a number
/// from 0 to 1 as a 64-bit float. Among such numbers the greater one has
/// the greater bits.
pub uninterp spec fn jaro_winkler_bits_of(a: Seq<char>, b: Seq<char>) -> u64;

/// `strsim::jaro_winkler` and `f64::to_bits`: the similarity of two texts,
/// handed out as its bits.
#[verifier::external_body]
fn jaro_winkler_bits(a: &str, b: &str) -> (r: u64)
    ensures
        r == jaro_winkler_bits_of(a@, b@),
{
    strsim::jaro_winkler(a, b).to_bits()
}

/// The bits of 0.85, the similarity from which two texts count as alike.
pub const FUZZY_THRESHOLD_BITS: u64 = 0x3FEB_3333_3333_3333;

/// A key, and the way it is matched.
#[derive(Debug)]
pub enum Matcher {
    /// The text in lower case is the key.
    Exact(String),
    /// The text in lower case holds the key.
    Contains(String),
    /// The key is a regular expression that matches in the text.
    Regex(String),
    /// The text in lower case is similar to the key.
    Fuzzy(String),
}

/// What a matcher holds.
pub enum MatcherView {
    Exact(Seq<char>),
    Contains(Seq<char>),
    Regex(Seq<char>),
    Fuzzy(Seq<char>),
}

impl View for Matcher {
    type V = MatcherView;

    open spec fn view(&self) -> MatcherView {
        match *self {
            Matcher::Exact(key) => MatcherView::Exact(key@),
            Matcher::Contains(key) => MatcherView::Contains(key@),
            Matcher::Regex(key) => MatcherView::Regex(key@),
            Matcher::Fuzzy(key) => MatcherView::Fuzzy(key@),
        }
    }
}

impl MatcherView {
    /// Whether the matcher matches `target`.
    pub open spec fn matches(self, target: Seq<char>) -> bool {
        match self {
            MatcherView::Exact(key) => lowercase_of(target) == key,
            MatcherView::Contains(key) => has_infix(lowercase_of(target), key),
            MatcherView::Regex(pattern) => regex_verdict(pattern, target) == Some(true),
            MatcherView::Fuzzy(key) => jaro_winkler_bits_of(key, lowercase_of(target))
                >= FUZZY_THRESHOLD_BITS,
        }
    }

    /// The matcher for a key in a mode: the key is put in lower case, but
    /// for a regular expression, which stays as it is.
    pub open spec fn of(mode: MatchMode, key: Seq<char>) -> MatcherView {
        match mode {
            MatchMode::Exact => MatcherView::Exact(lowercase_of(key)),
            MatchMode::Contains => MatcherView::Contains(lowercase_of(key)),
            MatchMode::Regex => MatcherView::Regex(key),
            MatchMode::Fuzzy => MatcherView::Fuzzy(lowercase_of(key)),
        }
    }
}

impl Clone for Matcher {
    /// An independent copy.
    fn clone(&self) -> (r: Self)
        ensures
            r@ == self@,
    {
        match self {
            Matcher::Exact(key) => Matcher::Exact(key.clone()),
            Matcher::Contains(key) => Matcher::Contains(key.clone()),
            Matcher::Regex(key) => Matcher::Regex(key.clone()),
            Matcher::Fuzzy(key) => Matcher::Fuzzy(key.clone()),
        }
    }
}

/// The key is no regular expression.
#[derive(Debug)]
pub struct InvalidPattern {
    pub key: String,
}

impl Matcher {
    /// The matcher for a key in a mode. Fails exactly if the mode asks for a
    /// regular expression and the key is none.
    pub fn new(mode: MatchMode, key: String) -> (r: Result<Self, InvalidPattern>)
        ensures
            match r {
                Ok(matcher) => matcher@ == MatcherView::of(mode, key@) && (mode
                    == MatchMode::Regex ==> regex_verdict(key@, Seq::empty()) is Some),
                Err(err) => mode == MatchMode::Regex && regex_verdict(key@, Seq::empty()) is None
                    && err.key@ == key@,
            },
    {
        match mode {
            MatchMode::Exact => Ok(Matcher::Exact(to_lowercase(key.as_str()))),
            MatchMode::Contains => Ok(Matcher::Contains(to_lowercase(key.as_str()))),
            MatchMode::Regex => {
                let empty = String::new();
                match regex_test(key.as_str(), empty.as_str()) {
                    Some(_) => Ok(Matcher::Regex(key)),
                    None => Err(InvalidPattern { key }),
                }
            },
            MatchMode::Fuzzy => Ok(Matcher::Fuzzy(to_lowercase(key.as_str()))),
        }
    }

    /// Whether the matcher matches `target`.
    pub fn is_match(&self, target: &str) -> (r: bool)
        ensures
            r == self@.matches(target@),
    {
        match self {
            Matcher::Exact(key) => to_lowercase(target) == *key,
            Matcher::Contains(key) => str_contains(to_lowercase(target).as_str(), key.as_str()),
            Matcher::Regex(pattern) => match regex_test(pattern.as_str(), target) {
                Some(found) => found,
                None => false,
            },
            Matcher::Fuzzy(key) => jaro_winkler_bits(key.as_str(), to_lowercase(target).as_str())
                >= FUZZY_THRESHOLD_BITS,
        }
    }

    /// Whether the matcher matches one of `targets`.
    pub fn matches_any(&self, targets: &Vec<String>) -> (r: bool)
        ensures
            r == exists|i: int| 0 <= i < targets@.len() && self@.matches(#[trigger] targets@[i]@),
    {
        let mut i: usize = 0;
        while i < targets.len()
            invariant
                i <= targets.len(),
                forall|j: int| 0 <= j < i ==> !self@.matches(#[trigger] targets@[j]@),
            decreases targets.len() - i,
        {
            if self.is_match(targets[i].as_str()) {
                return true;
            }
            i = i + 1;
        }
        false
    }
}

} // verus!
