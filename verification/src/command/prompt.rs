//! Questions to the user.

use crate::text::{lowercase_of, to_lowercase, trim, trimmed_of};
use vstd::prelude::*;
use vstd::string::StringExecFns;

verus! {

/// Someone who answers questions with yes or no: the user at a terminal, or
/// a script. Nothing is required of the answers.
pub trait Prompter {
    /// Asks whether to edit again after `msg`.
    fn ask_retry(&self, msg: &str) -> Result<bool, String>;

    /// Asks for a yes or no to `msg`. `default` is the answer to an empty
    /// input, and `label` stands before the prompt where it is given.
    fn confirm(&self, msg: &str, default: bool, label: Option<&str>) -> Result<bool, String>;
}

/// The answer that a line of input gives: `default` for an empty line, yes
/// for "y" and "yes", no for anything else.
pub open spec fn answer_of(line: Seq<char>, default: bool) -> bool {
    if line.len() == 0 {
        default
    } else {
        line == "y"@ || line == "yes"@
    }
}

/// Reads the answer from a line of input that is trimmed and in lower case.
pub fn read_answer(line: &str, default: bool) -> (r: bool)
    ensures
        r == answer_of(line@, default),
{
    if line.is_empty() {
        return default;
    }
    let yes = "yes".to_owned();
    let y = "y".to_owned();
    let given = line.to_owned();
    given == y || given == yes
}

/// The answer that a line gives as it was typed: white space around it and
/// letter case do not count.
pub fn confirm_answer(line: &str, default: bool) -> (r: bool)
    ensures
        r == answer_of(lowercase_of(trimmed_of(line@)), default),
{
    let answer = to_lowercase(trim(line));
    read_answer(answer.as_str(), default)
}

/// What stands before a prompt where no label is given.
pub const DEFAULT_LABEL: &'static str = "続行しますか？";

/// The label of the question whether to edit again.
pub const RETRY_LABEL: &'static str = "再編集しますか？";

/// The prompt of a question: the label, and the two answers with the one
/// that an empty line gives in upper case.
pub open spec fn prompt_of(label: Option<Seq<char>>, default: bool) -> Seq<char> {
    (match label {
        Some(text) => text,
        None => DEFAULT_LABEL@,
    }) + " ["@ + (if default {
        "Y/n"@
    } else {
        "y/N"@
    }) + "]: "@
}

/// The prompt of a question.
pub fn prompt_text(label: Option<&str>, default: bool) -> (r: String)
    ensures
        r@ == prompt_of(
            match label {
                Some(text) => Some(text@),
                None => None,
            },
            default,
        ),
{
    let mut r = String::new();
    match label {
        Some(text) => r.append(text),
        None => r.append(DEFAULT_LABEL),
    }
    r.append(" [");
    if default {
        r.append("Y/n");
    } else {
        r.append("y/N");
    }
    r.append("]: ");
    assert(r@ =~= prompt_of(
        match label {
            Some(text) => Some(text@),
            None => None,
        },
        default,
    ));
    r
}

} // verus!
