//! The text of an entry as it is handed to an editor.

use crate::database::types::{ulid_text_of, ServiceId};
use crate::pattern::{regex_replace_first, regex_replaced, regex_test, regex_verdict};
use vstd::prelude::*;
use vstd::string::StringExecFns;

verus! {

/// The line that names the identifier: `id`, a colon after any white
/// space, and the rest of the line.
pub const ID_LINE_PATTERN: &'static str = r"(?m)^id\s*:.*$";

/// The line that names the identifier `id`.
pub open spec fn id_line(id: u128) -> Seq<char> {
    "id: \""@ + ulid_text_of(id) + "\""@
}

/// The text `content` with its first line that names an identifier put
/// right, or with such a line put before it where it has none.
pub open spec fn with_id_line(content: Seq<char>, id: u128) -> Seq<char> {
    if regex_verdict(ID_LINE_PATTERN@, content) == Some(true) {
        match regex_replaced(ID_LINE_PATTERN@, content, id_line(id)) {
            Some(fixed) => fixed,
            None => content,
        }
    } else {
        id_line(id) + "\n"@ + content
    }
}

/// Puts the line that names the identifier right: the first such line is
/// replaced, and where there is none the line is put before the text.
pub fn rewrite_id_line(content: &str, id: &ServiceId) -> (r: String)
    ensures
        r@ == with_id_line(content@, id@),
{
    let mut replacement = String::new();
    replacement.append("id: \"");
    replacement.append(id.to_string().as_str());
    replacement.append("\"");
    assert(replacement@ =~= id_line(id@));
    let matched = match regex_test(ID_LINE_PATTERN, content) {
        Some(found) => found,
        None => false,
    };
    if matched {
        match regex_replace_first(ID_LINE_PATTERN, content, replacement.as_str()) {
            Some(fixed) => fixed,
            None => content.to_owned(),
        }
    } else {
        replacement.append("\n");
        replacement.append(content);
        assert(replacement@ =~= id_line(id@) + "\n"@ + content@);
        replacement
    }
}

} // verus!
