//! Texts as JSON strings.

use crate::text::is_alnum_spec;
use vstd::prelude::*;

verus! {

/// A text as a JSON string.
pub uninterp spec fn quoted(s: Seq<char>) -> Seq<char>;

/// Letters and digits alone.
pub open spec fn is_word(s: Seq<char>) -> bool {
    forall|i: int| 0 <= i < s.len() ==> is_alnum_spec(#[trigger] s[i])
}

/// Writes a text as a JSON string, with `Value::to_string`. The contract gives the
/// result a name, and says that letters and digits stand in it as they are.
#[verifier::external_body]
pub(crate) fn json_quote(s: &str) -> (r: String)
    ensures
        r@ == quoted(s@),
        is_word(s@) ==> r@ == "\""@ + s@ + "\""@,
{
    serde_json::Value::from(s).to_string()
}

} // verus!
