//! What a note typed in the compose window hands to the clip flow.
use vstd::prelude::*;
use crate::text::{lemma_trim_idempotent, trim, trim_str};

verus! {

/// The text to append for a typed note: nothing when it is empty or only
/// white space, otherwise the text without leading and trailing white space.
pub fn compose_payload(text: &str) -> (r: Option<String>)
    ensures
        trim(text@).len() == 0 <==> r is None,
        r matches Some(t) ==> t@ == trim(text@),
{
    let trimmed = trim_str(text);
    if trimmed.as_str().is_empty() {
        None
    } else {
        Some(trimmed)
    }
}

/// Handing a payload back in gives the same payload: the text a note
/// carries is already free of surrounding white space.
pub proof fn lemma_payload_is_stable(text: Seq<char>)
    ensures
        trim(trim(text)) == trim(text),
        trim(text).len() == 0 <==> trim(trim(text)).len() == 0,
{
    lemma_trim_idempotent(text);
}

} // verus!
