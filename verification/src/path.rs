//! Joining file-system paths written as text with `/` separators.
use vstd::prelude::*;
use crate::text::{push_str, str_chars, string_from_chars};

verus! {

/// `rel` appended to `base` the way `Path::join` does on Unix: an absolute
/// `rel` replaces `base`; otherwise a `/` goes between them unless `base` is
/// empty or already ends with one.
pub open spec fn joined(base: Seq<char>, rel: Seq<char>) -> Seq<char> {
    if rel.len() > 0 && rel[0] == '/' {
        rel
    } else if base.len() == 0 {
        rel
    } else if base.last() == '/' {
        base + rel
    } else {
        base + seq!['/'] + rel
    }
}

/// `rel` appended to `base` with a `/` separator.
pub fn join_path(base: &str, rel: &str) -> (r: String)
    ensures
        r@ == joined(base@, rel@),
{
    let b = str_chars(base);
    let rc = str_chars(rel);
    if rc.len() > 0 && rc[0] == '/' {
        return string_from_chars(rc.as_slice());
    }
    if b.len() == 0 {
        return string_from_chars(rc.as_slice());
    }
    let mut out = b.clone();
    if b[b.len() - 1] != '/' {
        out.push('/');
    }
    push_str(&mut out, rel);
    string_from_chars(out.as_slice())
}

} // verus!
