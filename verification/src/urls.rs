//! URL normalization for the search box and the add-bookmark form.
//!
//! Free text is accepted as a URL when it already carries an http scheme, or
//! when it is free of whitespace and contains a dot, in which case the
//! secure scheme is prefixed.  Anything else is rejected, and the caller
//! treats the text as a search query instead.

use vstd::prelude::*;
use crate::text::{contains_char, has_whitespace, spec_has_whitespace, spec_starts_with, spec_trim,
    starts_with, trim};
use vstd::string::StringExecFns;

verus! {

/// The normalized URL for input `s`, if `s` is acceptable as one: trimmed
/// input with a recognized scheme is kept as is; trimmed input without one
/// is accepted, with the secure scheme prefixed, only when it contains no
/// whitespace at all and contains a dot; empty input is rejected.
pub open spec fn spec_normalize_url(s: Seq<char>) -> Option<Seq<char>> {
    let t = spec_trim(s);
    if t.len() == 0 {
        None
    } else if spec_starts_with(t, "http://"@) || spec_starts_with(t, "https://"@) {
        Some(t)
    } else if !spec_has_whitespace(t) && t.contains('.') {
        Some("https://"@ + t)
    } else {
        None
    }
}

/// Normalizes free text into an absolute URL, or rejects it.
pub fn normalize_url(s: &str) -> (r: Option<String>)
    ensures
        match r {
            Some(u) => spec_normalize_url(s@) == Some(u@),
            None => spec_normalize_url(s@) is None,
        },
{
    let t = trim(s);
    if t.as_str().is_empty() {
        return None;
    }
    if starts_with(t.as_str(), "http://") || starts_with(t.as_str(), "https://") {
        return Some(t);
    }
    if !has_whitespace(t.as_str()) && contains_char(t.as_str(), '.') {
        let mut r = String::from_str("https://");
        r.append(t.as_str());
        return Some(r);
    }
    None
}

} // verus!
