//! Search dispatch: the fixed set of search engines, their query URLs, and
//! the decision between opening typed text as a URL or searching for it.

use vstd::prelude::*;
use crate::text::{spec_trim, trim};
use crate::urls::{normalize_url, spec_normalize_url};
use crate::signal::SameValue;
use vstd::string::{StringExecFns, StringSliceAdditionalSpecFns};
use vstd::utf8::encode_utf8;

verus! {

/// The fixed set of search engines the startpage can dispatch to.
#[derive(Clone, Copy, Debug, PartialEq, Eq, Structural)]
pub enum SearchEngine {
    DuckDuckGo,
    Google,
    Brave,
}

impl View for SearchEngine {
    type V = SearchEngine;

    open spec fn view(&self) -> SearchEngine {
        *self
    }
}

impl DeepView for SearchEngine {
    type V = SearchEngine;

    open spec fn deep_view(&self) -> SearchEngine {
        *self
    }
}

impl SameValue for SearchEngine {
    fn same(&self, other: &Self) -> (r: bool)
        ensures
            r == (self.deep_view() == other.deep_view()),
    {
        *self == *other
    }
}

/// The engine's display name.
pub open spec fn spec_label(e: SearchEngine) -> Seq<char> {
    match e {
        SearchEngine::DuckDuckGo => "DuckDuckGo"@,
        SearchEngine::Google => "Google"@,
        SearchEngine::Brave => "Brave"@,
    }
}

/// The engine's query URL up to and including `q=`.
pub open spec fn spec_query_prefix(e: SearchEngine) -> Seq<char> {
    match e {
        SearchEngine::DuckDuckGo => "https://duckduckgo.com/?q="@,
        SearchEngine::Google => "https://www.google.com/search?q="@,
        SearchEngine::Brave => "https://search.brave.com/search?q="@,
    }
}

/// A byte a URL query string carries unchanged: ASCII alphanumerics and
/// `-`, `.`, `_`, `~` (by code: digits 48..=57, upper 65..=90, lower
/// 97..=122, and 45, 46, 95, 126).
pub open spec fn spec_url_safe_byte(b: u8) -> bool {
    (48 <= b <= 57) || (65 <= b <= 90) || (97 <= b <= 122) || b == 45 || b == 46 || b == 95
        || b == 126
}

/// Uppercase hexadecimal digit for a value below 16.
pub open spec fn spec_hex_upper(d: u8) -> char
    recommends
        d < 16,
{
    if d < 10 {
        ((48 + d) as u8) as char
    } else {
        ((55 + d) as u8) as char
    }
}

/// Percent-encoding of a byte sequence: safe bytes stand for themselves,
/// every other byte becomes `%` and two uppercase hex digits.
pub open spec fn spec_percent_encoded(bs: Seq<u8>) -> Seq<char>
    decreases bs.len(),
{
    if bs.len() == 0 {
        Seq::empty()
    } else {
        let b = bs[0];
        (if spec_url_safe_byte(b) {
            seq![b as char]
        } else {
            seq!['%', spec_hex_upper(b / 16), spec_hex_upper(b % 16)]
        }) + spec_percent_encoded(bs.drop_first())
    }
}

/// Relies on urlencoding::encode: it percent-encodes every byte of the
/// input's UTF-8 form except ASCII alphanumerics and `-`, `.`, `_`, `~`,
/// writing `%` and two uppercase hex digits, and keeps safe bytes as they
/// are, in order.
#[verifier::external_body]
fn url_encode(s: &str) -> (r: String)
    ensures
        r@ == spec_percent_encoded(s.spec_bytes()),
{
    urlencoding::encode(s).into_owned()
}

/// The engine's full query URL for the raw query `q`: the query prefix
/// followed by the percent-encoded UTF-8 bytes of the trimmed query.
pub open spec fn spec_search_url(e: SearchEngine, q: Seq<char>) -> Seq<char> {
    spec_query_prefix(e) + spec_percent_encoded(encode_utf8(spec_trim(q)))
}

impl SearchEngine {
    /// The engine's display name.
    pub fn label(self) -> (r: &'static str)
        ensures
            r@ == spec_label(self),
    {
        match self {
            SearchEngine::DuckDuckGo => "DuckDuckGo",
            SearchEngine::Google => "Google",
            SearchEngine::Brave => "Brave",
        }
    }

    /// Builds the engine's query URL for `query`.
    pub fn url(self, query: &str) -> (r: String)
        ensures
            r@ == spec_search_url(self, query@),
    {
        let t = trim(query);
        let enc = url_encode(t.as_str());
        let mut r = match self {
            SearchEngine::DuckDuckGo => String::from_str("https://duckduckgo.com/?q="),
            SearchEngine::Google => String::from_str("https://www.google.com/search?q="),
            SearchEngine::Brave => String::from_str("https://search.brave.com/search?q="),
        };
        r.append(enc.as_str());
        r
    }
}

/// The URL the search box opens for `input`: the input itself, normalized,
/// when it is acceptable as a URL, else the engine's query URL for it.
pub fn search_target(engine: SearchEngine, input: &str) -> (r: String)
    ensures
        match spec_normalize_url(input@) {
            Some(u) => r@ == u,
            None => r@ == spec_search_url(engine, input@),
        },
{
    match normalize_url(input) {
        Some(u) => u,
        None => engine.url(input),
    }
}

} // verus!
