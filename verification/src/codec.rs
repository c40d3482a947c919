//! The storage codec: the bookmark list as a JSON text.
//!
//! The blob stored under the startpage's key is a JSON array of
//! `{"title": ..., "url": ...}` objects.  The encoder emits the compact
//! form; the parser also accepts JSON whitespace between tokens, the two
//! fields in either order, and the usual string escapes, and rejects
//! anything else — the caller degrades a rejected blob to an empty list.
//! Decoding an encoded list returns the list itself, which is what keeps a
//! load/save/load cycle stable.

use vstd::prelude::*;
use crate::bookmarks::{Bookmark, BookmarkView};
use vstd::string::StrSliceExecFns;

verus! {

/// Relies on String::push: it appends exactly the given character.
#[verifier::external_body]
fn push_char(out: &mut String, c: char)
    ensures
        final(out)@ == old(out)@.push(c),
{
    out.push(c);
}

/// The characters that open an item, up to the title text: `{"title":"`.
pub open spec fn item_open() -> Seq<char> {
    seq!['{', '"', 't', 'i', 't', 'l', 'e', '"', ':', '"']
}

/// The characters between the title text and the url text, including the
/// quote that closes the title: `","url":"`.
pub open spec fn item_mid() -> Seq<char> {
    seq!['"', ',', '"', 'u', 'r', 'l', '"', ':', '"']
}

/// The characters that close an item, including the quote that closes the
/// url: `"}`.
pub open spec fn item_end() -> Seq<char> {
    seq!['"', '}']
}

/// Lowercase hexadecimal digit for a value below 16.
pub open spec fn spec_hex_lower(d: u8) -> char
    recommends
        d < 16,
{
    if d < 10 {
        ((48 + d) as u8) as char
    } else {
        ((87 + d) as u8) as char
    }
}

/// The numeric value of a hexadecimal digit, either case.
pub open spec fn spec_hex_val(c: char) -> Option<u8> {
    let x = c as u32;
    if 48 <= x <= 57 {
        Some(((x - 48) as u32) as u8)
    } else if 97 <= x <= 102 {
        Some(((x - 87) as u32) as u8)
    } else if 65 <= x <= 70 {
        Some(((x - 55) as u32) as u8)
    } else {
        None
    }
}

/// How the encoder writes one character of a stored text: quote and
/// backslash get a backslash escape, control characters become `\u00` and
/// two hex digits, everything else stands for itself.
pub open spec fn spec_esc_char(c: char) -> Seq<char> {
    if c == '"' {
        seq!['\\', '"']
    } else if c == '\\' {
        seq!['\\', '\\']
    } else if (c as u32) < 32 {
        seq!['\\', 'u', '0', '0', spec_hex_lower(((c as u32) / 16) as u8), spec_hex_lower(
            ((c as u32) % 16) as u8,
        )]
    } else {
        seq![c]
    }
}

/// The escaped form of a whole text.
pub open spec fn spec_esc(t: Seq<char>) -> Seq<char>
    decreases t.len(),
{
    if t.len() == 0 {
        Seq::empty()
    } else {
        spec_esc_char(t[0]) + spec_esc(t.drop_first())
    }
}

/// One encoded item.
pub open spec fn spec_encode_item(b: BookmarkView) -> Seq<char> {
    item_open() + spec_esc(b.title) + item_mid() + spec_esc(b.url) + item_end()
}

/// The encoded text after the first item: a comma-separated item for each
/// remaining entry, then the closing bracket.
pub open spec fn spec_encode_tail(items: Seq<BookmarkView>) -> Seq<char>
    decreases items.len(),
{
    if items.len() == 0 {
        seq![']']
    } else {
        seq![','] + spec_encode_item(items[0]) + spec_encode_tail(items.drop_first())
    }
}

/// The encoded form of a whole list.
pub open spec fn spec_encode_bookmarks(items: Seq<BookmarkView>) -> Seq<char> {
    if items.len() == 0 {
        seq!['[', ']']
    } else {
        seq!['['] + spec_encode_item(items[0]) + spec_encode_tail(items.drop_first())
    }
}

/// The character a backslash escape stands for, for the one-character
/// escapes.
pub open spec fn spec_simple_escape(e: char) -> Option<char> {
    if e == '"' {
        Some('"')
    } else if e == '\\' {
        Some('\\')
    } else if e == '/' {
        Some('/')
    } else if e == 'n' {
        Some('\n')
    } else if e == 't' {
        Some('\t')
    } else if e == 'r' {
        Some('\r')
    } else if e == 'b' {
        Some('\u{8}')
    } else if e == 'f' {
        Some('\u{c}')
    } else {
        None
    }
}

/// The character a `\uXXXX` escape stands for.  Only control characters are
/// accepted, which is all a JSON writer needs the form for in this blob.
pub open spec fn spec_u_escape(h1: char, h2: char, h3: char, h4: char) -> Option<char> {
    match (spec_hex_val(h1), spec_hex_val(h2), spec_hex_val(h3), spec_hex_val(h4)) {
        (Some(v1), Some(v2), Some(v3), Some(v4)) => {
            let v = v1 * 4096 + v2 * 256 + v3 * 16 + v4;
            if v < 32 {
                Some(((v as u32) as u8) as char)
            } else {
                None
            }
        },
        _ => None,
    }
}

/// Parses a JSON string body starting at `i` (just inside the opening
/// quote): the decoded text and the position after the closing quote.
/// Unescaped quotes end the string, backslash escapes are decoded, raw
/// control characters are rejected.
pub open spec fn spec_parse_str(s: Seq<char>, i: int) -> Option<(Seq<char>, int)>
    decreases s.len() - i,
{
    if i < 0 || i >= s.len() {
        None
    } else if s[i] == '"' {
        Some((Seq::empty(), i + 1))
    } else if s[i] == '\\' {
        if i + 2 > s.len() {
            None
        } else if s[i + 1] == 'u' {
            if i + 6 > s.len() {
                None
            } else {
                match spec_u_escape(s[i + 2], s[i + 3], s[i + 4], s[i + 5]) {
                    Some(c) => match spec_parse_str(s, i + 6) {
                        Some((t, j)) => Some((seq![c] + t, j)),
                        None => None,
                    },
                    None => None,
                }
            }
        } else {
            match spec_simple_escape(s[i + 1]) {
                Some(c) => match spec_parse_str(s, i + 2) {
                    Some((t, j)) => Some((seq![c] + t, j)),
                    None => None,
                },
                None => None,
            }
        }
    } else if (s[i] as u32) < 32 {
        None
    } else {
        match spec_parse_str(s, i + 1) {
            Some((t, j)) => Some((seq![s[i]] + t, j)),
            None => None,
        }
    }
}

/// Whether the characters of `pat` stand in `s` at position `i`.
pub open spec fn spec_match_at(s: Seq<char>, i: int, pat: Seq<char>) -> bool {
    i >= 0 && i + pat.len() <= s.len() && s.subrange(i, i + pat.len() as int) == pat
}

/// JSON inter-token whitespace: space, tab, line feed, carriage return.
pub open spec fn spec_is_json_ws(c: char) -> bool {
    c == ' ' || c == '\t' || c == '\n' || c == '\r'
}

/// The first position at or after `i` that does not hold JSON whitespace.
pub open spec fn spec_skip_ws(s: Seq<char>, i: int) -> int
    decreases s.len() - i,
{
    if 0 <= i < s.len() && spec_is_json_ws(s[i]) {
        spec_skip_ws(s, i + 1)
    } else {
        i
    }
}

proof fn lemma_skip_ws_bounds(s: Seq<char>, i: int)
    requires
        0 <= i <= s.len(),
    ensures
        i <= spec_skip_ws(s, i) <= s.len(),
    decreases s.len() - i,
{
    if i < s.len() && spec_is_json_ws(s[i]) {
        lemma_skip_ws_bounds(s, i + 1);
    }
}

/// The quoted title key: `"title"`.
pub open spec fn key_title() -> Seq<char> {
    seq!['"', 't', 'i', 't', 'l', 'e', '"']
}

/// The quoted url key: `"url"`.
pub open spec fn key_url() -> Seq<char> {
    seq!['"', 'u', 'r', 'l', '"']
}

/// Parses the value part of a field at `i`: optional whitespace, a colon,
/// optional whitespace, a quoted string; the decoded text and the position
/// after its closing quote.
pub open spec fn spec_parse_field_value(s: Seq<char>, i: int) -> Option<(Seq<char>, int)> {
    let i1 = spec_skip_ws(s, i);
    if i1 < s.len() && s[i1] == ':' {
        let i2 = spec_skip_ws(s, i1 + 1);
        if i2 < s.len() && s[i2] == '"' {
            spec_parse_str(s, i2 + 1)
        } else {
            None
        }
    } else {
        None
    }
}

/// Parses one field at `i`: optional whitespace, a `"title"` or `"url"`
/// key, and its string value; whether the key was the title, the decoded
/// text, and the position after the value.
pub open spec fn spec_parse_field(s: Seq<char>, i: int) -> Option<(bool, Seq<char>, int)> {
    let i0 = spec_skip_ws(s, i);
    if spec_match_at(s, i0, key_title()) {
        match spec_parse_field_value(s, i0 + 7) {
            Some((t, j)) => Some((true, t, j)),
            None => None,
        }
    } else if spec_match_at(s, i0, key_url()) {
        match spec_parse_field_value(s, i0 + 5) {
            Some((t, j)) => Some((false, t, j)),
            None => None,
        }
    } else {
        None
    }
}

/// Parses one item starting at `i`: a brace-delimited object holding one
/// title field and one url field, in either order, with JSON whitespace
/// allowed between tokens; the bookmark and the position after the brace.
pub open spec fn spec_parse_item(s: Seq<char>, i: int) -> Option<(BookmarkView, int)> {
    let i0 = spec_skip_ws(s, i);
    if 0 <= i0 < s.len() && s[i0] == '{' {
        match spec_parse_field(s, i0 + 1) {
            Some((first_title, t1, j)) => {
                let j0 = spec_skip_ws(s, j);
                if j0 < s.len() && s[j0] == ',' {
                    match spec_parse_field(s, j0 + 1) {
                        Some((second_title, t2, k)) => {
                            if first_title == second_title {
                                None
                            } else {
                                let k0 = spec_skip_ws(s, k);
                                if k0 < s.len() && s[k0] == '}' {
                                    if first_title {
                                        Some((BookmarkView { title: t1, url: t2 }, k0 + 1))
                                    } else {
                                        Some((BookmarkView { title: t2, url: t1 }, k0 + 1))
                                    }
                                } else {
                                    None
                                }
                            }
                        },
                        None => None,
                    }
                } else {
                    None
                }
            },
            None => None,
        }
    } else {
        None
    }
}

/// A parsed string never ends before it starts and stays inside the text.
proof fn lemma_parse_str_bounds(s: Seq<char>, i: int)
    ensures
        spec_parse_str(s, i) matches Some((t, j)) ==> i < j <= s.len(),
    decreases s.len() - i,
{
    if 0 <= i < s.len() {
        lemma_parse_str_bounds(s, i + 1);
        if i + 2 <= s.len() {
            lemma_parse_str_bounds(s, i + 2);
        }
        if i + 6 <= s.len() {
            lemma_parse_str_bounds(s, i + 6);
        }
    }
}

/// A parsed field value never ends before it starts and stays inside the
/// text.
proof fn lemma_parse_field_value_bounds(s: Seq<char>, i: int)
    requires
        0 <= i <= s.len(),
    ensures
        spec_parse_field_value(s, i) matches Some((t, j)) ==> i < j <= s.len(),
{
    lemma_skip_ws_bounds(s, i);
    let i1 = spec_skip_ws(s, i);
    if i1 < s.len() && s[i1] == ':' {
        lemma_skip_ws_bounds(s, i1 + 1);
        let i2 = spec_skip_ws(s, i1 + 1);
        if i2 < s.len() && s[i2] == '"' {
            lemma_parse_str_bounds(s, i2 + 1);
        }
    }
}

/// A parsed field never ends before it starts, ends after the start of the
/// text, and stays inside it.
proof fn lemma_parse_field_bounds(s: Seq<char>, i: int)
    ensures
        spec_parse_field(s, i) matches Some(p) ==> i < p.2 && 0 < p.2 <= s.len(),
{
    if 0 <= i <= s.len() {
        lemma_skip_ws_bounds(s, i);
    } else {
        assert(spec_skip_ws(s, i) == i);
    }
    let i0 = spec_skip_ws(s, i);
    if spec_match_at(s, i0, key_title()) {
        lemma_parse_field_value_bounds(s, i0 + 7);
    } else if spec_match_at(s, i0, key_url()) {
        lemma_parse_field_value_bounds(s, i0 + 5);
    }
}

/// A parsed item never ends before it starts, ends after the start of the
/// text, and stays inside it.
proof fn lemma_parse_item_bounds(s: Seq<char>, i: int)
    ensures
        spec_parse_item(s, i) matches Some(p) ==> i < p.1 && 0 < p.1 <= s.len(),
{
    if 0 <= i <= s.len() {
        lemma_skip_ws_bounds(s, i);
    } else {
        assert(spec_skip_ws(s, i) == i);
    }
    let i0 = spec_skip_ws(s, i);
    if 0 <= i0 < s.len() && s[i0] == '{' {
        lemma_parse_field_bounds(s, i0 + 1);
        match spec_parse_field(s, i0 + 1) {
            Some(p1) => {
                let j = p1.2;
                lemma_skip_ws_bounds(s, j);
                let j0 = spec_skip_ws(s, j);
                if j0 < s.len() && s[j0] == ',' {
                    lemma_parse_field_bounds(s, j0 + 1);
                    match spec_parse_field(s, j0 + 1) {
                        Some(p2) => {
                            lemma_skip_ws_bounds(s, p2.2);
                        },
                        None => {},
                    }
                }
            },
            None => {},
        }
    }
}

/// Parses the items of a non-empty array starting at `i`: the bookmarks and
/// the position after the closing bracket.
pub open spec fn spec_parse_items(s: Seq<char>, i: int) -> Option<(Seq<BookmarkView>, int)>
    decreases s.len() - i,
    via spec_parse_items_dec
{
    match spec_parse_item(s, i) {
        None => None,
        Some((b, j)) => {
            let j0 = spec_skip_ws(s, j);
            if j0 < s.len() && s[j0] == ',' {
                match spec_parse_items(s, j0 + 1) {
                    None => None,
                    Some((rest, k)) => Some((seq![b] + rest, k)),
                }
            } else if j0 < s.len() && s[j0] == ']' {
                Some((seq![b], j0 + 1))
            } else {
                None
            }
        },
    }
}

#[via_fn]
proof fn spec_parse_items_dec(s: Seq<char>, i: int) {
    lemma_parse_item_bounds(s, i);
    match spec_parse_item(s, i) {
        Some(p) => {
            lemma_skip_ws_bounds(s, p.1);
        },
        None => {},
    }
}

/// Parses a whole blob: a JSON array of items, with nothing but whitespace
/// around it.
pub open spec fn spec_parse_bookmarks(s: Seq<char>) -> Option<Seq<BookmarkView>> {
    let i0 = spec_skip_ws(s, 0);
    if i0 < s.len() && s[i0] == '[' {
        let i1 = spec_skip_ws(s, i0 + 1);
        if i1 < s.len() && s[i1] == ']' {
            if spec_skip_ws(s, i1 + 1) == s.len() {
                Some(Seq::empty())
            } else {
                None
            }
        } else {
            match spec_parse_items(s, i0 + 1) {
                None => None,
                Some((items, k)) => {
                    if spec_skip_ws(s, k) == s.len() {
                        Some(items)
                    } else {
                        None
                    }
                },
            }
        }
    } else {
        None
    }
}

proof fn lemma_hex_round_trip(d: u8)
    requires
        d < 16,
    ensures
        spec_hex_val(spec_hex_lower(d)) == Some(d),
{
}

proof fn lemma_u_escape_of_control(c: char)
    requires
        (c as u32) < 32,
    ensures
        spec_u_escape(
            '0',
            '0',
            spec_hex_lower(((c as u32) / 16) as u8),
            spec_hex_lower(((c as u32) % 16) as u8),
        ) == Some(c),
{
    let hi = ((c as u32) / 16) as u8;
    let lo = ((c as u32) % 16) as u8;
    assert(hi < 2 && lo < 16);
    lemma_hex_round_trip(hi);
    lemma_hex_round_trip(lo);
    assert(spec_hex_val('0') == Some(0u8));
    let v = 0 * 4096 + 0 * 256 + hi * 16 + lo;
    assert(v == c as u32);
    assert((((v as u32) as u8) as char) == c);
}

/// Parsing what the escaper wrote, up to the closing quote, recovers the
/// text: for any `t`, if the characters from `i` to `j` read as the escaped
/// form of `t` followed by `"`, the string parser yields `t` and stops at
/// `j`.
proof fn lemma_parse_esc(s: Seq<char>, i: int, t: Seq<char>, j: int)
    requires
        0 <= i <= j <= s.len(),
        s.subrange(i, j) == spec_esc(t) + seq!['"'],
    ensures
        spec_parse_str(s, i) == Some((t, j)),
    decreases t.len(),
{
    let whole = spec_esc(t) + seq!['"'];
    assert(j - i == whole.len());
    if t.len() == 0 {
        assert(s[i] == whole[0]);
        assert(s[i] == '"');
        assert(j == i + 1);
        assert(Seq::<char>::empty() =~= t);
    } else {
        let c = t[0];
        let t2 = t.drop_first();
        let e = spec_esc_char(c);
        assert(spec_esc(t) == e + spec_esc(t2));
        let el = e.len() as int;
        assert forall|m: int| i <= m < j implies s[m] == whole[m - i] by {
            assert(s[m] == s.subrange(i, j)[m - i]);
        }
        assert(s.subrange(i + el, j) =~= spec_esc(t2) + seq!['"']);
        if c == '"' {
            assert(s[i] == '\\' && s[i + 1] == '"');
            lemma_parse_esc(s, i + 2, t2, j);
            assert(seq![c] + t2 =~= t);
        } else if c == '\\' {
            assert(s[i] == '\\' && s[i + 1] == '\\');
            lemma_parse_esc(s, i + 2, t2, j);
            assert(seq![c] + t2 =~= t);
        } else if (c as u32) < 32 {
            let hi = ((c as u32) / 16) as u8;
            let lo = ((c as u32) % 16) as u8;
            assert(s[i] == '\\' && s[i + 1] == 'u' && s[i + 2] == '0' && s[i + 3] == '0'
                && s[i + 4] == spec_hex_lower(hi) && s[i + 5] == spec_hex_lower(lo));
            lemma_u_escape_of_control(c);
            lemma_parse_esc(s, i + 6, t2, j);
            assert(seq![c] + t2 =~= t);
        } else {
            assert(s[i] == c);
            lemma_parse_esc(s, i + 1, t2, j);
            assert(seq![c] + t2 =~= t);
        }
    }
}

/// Parsing what the item encoder wrote recovers the bookmark: if the
/// characters from `i` to `j` read as the encoding of `b`, the item parser
/// yields `b` and stops at `j`.
#[verifier::rlimit(100)]
#[verifier::spinoff_prover]
#[verifier::rlimit(100)]
proof fn lemma_parse_item_of_encode(s: Seq<char>, i: int, b: BookmarkView, j: int)
    requires
        0 <= i <= j <= s.len(),
        s.subrange(i, j) == spec_encode_item(b),
    ensures
        spec_parse_item(s, i) == Some((b, j)),
{
    let whole = spec_encode_item(b);
    let et = spec_esc(b.title);
    let eu = spec_esc(b.url);
    let p1 = i + 10;
    let p2 = p1 + et.len();
    let p3 = p2 + 9;
    let p4 = p3 + eu.len();
    assert(j - i == whole.len());
    assert(whole.len() == 10 + et.len() + 9 + eu.len() + 2);
    assert forall|m: int| i <= m < j implies s[m] == whole[m - i] by {
        assert(s[m] == s.subrange(i, j)[m - i]);
    }
    assert(s[i] == '{');
    assert(spec_skip_ws(s, i) == i);
    assert(s[i + 1] == '"');
    assert(spec_skip_ws(s, i + 1) == i + 1);
    assert(s.subrange(i + 1, i + 8) =~= key_title());
    assert(spec_match_at(s, i + 1, key_title()));
    assert(s[i + 8] == ':');
    assert(spec_skip_ws(s, i + 8) == i + 8);
    assert(s[i + 9] == '"');
    assert(spec_skip_ws(s, i + 9) == i + 9);
    assert(s.subrange(p1, p2 + 1) =~= et + seq!['"']);
    lemma_parse_esc(s, p1, b.title, p2 + 1);
    assert(spec_parse_field_value(s, i + 8) == Some((b.title, p2 + 1)));
    assert(spec_parse_field(s, i + 1) == Some((true, b.title, p2 + 1)));
    assert(s[p2 + 1] == ',');
    assert(spec_skip_ws(s, p2 + 1) == p2 + 1);
    assert(s[p2 + 2] == '"');
    assert(spec_skip_ws(s, p2 + 2) == p2 + 2);
    assert(s[p2 + 3] == 'u');
    assert(!spec_match_at(s, p2 + 2, key_title())) by {
        if spec_match_at(s, p2 + 2, key_title()) {
            assert(s.subrange(p2 + 2, p2 + 9)[1] == key_title()[1]);
            assert(s[p2 + 3] == 't');
        }
    }
    assert(s.subrange(p2 + 2, p2 + 7) =~= key_url());
    assert(spec_match_at(s, p2 + 2, key_url()));
    assert(s[p2 + 7] == ':');
    assert(spec_skip_ws(s, p2 + 7) == p2 + 7);
    assert(s[p2 + 8] == '"');
    assert(spec_skip_ws(s, p2 + 8) == p2 + 8);
    assert(s.subrange(p3, p4 + 1) =~= eu + seq!['"']);
    lemma_parse_esc(s, p3, b.url, p4 + 1);
    assert(spec_parse_field_value(s, p2 + 7) == Some((b.url, p4 + 1)));
    assert(spec_parse_field(s, p2 + 2) == Some((false, b.url, p4 + 1)));
    assert(s[p4 + 1] == '}');
    assert(spec_skip_ws(s, p4 + 1) == p4 + 1);
    assert(j == p4 + 2);
    assert((BookmarkView { title: b.title, url: b.url }) == b);
}

/// Parsing what the list encoder wrote after the opening bracket recovers
/// the items and consumes the text to its end.
#[verifier::spinoff_prover]
#[verifier::rlimit(100)]
proof fn lemma_parse_items_of_encode(s: Seq<char>, i: int, items: Seq<BookmarkView>)
    requires
        items.len() > 0,
        0 <= i <= s.len(),
        s.subrange(i, s.len() as int) == spec_encode_item(items[0]) + spec_encode_tail(
            items.drop_first(),
        ),
    ensures
        spec_parse_items(s, i) == Some((items, s.len() as int)),
    decreases items.len(),
{
    let b = items[0];
    let rest = items.drop_first();
    let ei = spec_encode_item(b);
    let tail = spec_encode_tail(rest);
    let j = i + ei.len();
    assert(s.subrange(i, s.len() as int).len() == (ei + tail).len());
    assert(s.len() - i == ei.len() + tail.len());
    assert forall|m: int| i <= m < s.len() implies s[m] == (ei + tail)[m - i] by {
        assert(s[m] == s.subrange(i, s.len() as int)[m - i]);
    }
    assert(s.subrange(i, j) =~= ei);
    lemma_parse_item_of_encode(s, i, b, j);
    if rest.len() == 0 {
        assert(tail == seq![']']);
        assert(s[j] == ']');
        assert(spec_skip_ws(s, j) == j);
        assert(j + 1 == s.len());
        assert(s[j] != ',');
        assert(seq![b] =~= items);
    } else {
        let ei2 = spec_encode_item(rest[0]);
        let tail2 = spec_encode_tail(rest.drop_first());
        assert(tail == seq![','] + ei2 + tail2);
        assert(s[j] == tail[0]);
        assert(s[j] == ',');
        assert(spec_skip_ws(s, j) == j);
        assert(s.subrange(j + 1, s.len() as int) =~= ei2 + tail2);
        lemma_parse_items_of_encode(s, j + 1, rest);
        assert(seq![b] + rest =~= items);
    }
}

/// Appends the characters of `pat` to `out`.
fn append_str(out: &mut String, pat: &str)
    ensures
        final(out)@ == old(out)@ + pat@,
{
    let ghost orig = out@;
    let np = pat.unicode_len();
    let mut k: usize = 0;
    while k < np
        invariant
            0 <= k <= np,
            np == pat@.len(),
            out@ =~= orig + pat@.subrange(0, k as int),
        decreases np - k,
    {
        push_char(out, pat.get_char(k));
        proof {
            assert(orig + pat@.subrange(0, k as int) + seq![pat@[k as int]] =~= orig
                + pat@.subrange(0, k + 1));
        }
        k = k + 1;
    }
    proof {
        assert(pat@.subrange(0, pat@.len() as int) =~= pat@);
    }
}

/// Lowercase hexadecimal digit for a value below 16.
fn hex_lower(d: u8) -> (c: char)
    requires
        d < 16,
    ensures
        c == spec_hex_lower(d),
{
    if d < 10 {
        (48 + d) as char
    } else {
        (87 + d) as char
    }
}

/// Appends the escaped form of `t` to `out`.
fn append_escaped(out: &mut String, t: &str)
    ensures
        final(out)@ == old(out)@ + spec_esc(t@),
{
    let ghost orig = out@;
    let n = t.unicode_len();
    let mut i: usize = 0;
    proof {
        assert(t@.skip(0) =~= t@);
    }
    while i < n
        invariant
            0 <= i <= n,
            n == t@.len(),
            orig + spec_esc(t@) =~= out@ + spec_esc(t@.skip(i as int)),
        decreases n - i,
    {
        let ghost before = out@;
        let c = t.get_char(i);
        if c == '"' {
            push_char(out, '\\');
            push_char(out, '"');
        } else if c == '\\' {
            push_char(out, '\\');
            push_char(out, '\\');
        } else {
            let x = c as u32;
            if x < 32 {
                push_char(out, '\\');
                push_char(out, 'u');
                push_char(out, '0');
                push_char(out, '0');
                push_char(out, hex_lower((x / 16) as u8));
                push_char(out, hex_lower((x % 16) as u8));
            } else {
                push_char(out, c);
            }
        }
        proof {
            assert(out@ =~= before + spec_esc_char(c));
            assert(t@.skip(i as int)[0] == c);
            assert(t@.skip(i as int).drop_first() =~= t@.skip(i + 1));
            assert(spec_esc(t@.skip(i as int)) == spec_esc_char(c) + spec_esc(t@.skip(i + 1)));
            assert(before + (spec_esc_char(c) + spec_esc(t@.skip(i + 1))) =~= (before
                + spec_esc_char(c)) + spec_esc(t@.skip(i + 1)));
        }
        i = i + 1;
    }
    proof {
        assert(t@.skip(n as int) =~= Seq::<char>::empty());
        assert(orig + spec_esc(t@) =~= out@ + spec_esc(Seq::<char>::empty()));
        assert(out@ + Seq::<char>::empty() =~= out@);
    }
}

/// Appends the encoding of one bookmark to `out`.
fn append_item(out: &mut String, b: &Bookmark)
    ensures
        final(out)@ == old(out)@ + spec_encode_item(b@),
{
    let ghost orig = out@;
    proof {
        reveal_strlit("{\"title\":\"");
        reveal_strlit("\",\"url\":\"");
        reveal_strlit("\"}");
        assert("{\"title\":\""@ =~= item_open());
        assert("\",\"url\":\""@ =~= item_mid());
        assert("\"}"@ =~= item_end());
    }
    append_str(out, "{\"title\":\"");
    append_escaped(out, b.title.as_str());
    append_str(out, "\",\"url\":\"");
    append_escaped(out, b.url.as_str());
    append_str(out, "\"}");
    proof {
        assert(out@ =~= orig + spec_encode_item(b@));
    }
}

/// Encodes the bookmark list as the JSON text the store persists.
pub fn encode_bookmarks(items: &Vec<Bookmark>) -> (r: String)
    ensures
        r@ == spec_encode_bookmarks(items.deep_view()),
{
    let ghost dv = items.deep_view();
    proof {
        crate::bookmarks::lemma_bookmarks_deep_view(*items);
    }
    let mut out = String::new();
    push_char(&mut out, '[');
    if items.len() == 0 {
        push_char(&mut out, ']');
        proof {
            assert(out@ =~= seq!['[', ']']);
        }
        return out;
    }
    append_item(&mut out, &items[0]);
    let mut k: usize = 1;
    proof {
        assert(dv.skip(1) =~= dv.drop_first());
        assert(out@ =~= seq!['['] + spec_encode_item(dv[0]));
    }
    while k < items.len()
        invariant
            1 <= k <= dv.len(),
            dv == items.deep_view(),
            dv.len() == items@.len(),
            forall|m: int| 0 <= m < dv.len() ==> dv[m] == items@[m]@,
            spec_encode_bookmarks(dv) =~= out@ + spec_encode_tail(dv.skip(k as int)),
        decreases dv.len() - k,
    {
        let ghost before = out@;
        push_char(&mut out, ',');
        append_item(&mut out, &items[k]);
        proof {
            assert(dv.skip(k as int)[0] == dv[k as int]);
            assert(dv.skip(k as int).drop_first() =~= dv.skip(k + 1));
            assert(spec_encode_tail(dv.skip(k as int)) == seq![','] + spec_encode_item(
                dv[k as int],
            ) + spec_encode_tail(dv.skip(k + 1)));
            assert(out@ =~= before + seq![','] + spec_encode_item(dv[k as int]));
            assert(before + spec_encode_tail(dv.skip(k as int)) =~= out@ + spec_encode_tail(
                dv.skip(k + 1),
            ));
        }
        k = k + 1;
    }
    push_char(&mut out, ']');
    proof {
        assert(dv.skip(dv.len() as int) =~= Seq::<BookmarkView>::empty());
        assert(spec_encode_tail(Seq::<BookmarkView>::empty()) == seq![']']);
        assert(out@ =~= spec_encode_bookmarks(dv));
    }
    out
}

/// `o` with `pre` prepended to its parsed content, when it parsed at all.
spec fn opt_prepend<A>(pre: Seq<A>, o: Option<(Seq<A>, int)>) -> Option<(Seq<A>, int)> {
    match o {
        None => None,
        Some((t, j)) => Some((pre + t, j)),
    }
}

proof fn lemma_opt_prepend_assoc<A>(a: Seq<A>, b: Seq<A>, o: Option<(Seq<A>, int)>)
    ensures
        opt_prepend(a, opt_prepend(b, o)) == opt_prepend(a + b, o),
{
    match o {
        None => {},
        Some((t, j)) => {
            assert(a + (b + t) =~= (a + b) + t);
        },
    }
}

/// The numeric value of a hexadecimal digit, either case.
fn hex_val(c: char) -> (r: Option<u8>)
    ensures
        r == spec_hex_val(c),
{
    let x = c as u32;
    if 48 <= x && x <= 57 {
        Some((x - 48) as u8)
    } else if 97 <= x && x <= 102 {
        Some((x - 87) as u8)
    } else if 65 <= x && x <= 70 {
        Some((x - 55) as u8)
    } else {
        None
    }
}

/// The character a one-character backslash escape stands for.
fn simple_escape(e: char) -> (r: Option<char>)
    ensures
        r == spec_simple_escape(e),
{
    if e == '"' {
        Some('"')
    } else if e == '\\' {
        Some('\\')
    } else if e == '/' {
        Some('/')
    } else if e == 'n' {
        Some('\n')
    } else if e == 't' {
        Some('\t')
    } else if e == 'r' {
        Some('\r')
    } else if e == 'b' {
        Some('\u{8}')
    } else if e == 'f' {
        Some('\u{c}')
    } else {
        None
    }
}

/// Whether the characters of `pat` stand in `s` at position `i`.
fn match_at(s: &str, n: usize, i: usize, pat: &str) -> (r: bool)
    requires
        n == s@.len(),
    ensures
        r == spec_match_at(s@, i as int, pat@),
{
    let np = pat.unicode_len();
    if i > n || np > n - i {
        return false;
    }
    let mut k: usize = 0;
    while k < np
        invariant
            0 <= k <= np,
            np == pat@.len(),
            n == s@.len(),
            i + np <= n,
            forall|m: int| 0 <= m < k ==> s@[i + m] == pat@[m],
        decreases np - k,
    {
        if s.get_char(i + k) != pat.get_char(k) {
            proof {
                assert(s@.subrange(i as int, i + pat@.len())[k as int] != pat@[k as int]);
            }
            return false;
        }
        k = k + 1;
    }
    proof {
        assert(s@.subrange(i as int, i + pat@.len()) =~= pat@);
    }
    true
}

/// Parses a JSON string body starting at `i0`, just inside the opening
/// quote: the decoded text and the position after the closing quote.
fn parse_str_at(s: &str, n: usize, i0: usize) -> (r: Option<(String, usize)>)
    requires
        n == s@.len(),
        i0 <= n,
    ensures
        match r {
            Some(p) => spec_parse_str(s@, i0 as int) == Some((p.0@, p.1 as int)) && i0 < p.1 <= n,
            None => spec_parse_str(s@, i0 as int) is None,
        },
{
    let mut acc = String::new();
    let mut i = i0;
    proof {
        assert(opt_prepend(acc@, spec_parse_str(s@, i0 as int)) == spec_parse_str(
            s@,
            i0 as int,
        )) by {
            match spec_parse_str(s@, i0 as int) {
                None => {},
                Some((t, j)) => {
                    assert(Seq::<char>::empty() + t =~= t);
                },
            }
        }
        lemma_parse_str_bounds(s@, i0 as int);
    }
    loop
        invariant
            i0 <= i <= n,
            n == s@.len(),
            spec_parse_str(s@, i0 as int) == opt_prepend(acc@, spec_parse_str(s@, i as int)),
        decreases n - i,
    {
        if i >= n {
            return None;
        }
        let c = s.get_char(i);
        if c == '"' {
            proof {
                assert(spec_parse_str(s@, i as int) == Some((Seq::<char>::empty(), i + 1)));
                assert(acc@ + Seq::<char>::empty() =~= acc@);
                lemma_parse_str_bounds(s@, i0 as int);
            }
            return Some((acc, i + 1));
        }
        if c == '\\' {
            if n - i < 2 {
                return None;
            }
            let e = s.get_char(i + 1);
            if e == 'u' {
                if n - i < 6 {
                    return None;
                }
                let h1 = hex_val(s.get_char(i + 2));
                let h2 = hex_val(s.get_char(i + 3));
                let h3 = hex_val(s.get_char(i + 4));
                let h4 = hex_val(s.get_char(i + 5));
                match (h1, h2, h3, h4) {
                    (Some(v1), Some(v2), Some(v3), Some(v4)) => {
                        let v: u32 = (v1 as u32) * 4096 + (v2 as u32) * 256 + (v3 as u32) * 16 + (
                        v4 as u32);
                        if v >= 32 {
                            return None;
                        }
                        let c2 = (v as u8) as char;
                        proof {
                            assert(spec_u_escape(
                                s@[i + 2],
                                s@[i + 3],
                                s@[i + 4],
                                s@[i + 5],
                            ) == Some(c2));
                            assert(spec_parse_str(s@, i as int) == opt_prepend(
                                seq![c2],
                                spec_parse_str(s@, i + 6),
                            ));
                            lemma_opt_prepend_assoc(acc@, seq![c2], spec_parse_str(s@, i + 6));
                            assert(acc@.push(c2) =~= acc@ + seq![c2]);
                        }
                        push_char(&mut acc, c2);
                        i = i + 6;
                    },
                    _ => {
                        return None;
                    },
                }
            } else {
                match simple_escape(e) {
                    Some(c2) => {
                        proof {
                            assert(spec_parse_str(s@, i as int) == opt_prepend(
                                seq![c2],
                                spec_parse_str(s@, i + 2),
                            ));
                            lemma_opt_prepend_assoc(acc@, seq![c2], spec_parse_str(s@, i + 2));
                            assert(acc@.push(c2) =~= acc@ + seq![c2]);
                        }
                        push_char(&mut acc, c2);
                        i = i + 2;
                    },
                    None => {
                        return None;
                    },
                }
            }
        } else if (c as u32) < 32 {
            return None;
        } else {
            proof {
                assert(spec_parse_str(s@, i as int) == opt_prepend(
                    seq![c],
                    spec_parse_str(s@, i + 1),
                ));
                lemma_opt_prepend_assoc(acc@, seq![c], spec_parse_str(s@, i + 1));
                assert(acc@.push(c) =~= acc@ + seq![c]);
            }
            push_char(&mut acc, c);
            i = i + 1;
        }
    }
}

/// JSON inter-token whitespace test.
fn is_json_ws(c: char) -> (r: bool)
    ensures
        r == spec_is_json_ws(c),
{
    c == ' ' || c == '\t' || c == '\n' || c == '\r'
}

/// Skips JSON whitespace from `i0` and returns the first other position.
fn skip_ws(s: &str, n: usize, i0: usize) -> (r: usize)
    requires
        n == s@.len(),
        i0 <= n,
    ensures
        r as int == spec_skip_ws(s@, i0 as int),
        i0 <= r <= n,
{
    let mut i = i0;
    while i < n && is_json_ws(s.get_char(i))
        invariant
            i0 <= i <= n,
            n == s@.len(),
            spec_skip_ws(s@, i0 as int) == spec_skip_ws(s@, i as int),
        decreases n - i,
    {
        proof {
            assert(spec_skip_ws(s@, i as int) == spec_skip_ws(s@, i + 1));
        }
        i = i + 1;
    }
    proof {
        assert(spec_skip_ws(s@, i as int) == i as int);
    }
    i
}

/// Parses a field's value part at `i`: colon, then a quoted string, with
/// whitespace allowed around the colon.
fn parse_field_value_at(s: &str, n: usize, i: usize) -> (r: Option<(String, usize)>)
    requires
        n == s@.len(),
        i <= n,
    ensures
        match r {
            Some(p) => spec_parse_field_value(s@, i as int) == Some((p.0@, p.1 as int)) && i < p.1
                <= n,
            None => spec_parse_field_value(s@, i as int) is None,
        },
{
    let i1 = skip_ws(s, n, i);
    if i1 >= n || s.get_char(i1) != ':' {
        return None;
    }
    let i2 = skip_ws(s, n, i1 + 1);
    if i2 >= n || s.get_char(i2) != '"' {
        return None;
    }
    parse_str_at(s, n, i2 + 1)
}

/// Parses one field at `i`: a `"title"` or `"url"` key and its value.
fn parse_field_at(s: &str, n: usize, i: usize) -> (r: Option<(bool, String, usize)>)
    requires
        n == s@.len(),
        i <= n,
    ensures
        match r {
            Some(p) => spec_parse_field(s@, i as int) == Some((p.0, p.1@, p.2 as int)) && i < p.2
                <= n,
            None => spec_parse_field(s@, i as int) is None,
        },
{
    proof {
        reveal_strlit("\"title\"");
        reveal_strlit("\"url\"");
        assert("\"title\""@ =~= key_title());
        assert("\"url\""@ =~= key_url());
    }
    let i0 = skip_ws(s, n, i);
    if match_at(s, n, i0, "\"title\"") {
        match parse_field_value_at(s, n, i0 + 7) {
            Some(p) => {
                let (t, j) = p;
                Some((true, t, j))
            },
            None => None,
        }
    } else if match_at(s, n, i0, "\"url\"") {
        match parse_field_value_at(s, n, i0 + 5) {
            Some(p) => {
                let (t, j) = p;
                Some((false, t, j))
            },
            None => None,
        }
    } else {
        None
    }
}

/// Parses one item starting at `i`: the bookmark and the position after its
/// closing brace.
fn parse_item_at(s: &str, n: usize, i: usize) -> (r: Option<(Bookmark, usize)>)
    requires
        n == s@.len(),
        i <= n,
    ensures
        match r {
            Some(p) => spec_parse_item(s@, i as int) == Some((p.0@, p.1 as int)) && i < p.1 <= n,
            None => spec_parse_item(s@, i as int) is None,
        },
{
    let i0 = skip_ws(s, n, i);
    if i0 >= n || s.get_char(i0) != '{' {
        return None;
    }
    let first = match parse_field_at(s, n, i0 + 1) {
        None => {
            return None;
        },
        Some(p) => p,
    };
    let (first_title, t1, j) = first;
    let j0 = skip_ws(s, n, j);
    if j0 >= n || s.get_char(j0) != ',' {
        return None;
    }
    let second = match parse_field_at(s, n, j0 + 1) {
        None => {
            return None;
        },
        Some(p) => p,
    };
    let (second_title, t2, k) = second;
    if first_title == second_title {
        return None;
    }
    let k0 = skip_ws(s, n, k);
    if k0 >= n || s.get_char(k0) != '}' {
        return None;
    }
    let b = if first_title {
        Bookmark { title: t1, url: t2 }
    } else {
        Bookmark { title: t2, url: t1 }
    };
    proof {
        assert(spec_parse_item(s@, i as int) == Some((b@, k0 + 1)));
    }
    Some((b, k0 + 1))
}

/// Parses the items of a non-empty array starting at `i0`: the bookmarks
/// and the position after the closing bracket.
fn parse_items_at(s: &str, n: usize, i0: usize) -> (r: Option<(Vec<Bookmark>, usize)>)
    requires
        n == s@.len(),
        i0 <= n,
    ensures
        match r {
            Some(p) => spec_parse_items(s@, i0 as int) == Some((p.0.deep_view(), p.1 as int))
                && p.1 <= n,
            None => spec_parse_items(s@, i0 as int) is None,
        },
{
    let mut out: Vec<Bookmark> = Vec::new();
    let mut i = i0;
    proof {
        crate::bookmarks::lemma_bookmarks_deep_view(out);
        assert(out.deep_view() =~= Seq::<BookmarkView>::empty());
        assert(opt_prepend(out.deep_view(), spec_parse_items(s@, i0 as int)) == spec_parse_items(
            s@,
            i0 as int,
        )) by {
            match spec_parse_items(s@, i0 as int) {
                None => {},
                Some((t, j)) => {
                    assert(Seq::<BookmarkView>::empty() + t =~= t);
                },
            }
        }
    }
    loop
        invariant
            i0 <= i <= n,
            n == s@.len(),
            spec_parse_items(s@, i0 as int) == opt_prepend(
                out.deep_view(),
                spec_parse_items(s@, i as int),
            ),
        decreases n - i,
    {
        let item_and_j = match parse_item_at(s, n, i) {
            None => {
                return None;
            },
            Some(p) => p,
        };
        let (b, j) = item_and_j;
        let ghost before = out.deep_view();
        let ghost bv = b@;
        out.push(b);
        proof {
            crate::bookmarks::lemma_bookmarks_deep_view(out);
            assert(out.deep_view() =~= before.push(bv));
        }
        let j0 = skip_ws(s, n, j);
        if j0 < n && s.get_char(j0) == ',' {
            proof {
                assert(spec_parse_items(s@, i as int) == opt_prepend(
                    seq![bv],
                    spec_parse_items(s@, j0 + 1),
                ));
                lemma_opt_prepend_assoc(before, seq![bv], spec_parse_items(s@, j0 + 1));
                assert(before.push(bv) =~= before + seq![bv]);
            }
            i = j0 + 1;
        } else if j0 < n && s.get_char(j0) == ']' {
            proof {
                assert(spec_parse_items(s@, i as int) == Some((seq![bv], j0 + 1)));
                assert(before + seq![bv] =~= before.push(bv));
            }
            return Some((out, j0 + 1));
        } else {
            return None;
        }
    }
}

/// Parses a stored blob: a JSON array of bookmark items, and nothing else.
pub fn parse_bookmarks(s: &str) -> (r: Option<Vec<Bookmark>>)
    ensures
        match r {
            Some(v) => spec_parse_bookmarks(s@) == Some(v.deep_view()),
            None => spec_parse_bookmarks(s@) is None,
        },
{
    let n = s.unicode_len();
    let i0 = skip_ws(s, n, 0);
    if i0 >= n || s.get_char(i0) != '[' {
        return None;
    }
    let i1 = skip_ws(s, n, i0 + 1);
    if i1 < n && s.get_char(i1) == ']' {
        if skip_ws(s, n, i1 + 1) == n {
            let v: Vec<Bookmark> = Vec::new();
            proof {
                crate::bookmarks::lemma_bookmarks_deep_view(v);
                assert(v.deep_view() =~= Seq::<BookmarkView>::empty());
            }
            return Some(v);
        }
        return None;
    }
    match parse_items_at(s, n, i0 + 1) {
        None => None,
        Some(p) => {
            let (v, k) = p;
            if skip_ws(s, n, k) == n {
                Some(v)
            } else {
                None
            }
        },
    }
}

/// Materializes the bookmark list from what the key-value store returned:
/// an absent store or key, or a blob the parser rejects, degrades to the
/// empty list and never to an error.
pub fn load_bookmarks(blob: Option<&str>) -> (r: Vec<Bookmark>)
    ensures
        match blob {
            Some(s) => match spec_parse_bookmarks(s@) {
                Some(items) => r.deep_view() == items,
                None => r.deep_view() == Seq::<BookmarkView>::empty(),
            },
            None => r.deep_view() == Seq::<BookmarkView>::empty(),
        },
{
    let parsed = match blob {
        None => None,
        Some(s) => parse_bookmarks(s),
    };
    match parsed {
        Some(v) => v,
        None => {
            let v: Vec<Bookmark> = Vec::new();
            proof {
                crate::bookmarks::lemma_bookmarks_deep_view(v);
                assert(v.deep_view() =~= Seq::<BookmarkView>::empty());
            }
            v
        },
    }
}

/// Round trip: decoding an encoded bookmark list yields exactly that list.
/// This is what keeps `save` followed by `load` stable: loading gives the
/// items back, saving writes their encoding, and loading again parses that
/// encoding to the same items.
#[verifier::spinoff_prover]
#[verifier::rlimit(100)]
pub proof fn lemma_codec_round_trip(items: Seq<BookmarkView>)
    ensures
        spec_parse_bookmarks(spec_encode_bookmarks(items)) == Some(items),
{
    let s = spec_encode_bookmarks(items);
    if items.len() == 0 {
        assert(s == seq!['[', ']']);
        assert(s[0] == '[' && s[1] == ']' && s.len() == 2);
        assert(spec_skip_ws(s, 0) == 0);
        assert(spec_skip_ws(s, 1) == 1);
        assert(spec_skip_ws(s, 2) == 2);
        assert(spec_parse_bookmarks(s) == Some(Seq::<BookmarkView>::empty()));
        assert(Seq::<BookmarkView>::empty() =~= items);
    } else {
        let ei = spec_encode_item(items[0]);
        let tail = spec_encode_tail(items.drop_first());
        assert(s == seq!['['] + ei + tail);
        assert(s[0] == '[');
        assert(spec_skip_ws(s, 0) == 0);
        assert(ei.len() >= 21);
        assert(tail.len() >= 1);
        assert(s.len() > 2);
        assert(s[1] == ei[0]);
        assert(s[1] == '{');
        assert(spec_skip_ws(s, 1) == 1);
        assert(s.subrange(1, s.len() as int) =~= ei + tail);
        lemma_parse_items_of_encode(s, 1, items);
        assert(spec_skip_ws(s, s.len() as int) == s.len());
    }
}

} // verus!
