//! The persisted bookmark list and the validated operations on it.
//!
//! A bookmark has no identity field: its URL is the natural key, removal
//! takes the first entry with a matching URL, and duplicates are not
//! forbidden.  Insertion order is display order; adding appends.

use vstd::prelude::*;
use crate::text::{spec_trim, str_eq, trim};
use crate::urls::{normalize_url, spec_normalize_url};

verus! {

/// One stored bookmark: a display title and an absolute URL.
#[derive(Clone, Debug, PartialEq, Eq)]
pub struct Bookmark {
    pub title: String,
    pub url: String,
}

/// The mathematical shape of a bookmark: its two texts.
pub ghost struct BookmarkView {
    pub title: Seq<char>,
    pub url: Seq<char>,
}

impl View for Bookmark {
    type V = BookmarkView;

    open spec fn view(&self) -> BookmarkView {
        BookmarkView { title: self.title@, url: self.url@ }
    }
}

impl DeepView for Bookmark {
    type V = BookmarkView;

    open spec fn deep_view(&self) -> BookmarkView {
        self@
    }
}

/// A bookmark list's deep view reads the elements' views off pointwise.
pub proof fn lemma_bookmarks_deep_view(v: Vec<Bookmark>)
    ensures
        v.deep_view().len() == v@.len(),
        forall|k: int| 0 <= k < v@.len() ==> #[trigger] v.deep_view()[k] == v@[k]@,
{
}

impl Bookmark {
    /// An exact copy, field by field.
    pub fn duplicate(&self) -> (b: Bookmark)
        ensures
            b == *self,
    {
        Bookmark { title: self.title.clone(), url: self.url.clone() }
    }
}

/// Copies a bookmark list element by element.
pub fn clone_bookmarks(items: &Vec<Bookmark>) -> (r: Vec<Bookmark>)
    ensures
        r@ == items@,
{
    let mut r: Vec<Bookmark> = Vec::new();
    let mut i: usize = 0;
    while i < items.len()
        invariant
            0 <= i <= items@.len(),
            r@ =~= items@.subrange(0, i as int),
        decreases items@.len() - i,
    {
        r.push(items[i].duplicate());
        i = i + 1;
    }
    proof {
        assert(items@.subrange(0, items@.len() as int) =~= items@);
    }
    r
}

/// Why an add-bookmark submission was rejected.
#[derive(Clone, Copy, Debug, PartialEq, Eq, Structural)]
pub enum AddError {
    /// Title or URL was empty after trimming.
    MissingField,
    /// The URL text was not acceptable to URL normalization.
    InvalidUrl,
}

impl AddError {
    /// The user-visible notification text for this rejection.
    pub fn message(self) -> (r: &'static str)
        ensures
            self == AddError::MissingField ==> r@ == "Title and URL are required."@,
            self == AddError::InvalidUrl ==> r@ == "URL must be a domain or start with http(s)://"@,
    {
        match self {
            AddError::MissingField => "Title and URL are required.",
            AddError::InvalidUrl => "URL must be a domain or start with http(s)://",
        }
    }
}

/// Validates an add-bookmark submission and, when it passes, returns the
/// list with the new entry appended: trimmed title, normalized URL.  On
/// rejection the list is untouched and the error says which constraint
/// failed: an empty field, or a URL the normalizer does not accept.
pub fn add_bookmark(items: &Vec<Bookmark>, title: &str, url_raw: &str) -> (r: Result<
    Vec<Bookmark>,
    AddError,
>)
    ensures
        match r {
            Ok(v) => {
                &&& spec_trim(title@).len() > 0
                &&& spec_trim(url_raw@).len() > 0
                &&& spec_normalize_url(url_raw@) is Some
                &&& v.deep_view() == items.deep_view().push(
                    BookmarkView {
                        title: spec_trim(title@),
                        url: spec_normalize_url(url_raw@)->Some_0,
                    },
                )
            },
            Err(AddError::MissingField) => spec_trim(title@).len() == 0 || spec_trim(
                url_raw@,
            ).len() == 0,
            Err(AddError::InvalidUrl) => {
                &&& spec_trim(title@).len() > 0
                &&& spec_trim(url_raw@).len() > 0
                &&& spec_normalize_url(url_raw@) is None
            },
        },
{
    let t = trim(title);
    let u_raw = trim(url_raw);
    if t.as_str().is_empty() || u_raw.as_str().is_empty() {
        return Err(AddError::MissingField);
    }
    match normalize_url(url_raw) {
        None => Err(AddError::InvalidUrl),
        Some(u) => {
            let mut v = clone_bookmarks(items);
            v.push(Bookmark { title: t, url: u });
            proof {
                lemma_bookmarks_deep_view(v);
                lemma_bookmarks_deep_view(*items);
                assert(v.deep_view() =~= items.deep_view().push(
                    BookmarkView {
                        title: spec_trim(title@),
                        url: spec_normalize_url(url_raw@)->Some_0,
                    },
                ));
            }
            Ok(v)
        },
    }
}

/// The list with the first entry whose URL equals `url` removed; the list
/// unchanged when no entry matches.
pub open spec fn spec_remove_first_by_url(s: Seq<BookmarkView>, url: Seq<char>) -> Seq<
    BookmarkView,
>
    decreases s.len(),
{
    if s.len() == 0 {
        s
    } else if s[0].url == url {
        s.drop_first()
    } else {
        seq![s[0]] + spec_remove_first_by_url(s.drop_first(), url)
    }
}

proof fn lemma_remove_found(s: Seq<BookmarkView>, url: Seq<char>, i: int)
    requires
        0 <= i < s.len(),
        s[i].url == url,
        forall|k: int| 0 <= k < i ==> s[k].url != url,
    ensures
        spec_remove_first_by_url(s, url) == s.subrange(0, i) + s.subrange(i + 1, s.len() as int),
    decreases i,
{
    if i == 0 {
        assert(s.drop_first() =~= s.subrange(0, 0) + s.subrange(1, s.len() as int));
    } else {
        lemma_remove_found(s.drop_first(), url, i - 1);
        assert(seq![s[0]] + (s.drop_first().subrange(0, i - 1) + s.drop_first().subrange(
            i,
            s.drop_first().len() as int,
        )) =~= s.subrange(0, i) + s.subrange(i + 1, s.len() as int));
    }
}

proof fn lemma_remove_absent(s: Seq<BookmarkView>, url: Seq<char>)
    requires
        forall|k: int| 0 <= k < s.len() ==> s[k].url != url,
    ensures
        spec_remove_first_by_url(s, url) == s,
    decreases s.len(),
{
    if s.len() > 0 {
        lemma_remove_absent(s.drop_first(), url);
        assert(seq![s[0]] + s.drop_first() =~= s);
    }
}

/// Index of the first bookmark whose URL equals `url`, if any.
fn find_by_url(items: &Vec<Bookmark>, url: &str) -> (r: Option<usize>)
    ensures
        match r {
            Some(i) => i < items@.len() && items@[i as int]@.url == url@ && forall|k: int|
                0 <= k < i ==> items@[k]@.url != url@,
            None => forall|k: int| 0 <= k < items@.len() ==> items@[k]@.url != url@,
        },
{
    let mut i: usize = 0;
    while i < items.len()
        invariant
            0 <= i <= items@.len(),
            forall|k: int| 0 <= k < i ==> items@[k]@.url != url@,
        decreases items@.len() - i,
    {
        if str_eq(items[i].url.as_str(), url) {
            return Some(i);
        }
        i = i + 1;
    }
    None
}

/// Removes the first bookmark whose URL equals `url`; leaves the list as it
/// was when none matches.
pub fn remove_bookmark_by_url(items: &Vec<Bookmark>, url: &str) -> (r: Vec<Bookmark>)
    ensures
        r.deep_view() == spec_remove_first_by_url(items.deep_view(), url@),
{
    let ghost dv = items.deep_view();
    proof {
        lemma_bookmarks_deep_view(*items);
    }
    let pos = match find_by_url(items, url) {
        None => {
            proof {
                lemma_remove_absent(dv, url@);
            }
            let r = clone_bookmarks(items);
            proof {
                lemma_bookmarks_deep_view(r);
                assert(r.deep_view() =~= dv);
            }
            return r;
        },
        Some(p) => p,
    };
    let n = items.len();
    let mut r: Vec<Bookmark> = Vec::new();
    let mut i: usize = 0;
    while i < pos
        invariant
            0 <= i <= pos < items@.len(),
            r@ =~= items@.subrange(0, i as int),
        decreases pos - i,
    {
        r.push(items[i].duplicate());
        i = i + 1;
    }
    let mut j: usize = pos + 1;
    while j < n
        invariant
            n == items@.len(),
            pos < j <= items@.len(),
            r@ =~= items@.subrange(0, pos as int) + items@.subrange(pos + 1, j as int),
        decreases items@.len() - j,
    {
        r.push(items[j].duplicate());
        j = j + 1;
    }
    proof {
        lemma_remove_found(dv, url@, pos as int);
        lemma_bookmarks_deep_view(r);
        lemma_bookmarks_deep_view(*items);
        assert(r.deep_view() =~= dv.subrange(0, pos as int) + dv.subrange(
            pos + 1,
            dv.len() as int,
        ));
    }
    r
}

/// Adding a bookmark and then removing it by its URL restores the original
/// list, provided no existing entry already carries that URL (removal takes
/// the first match, which with a duplicated URL is the earlier entry, not
/// the new one).
pub proof fn lemma_add_then_remove_restores(s: Seq<BookmarkView>, b: BookmarkView)
    requires
        forall|i: int| 0 <= i < s.len() ==> s[i].url != b.url,
    ensures
        spec_remove_first_by_url(s.push(b), b.url) == s,
    decreases s.len(),
{
    if s.len() == 0 {
        assert(s.push(b)[0] == b);
        assert(s.push(b).drop_first() =~= s);
    } else {
        assert(s.push(b)[0] == s[0]);
        assert(s.push(b).drop_first() =~= s.drop_first().push(b));
        lemma_add_then_remove_restores(s.drop_first(), b);
        assert(seq![s[0]] + s.drop_first() =~= s);
    }
}

} // verus!
