//! Bookmarks: named URLs found by name or keyword.
use vstd::prelude::*;
use crate::matching::{clone_strings, entry_matches, entry_matches_exec, strs_view};
use crate::text::{has_substring, lowercase, query_key, query_key_chars};

verus! {

/// A bookmark from `bookmarks.toml`.
#[derive(Debug, Clone)]
pub struct Bookmark {
    /// The name shown for the candidate.
    pub name: String,
    /// The URL to open.
    pub url: String,
    /// Other words that find it (may be empty).
    pub keywords: Vec<String>,
}

/// The value of a [`Bookmark`].
pub struct BookmarkView {
    pub name: Seq<char>,
    pub url: Seq<char>,
    pub keywords: Seq<Seq<char>>,
}

impl View for Bookmark {
    type V = BookmarkView;

    open spec fn view(&self) -> BookmarkView {
        BookmarkView { name: self.name@, url: self.url@, keywords: strs_view(self.keywords@) }
    }
}

/// The values of a list of bookmarks.
pub open spec fn bookmark_views(v: Seq<Bookmark>) -> Seq<BookmarkView> {
    v.map_values(|b: Bookmark| b@)
}

/// Whether a bookmark matches a query key.
pub open spec fn bookmark_matches(key: Seq<char>) -> spec_fn(BookmarkView) -> bool {
    |b: BookmarkView| entry_matches(b.name, b.keywords, key)
}

/// The bookmarks that `search` returns: none for a query that is blank once
/// trimmed and lower-cased, else those whose name or a keyword contains it,
/// ignoring case, in their order.
pub open spec fn search_spec(bookmarks: Seq<BookmarkView>, query: Seq<char>) -> Seq<BookmarkView> {
    let key = query_key(query);
    if key.len() == 0 {
        seq![]
    } else {
        bookmarks.filter(bookmark_matches(key))
    }
}

impl Bookmark {
    /// A copy of the bookmark.
    pub fn duplicate(&self) -> (r: Bookmark)
        ensures
            r@ == self@,
    {
        Bookmark { name: self.name.clone(), url: self.url.clone(), keywords: clone_strings(&self.keywords) }
    }
}

/// The bookmarks that match the query: those whose name or one of whose
/// keywords contains it, ignoring case and the query's surrounding white space.
pub fn search(bookmarks: &[Bookmark], query: &str) -> (r: Vec<Bookmark>)
    ensures
        bookmark_views(r@) == search_spec(bookmark_views(bookmarks@), query@),
{
    let key = query_key_chars(query);
    if key.len() == 0 {
        assert(bookmark_views(Seq::<Bookmark>::empty()) =~= seq![]);
        return Vec::new();
    }
    let ghost all = bookmark_views(bookmarks@);
    let ghost pred = bookmark_matches(key@);
    let mut r: Vec<Bookmark> = Vec::new();
    let n = bookmarks.len();
    let mut i: usize = 0;
    assert(all.take(0) =~= seq![]);
    assert(bookmark_views(r@) =~= seq![]);
    while i < n
        invariant
            i <= n,
            n == bookmarks@.len(),
            all == bookmark_views(bookmarks@),
            pred == bookmark_matches(key@),
            bookmark_views(r@) == all.take(i as int).filter(pred),
        decreases n - i,
    {
        let b = &bookmarks[i];
        let hit = entry_matches_exec(&b.name, &b.keywords, &key);
        proof {
            reveal_with_fuel(Seq::filter, 1);
            assert(all.take(i as int + 1).drop_last() =~= all.take(i as int));
            assert(all.take(i as int + 1).last() == b@);
        }
        if hit {
            let ghost before = r@;
            r.push(b.duplicate());
            assert(bookmark_views(r@) =~= bookmark_views(before).push(b@));
        }
        i = i + 1;
    }
    assert(all.take(n as int) =~= all);
    r
}

/// Searching ignores white space around the query: a trimmed query finds
/// the same bookmarks.
pub proof fn law_search_ignores_surrounding_space(bookmarks: Seq<BookmarkView>, query: Seq<char>)
    ensures
        search_spec(bookmarks, crate::text::trim_spec(query)) == search_spec(bookmarks, query),
{
    crate::text::law_trim_idempotent(query);
}

/// A search ignores case and finds exactly the bookmarks that match: for a
/// non-blank query, a bookmark whose lower-cased name or one of whose lower-cased
/// keywords contains the lower-cased, trimmed query is found; and each bookmark
/// found is one of the list and matches so.
pub proof fn law_search_finds_matches(bookmarks: Seq<BookmarkView>, query: Seq<char>, i: int)
    requires
        query_key(query).len() > 0,
    ensures
        0 <= i < bookmarks.len() && (has_substring(lowercase(bookmarks[i].name), query_key(query)) || exists|k: int|
            0 <= k < bookmarks[i].keywords.len() && has_substring(lowercase(#[trigger] bookmarks[i].keywords[k]), query_key(query)))
            ==> search_spec(bookmarks, query).contains(bookmarks[i]),
        forall|j: int|
            0 <= j < search_spec(bookmarks, query).len() ==> bookmarks.contains(#[trigger] search_spec(bookmarks, query)[j]) && (
            has_substring(lowercase(search_spec(bookmarks, query)[j].name), query_key(query)) || exists|k: int|
                0 <= k < search_spec(bookmarks, query)[j].keywords.len() && has_substring(
                    lowercase(#[trigger] search_spec(bookmarks, query)[j].keywords[k]),
                    query_key(query),
                )),
{
    broadcast use vstd::seq_lib::group_filter_ensures;
    let key = query_key(query);
    let pred = bookmark_matches(key);
    if 0 <= i < bookmarks.len() {
        if has_substring(lowercase(bookmarks[i].name), key) || exists|k: int|
            0 <= k < bookmarks[i].keywords.len() && has_substring(lowercase(#[trigger] bookmarks[i].keywords[k]), key) {
            assert(pred(bookmarks[i]));
            bookmarks.lemma_filter_contains(pred, i);
        }
    }
    assert forall|j: int| 0 <= j < search_spec(bookmarks, query).len() implies bookmarks.contains(
        #[trigger] search_spec(bookmarks, query)[j],
    ) by {
        let f = bookmarks.filter(pred);
        assert(f.contains(f[j]));
        bookmarks.lemma_filter_contains_rev(pred, f[j]);
    }
}

} // verus!
