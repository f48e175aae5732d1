//! Offers the bookmarks that match the query, to be opened, and the bookmark file itself.
use vstd::prelude::*;
use crate::bookmarks::{self, Bookmark, BookmarkView, bookmark_views, search_spec};
use crate::provider::{Action, ActionView, Candidate, CandidateView, Provider, candidate_views};
use crate::providers::config_file::{open_file_candidates, open_file_offered, path_view};
use crate::text::{concat2, trim, trim_spec};

verus! {

/// The label of the candidate that opens `bookmarks.toml`.
pub open spec fn open_config_label() -> Seq<char> {
    "Open Bookmarks (設定ファイルを開く)"@
}

/// The candidate offered for a bookmark.
pub open spec fn bookmark_candidate(c: BookmarkView) -> CandidateView {
    CandidateView { label: c.name + " を開く"@, source: "Bookmark"@, action: ActionView::Open(c.url) }
}

/// The candidates for a query: none for a blank query; else first the one
/// that opens `bookmarks.toml` (when the query asks to open it and the file's path is
/// known), then one per bookmark that `search` finds.
pub open spec fn bookmark_offered(
    all: Seq<BookmarkView>,
    config_path: Option<Seq<char>>,
    query: Seq<char>,
) -> Seq<CandidateView> {
    let q = trim_spec(query);
    if q.len() == 0 {
        seq![]
    } else {
        open_file_offered("open bookmarks"@, open_config_label(), "Bookmark"@, config_path, query) + search_spec(all, q).map_values(
            |c: BookmarkView| bookmark_candidate(c),
        )
    }
}

/// Offers the bookmarks read from `bookmarks.toml`, and that file.
pub struct BookmarkProvider {
    bookmarks: Vec<Bookmark>,
    config_path: Option<String>,
}

impl BookmarkProvider {
    /// A provider over the given bookmarks; `config_path` is where `bookmarks.toml`
    /// lives, when it is known.
    pub fn new(bookmarks: Vec<Bookmark>, config_path: Option<String>) -> (r: BookmarkProvider)
        ensures
            bookmark_views(r.items()@) == bookmark_views(bookmarks@),
            r.config_path() == config_path,
    {
        BookmarkProvider { bookmarks, config_path }
    }

    /// Replaces the bookmarks with a freshly read list.
    pub fn reload(&mut self, bookmarks: Vec<Bookmark>)
        ensures
            bookmark_views(final(self).items()@) == bookmark_views(bookmarks@),
            final(self).config_path() == old(self).config_path(),
    {
        self.bookmarks = bookmarks;
    }

    /// The bookmarks searched.
    pub closed spec fn items(&self) -> Vec<Bookmark> {
        self.bookmarks
    }

    /// The path of `bookmarks.toml`.
    pub closed spec fn config_path(&self) -> Option<String> {
        self.config_path
    }
}

impl Provider for BookmarkProvider {
    open spec fn provider_name(&self) -> Seq<char> {
        "Bookmark"@
    }

    open spec fn offered(&self, query: Seq<char>) -> Seq<CandidateView> {
        bookmark_offered(bookmark_views(self.items()@), path_view(self.config_path()), query)
    }

    fn name(&self) -> (r: &'static str) {
        "Bookmark"
    }

    fn candidates(&self, query: &str) -> (r: Vec<Candidate>) {
        let q = trim(query);
        if q.as_str().is_empty() {
            assert(candidate_views(Seq::<Candidate>::empty()) =~= seq![]);
            return Vec::new();
        }
        let mut list = open_file_candidates("open bookmarks", "Open Bookmarks (設定ファイルを開く)", "Bookmark", &self.config_path, query);
        let ghost head = candidate_views(list@);
        let found = bookmarks::search(self.bookmarks.as_slice(), q.as_str());
        let ghost fv = bookmark_views(found@);
        let ghost f = |c: BookmarkView| bookmark_candidate(c);
        let n = found.len();
        let mut i: usize = 0;
        assert(head + fv.take(0).map_values(f) =~= head);
        while i < n
            invariant
                i <= n,
                n == found@.len(),
                fv == bookmark_views(found@),
                f == (|c: BookmarkView| bookmark_candidate(c)),
                candidate_views(list@) == head + fv.take(i as int).map_values(f),
            decreases n - i,
        {
            let c = &found[i];
            let cand = Candidate {
                label: concat2(c.name.as_str(), " を開く"),
                source: "Bookmark",
                action: Action::Open(c.url.clone()),
            };
            let ghost before = list@;
            list.push(cand);
            assert(candidate_views(list@) =~= candidate_views(before).push(cand@));
            assert(fv.take(i as int + 1) =~= fv.take(i as int).push(c@));
            assert(fv.take(i as int + 1).map_values(f) =~= fv.take(i as int).map_values(f).push(f(c@)));
            assert(head + fv.take(i as int + 1).map_values(f) =~= (head + fv.take(i as int).map_values(f)).push(f(c@)));
            i = i + 1;
        }
        assert(fv.take(n as int) =~= fv);
        list
    }
}

} // verus!
