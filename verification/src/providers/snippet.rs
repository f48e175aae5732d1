//! Offers the snippets that match the query, to be copied, and the snippet file itself.
use vstd::prelude::*;
use crate::snippets::{self, Snippet, SnippetView, snippet_views, search_spec};
use crate::provider::{Action, ActionView, Candidate, CandidateView, Provider, candidate_views};
use crate::providers::config_file::{open_file_candidates, open_file_offered, path_view};
use crate::text::{concat2, trim, trim_spec};

verus! {

/// The label of the candidate that opens `snippets.toml`.
pub open spec fn open_config_label() -> Seq<char> {
    "Open Snippets (設定ファイルを開く)"@
}

/// The candidate offered for a snippet.
pub open spec fn snippet_candidate(c: SnippetView) -> CandidateView {
    CandidateView { label: c.name + " をコピー"@, source: "Snippet"@, action: ActionView::CopyToClipboard(c.content) }
}

/// The candidates for a query: none for a blank query; else first the one
/// that opens `snippets.toml` (when the query asks to open it and the file's path is
/// known), then one per snippet that `search` finds.
pub open spec fn snippet_offered(
    all: Seq<SnippetView>,
    config_path: Option<Seq<char>>,
    query: Seq<char>,
) -> Seq<CandidateView> {
    let q = trim_spec(query);
    if q.len() == 0 {
        seq![]
    } else {
        open_file_offered("open snippets"@, open_config_label(), "Snippet"@, config_path, query) + search_spec(all, q).map_values(
            |c: SnippetView| snippet_candidate(c),
        )
    }
}

/// Offers the snippets read from `snippets.toml`, and that file.
pub struct SnippetProvider {
    snippets: Vec<Snippet>,
    config_path: Option<String>,
}

impl SnippetProvider {
    /// A provider over the given snippets; `config_path` is where `snippets.toml`
    /// lives, when it is known.
    pub fn new(snippets: Vec<Snippet>, config_path: Option<String>) -> (r: SnippetProvider)
        ensures
            snippet_views(r.items()@) == snippet_views(snippets@),
            r.config_path() == config_path,
    {
        SnippetProvider { snippets, config_path }
    }

    /// Replaces the snippets with a freshly read list.
    pub fn reload(&mut self, snippets: Vec<Snippet>)
        ensures
            snippet_views(final(self).items()@) == snippet_views(snippets@),
            final(self).config_path() == old(self).config_path(),
    {
        self.snippets = snippets;
    }

    /// The snippets searched.
    pub closed spec fn items(&self) -> Vec<Snippet> {
        self.snippets
    }

    /// The path of `snippets.toml`.
    pub closed spec fn config_path(&self) -> Option<String> {
        self.config_path
    }
}

impl Provider for SnippetProvider {
    open spec fn provider_name(&self) -> Seq<char> {
        "Snippet"@
    }

    open spec fn offered(&self, query: Seq<char>) -> Seq<CandidateView> {
        snippet_offered(snippet_views(self.items()@), path_view(self.config_path()), query)
    }

    fn name(&self) -> (r: &'static str) {
        "Snippet"
    }

    fn candidates(&self, query: &str) -> (r: Vec<Candidate>) {
        let q = trim(query);
        if q.as_str().is_empty() {
            assert(candidate_views(Seq::<Candidate>::empty()) =~= seq![]);
            return Vec::new();
        }
        let mut list = open_file_candidates("open snippets", "Open Snippets (設定ファイルを開く)", "Snippet", &self.config_path, query);
        let ghost head = candidate_views(list@);
        let found = snippets::search(self.snippets.as_slice(), q.as_str());
        let ghost fv = snippet_views(found@);
        let ghost f = |c: SnippetView| snippet_candidate(c);
        let n = found.len();
        let mut i: usize = 0;
        assert(head + fv.take(0).map_values(f) =~= head);
        while i < n
            invariant
                i <= n,
                n == found@.len(),
                fv == snippet_views(found@),
                f == (|c: SnippetView| snippet_candidate(c)),
                candidate_views(list@) == head + fv.take(i as int).map_values(f),
            decreases n - i,
        {
            let c = &found[i];
            let cand = Candidate {
                label: concat2(c.name.as_str(), " をコピー"),
                source: "Snippet",
                action: Action::CopyToClipboard(c.content.clone()),
            };
            let ghost before = list@;
            list.push(cand);
            assert(candidate_views(list@) =~= candidate_views(before).push(cand@));
            assert(fv.take(i as int + 1) =~= fv.take(i as int).push(c@));
            assert(fv.take(i as int + 1).map_values(f) =~= fv.take(i as int).map_values(f).push(f(c@)));
            assert(head + fv.take(i as int + 1).map_values(f) =~= (head + fv.take(i as int).map_values(f)).push(f(c@)));
            i = i + 1;
        }
        assert(fv.take(n as int) =~= fv);
        list
    }
}

} // verus!
