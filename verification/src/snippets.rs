//! Snippets: named texts found by name or keyword.
use vstd::prelude::*;
use crate::matching::{clone_strings, entry_matches, entry_matches_exec, strs_view};
use crate::text::{has_substring, lowercase, query_key, query_key_chars};

verus! {

/// A snippet from `snippets.toml`.
#[derive(Debug, Clone)]
pub struct Snippet {
    /// The name shown for the candidate.
    pub name: String,
    /// The text copied to the clipboard when it is chosen.
    pub content: String,
    /// Other words that find it (may be empty).
    pub keywords: Vec<String>,
}

/// The value of a [`Snippet`].
pub struct SnippetView {
    pub name: Seq<char>,
    pub content: Seq<char>,
    pub keywords: Seq<Seq<char>>,
}

impl View for Snippet {
    type V = SnippetView;

    open spec fn view(&self) -> SnippetView {
        SnippetView { name: self.name@, content: self.content@, keywords: strs_view(self.keywords@) }
    }
}

/// The values of a list of snippets.
pub open spec fn snippet_views(v: Seq<Snippet>) -> Seq<SnippetView> {
    v.map_values(|b: Snippet| b@)
}

/// Whether a snippet matches a query key.
pub open spec fn snippet_matches(key: Seq<char>) -> spec_fn(SnippetView) -> bool {
    |b: SnippetView| entry_matches(b.name, b.keywords, key)
}

/// The snippets that `search` returns: none for a query that is blank once
/// trimmed and lower-cased, else those whose name or a keyword contains it,
/// ignoring case, in their order.
pub open spec fn search_spec(snippets: Seq<SnippetView>, query: Seq<char>) -> Seq<SnippetView> {
    let key = query_key(query);
    if key.len() == 0 {
        seq![]
    } else {
        snippets.filter(snippet_matches(key))
    }
}

impl Snippet {
    /// A copy of the snippet.
    pub fn duplicate(&self) -> (r: Snippet)
        ensures
            r@ == self@,
    {
        Snippet { name: self.name.clone(), content: self.content.clone(), keywords: clone_strings(&self.keywords) }
    }
}

/// The snippets that match the query: those whose name or one of whose
/// keywords contains it, ignoring case and the query's surrounding white space.
pub fn search(snippets: &[Snippet], query: &str) -> (r: Vec<Snippet>)
    ensures
        snippet_views(r@) == search_spec(snippet_views(snippets@), query@),
{
    let key = query_key_chars(query);
    if key.len() == 0 {
        assert(snippet_views(Seq::<Snippet>::empty()) =~= seq![]);
        return Vec::new();
    }
    let ghost all = snippet_views(snippets@);
    let ghost pred = snippet_matches(key@);
    let mut r: Vec<Snippet> = Vec::new();
    let n = snippets.len();
    let mut i: usize = 0;
    assert(all.take(0) =~= seq![]);
    assert(snippet_views(r@) =~= seq![]);
    while i < n
        invariant
            i <= n,
            n == snippets@.len(),
            all == snippet_views(snippets@),
            pred == snippet_matches(key@),
            snippet_views(r@) == all.take(i as int).filter(pred),
        decreases n - i,
    {
        let b = &snippets[i];
        let hit = entry_matches_exec(&b.name, &b.keywords, &key);
        proof {
            reveal_with_fuel(Seq::filter, 1);
            assert(all.take(i as int + 1).drop_last() =~= all.take(i as int));
            assert(all.take(i as int + 1).last() == b@);
        }
        if hit {
            let ghost before = r@;
            r.push(b.duplicate());
            assert(snippet_views(r@) =~= snippet_views(before).push(b@));
        }
        i = i + 1;
    }
    assert(all.take(n as int) =~= all);
    r
}

/// Searching ignores white space around the query: a trimmed query finds
/// the same snippets.
pub proof fn law_search_ignores_surrounding_space(snippets: Seq<SnippetView>, query: Seq<char>)
    ensures
        search_spec(snippets, crate::text::trim_spec(query)) == search_spec(snippets, query),
{
    crate::text::law_trim_idempotent(query);
}

/// A search ignores case and finds exactly the snippets that match: for a
/// non-blank query, a snippet whose lower-cased name or one of whose lower-cased
/// keywords contains the lower-cased, trimmed query is found; and each snippet
/// found is one of the list and matches so.
pub proof fn law_search_finds_matches(snippets: Seq<SnippetView>, query: Seq<char>, i: int)
    requires
        query_key(query).len() > 0,
    ensures
        0 <= i < snippets.len() && (has_substring(lowercase(snippets[i].name), query_key(query)) || exists|k: int|
            0 <= k < snippets[i].keywords.len() && has_substring(lowercase(#[trigger] snippets[i].keywords[k]), query_key(query)))
            ==> search_spec(snippets, query).contains(snippets[i]),
        forall|j: int|
            0 <= j < search_spec(snippets, query).len() ==> snippets.contains(#[trigger] search_spec(snippets, query)[j]) && (
            has_substring(lowercase(search_spec(snippets, query)[j].name), query_key(query)) || exists|k: int|
                0 <= k < search_spec(snippets, query)[j].keywords.len() && has_substring(
                    lowercase(#[trigger] search_spec(snippets, query)[j].keywords[k]),
                    query_key(query),
                )),
{
    broadcast use vstd::seq_lib::group_filter_ensures;
    let key = query_key(query);
    let pred = snippet_matches(key);
    if 0 <= i < snippets.len() {
        if has_substring(lowercase(snippets[i].name), key) || exists|k: int|
            0 <= k < snippets[i].keywords.len() && has_substring(lowercase(#[trigger] snippets[i].keywords[k]), key) {
            assert(pred(snippets[i]));
            snippets.lemma_filter_contains(pred, i);
        }
    }
    assert forall|j: int| 0 <= j < search_spec(snippets, query).len() implies snippets.contains(
        #[trigger] search_spec(snippets, query)[j],
    ) by {
        let f = snippets.filter(pred);
        assert(f.contains(f[j]));
        snippets.lemma_filter_contains_rev(pred, f[j]);
    }
}

} // verus!
