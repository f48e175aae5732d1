//! Projects: named folders found by name or keyword.
use vstd::prelude::*;
use crate::matching::{clone_strings, entry_matches, entry_matches_exec, strs_view};
use crate::text::{has_substring, lowercase, query_key, query_key_chars};

verus! {

/// A project from `projects.toml`.
#[derive(Debug, Clone)]
pub struct Project {
    /// The name shown for the candidate.
    pub name: String,
    /// The project's folder.
    pub path: String,
    /// Other words that find it (may be empty).
    pub keywords: Vec<String>,
}

/// The value of a [`Project`].
pub struct ProjectView {
    pub name: Seq<char>,
    pub path: Seq<char>,
    pub keywords: Seq<Seq<char>>,
}

impl View for Project {
    type V = ProjectView;

    open spec fn view(&self) -> ProjectView {
        ProjectView { name: self.name@, path: self.path@, keywords: strs_view(self.keywords@) }
    }
}

/// The values of a list of projects.
pub open spec fn project_views(v: Seq<Project>) -> Seq<ProjectView> {
    v.map_values(|b: Project| b@)
}

/// Whether a project matches a query key.
pub open spec fn project_matches(key: Seq<char>) -> spec_fn(ProjectView) -> bool {
    |b: ProjectView| entry_matches(b.name, b.keywords, key)
}

/// The projects that `search` returns: none for a query that is blank once
/// trimmed and lower-cased, else those whose name or a keyword contains it,
/// ignoring case, in their order.
pub open spec fn search_spec(projects: Seq<ProjectView>, query: Seq<char>) -> Seq<ProjectView> {
    let key = query_key(query);
    if key.len() == 0 {
        seq![]
    } else {
        projects.filter(project_matches(key))
    }
}

impl Project {
    /// A copy of the project.
    pub fn duplicate(&self) -> (r: Project)
        ensures
            r@ == self@,
    {
        Project { name: self.name.clone(), path: self.path.clone(), keywords: clone_strings(&self.keywords) }
    }
}

/// The projects that match the query: those whose name or one of whose
/// keywords contains it, ignoring case and the query's surrounding white space.
pub fn search(projects: &[Project], query: &str) -> (r: Vec<Project>)
    ensures
        project_views(r@) == search_spec(project_views(projects@), query@),
{
    let key = query_key_chars(query);
    if key.len() == 0 {
        assert(project_views(Seq::<Project>::empty()) =~= seq![]);
        return Vec::new();
    }
    let ghost all = project_views(projects@);
    let ghost pred = project_matches(key@);
    let mut r: Vec<Project> = Vec::new();
    let n = projects.len();
    let mut i: usize = 0;
    assert(all.take(0) =~= seq![]);
    assert(project_views(r@) =~= seq![]);
    while i < n
        invariant
            i <= n,
            n == projects@.len(),
            all == project_views(projects@),
            pred == project_matches(key@),
            project_views(r@) == all.take(i as int).filter(pred),
        decreases n - i,
    {
        let b = &projects[i];
        let hit = entry_matches_exec(&b.name, &b.keywords, &key);
        proof {
            reveal_with_fuel(Seq::filter, 1);
            assert(all.take(i as int + 1).drop_last() =~= all.take(i as int));
            assert(all.take(i as int + 1).last() == b@);
        }
        if hit {
            let ghost before = r@;
            r.push(b.duplicate());
            assert(project_views(r@) =~= project_views(before).push(b@));
        }
        i = i + 1;
    }
    assert(all.take(n as int) =~= all);
    r
}

/// Searching ignores white space around the query: a trimmed query finds
/// the same projects.
pub proof fn law_search_ignores_surrounding_space(projects: Seq<ProjectView>, query: Seq<char>)
    ensures
        search_spec(projects, crate::text::trim_spec(query)) == search_spec(projects, query),
{
    crate::text::law_trim_idempotent(query);
}

/// A search ignores case and finds exactly the projects that match: for a
/// non-blank query, a project whose lower-cased name or one of whose lower-cased
/// keywords contains the lower-cased, trimmed query is found; and each project
/// found is one of the list and matches so.
pub proof fn law_search_finds_matches(projects: Seq<ProjectView>, query: Seq<char>, i: int)
    requires
        query_key(query).len() > 0,
    ensures
        0 <= i < projects.len() && (has_substring(lowercase(projects[i].name), query_key(query)) || exists|k: int|
            0 <= k < projects[i].keywords.len() && has_substring(lowercase(#[trigger] projects[i].keywords[k]), query_key(query)))
            ==> search_spec(projects, query).contains(projects[i]),
        forall|j: int|
            0 <= j < search_spec(projects, query).len() ==> projects.contains(#[trigger] search_spec(projects, query)[j]) && (
            has_substring(lowercase(search_spec(projects, query)[j].name), query_key(query)) || exists|k: int|
                0 <= k < search_spec(projects, query)[j].keywords.len() && has_substring(
                    lowercase(#[trigger] search_spec(projects, query)[j].keywords[k]),
                    query_key(query),
                )),
{
    broadcast use vstd::seq_lib::group_filter_ensures;
    let key = query_key(query);
    let pred = project_matches(key);
    if 0 <= i < projects.len() {
        if has_substring(lowercase(projects[i].name), key) || exists|k: int|
            0 <= k < projects[i].keywords.len() && has_substring(lowercase(#[trigger] projects[i].keywords[k]), key) {
            assert(pred(projects[i]));
            projects.lemma_filter_contains(pred, i);
        }
    }
    assert forall|j: int| 0 <= j < search_spec(projects, query).len() implies projects.contains(
        #[trigger] search_spec(projects, query)[j],
    ) by {
        let f = projects.filter(pred);
        assert(f.contains(f[j]));
        projects.lemma_filter_contains_rev(pred, f[j]);
    }
}

} // verus!
