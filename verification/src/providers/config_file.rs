//! The candidate that opens a provider's configuration file.
use vstd::prelude::*;
use crate::provider::{Action, ActionView, Candidate, CandidateView, candidate_views};
use crate::text::{
    chars_of, contains_str, has_substring, lowercase, lowercase_chars, owned, query_key, query_key_chars, starts_with,
    starts_with_chars, trim, trim_spec,
};

verus! {

/// Whether the candidate that opens a configuration file is offered for a
/// query: always for a blank query, else when `phrase` (such as "open
/// bookmarks") or "config" contains the lower-cased, trimmed query.
pub open spec fn shows_config_file(phrase: Seq<char>, query: Seq<char>) -> bool {
    let q = trim_spec(query);
    q.len() == 0 || has_substring(phrase, lowercase(q)) || has_substring("config"@, lowercase(q))
}

/// The candidates that open a configuration file: one that opens `path` with
/// `label`, when the path is known and the query shows it; else none.
pub open spec fn config_file_offered(
    phrase: Seq<char>,
    label: Seq<char>,
    source: Seq<char>,
    path: Option<Seq<char>>,
    query: Seq<char>,
) -> Seq<CandidateView> {
    match path {
        Some(p) if shows_config_file(phrase, query) => seq![
            CandidateView { label, source, action: ActionView::Open(p) },
        ],
        _ => seq![],
    }
}

/// The characters of an optional path.
pub open spec fn path_view(path: Option<String>) -> Option<Seq<char>> {
    match path {
        Some(p) => Some(p@),
        None => None,
    }
}

/// The candidate that opens the configuration file at `path`, when the query shows it.
pub fn config_file_candidates(
    phrase: &str,
    label: &str,
    source: &'static str,
    path: &Option<String>,
    query: &str,
) -> (r: Vec<Candidate>)
    ensures
        candidate_views(r@) == config_file_offered(phrase@, label@, source@, path_view(*path), query@),
{
    let q = trim(query);
    let show = if q.as_str().is_empty() {
        true
    } else {
        let ql = lowercase_chars(q.as_str());
        contains_str(phrase, &ql) || contains_str("config", &ql)
    };
    let mut list: Vec<Candidate> = Vec::new();
    if show {
        match path {
            Some(p) => {
                list.push(Candidate { label: owned(label), source, action: Action::Open(p.clone()) });
            },
            None => {},
        }
    }
    assert(candidate_views(list@) =~= config_file_offered(phrase@, label@, source@, path_view(*path), query@));
    list
}

/// Whether a query asks to open a data file named by `phrase` (such as "open
/// bookmarks"): its lower-cased, trimmed form starts with "open" and is how
/// `phrase` starts. Typing "open" asks for every data file; "open b" only
/// for the bookmarks.
pub open spec fn asks_to_open(phrase: Seq<char>, query: Seq<char>) -> bool {
    let k = query_key(query);
    starts_with(k, "open"@) && starts_with(phrase, k)
}

/// The candidates that open a data file: one that opens `path` with `label`,
/// when the path is known and the query asks to open it; else none.
pub open spec fn open_file_offered(
    phrase: Seq<char>,
    label: Seq<char>,
    source: Seq<char>,
    path: Option<Seq<char>>,
    query: Seq<char>,
) -> Seq<CandidateView> {
    match path {
        Some(p) if asks_to_open(phrase, query) => seq![
            CandidateView { label, source, action: ActionView::Open(p) },
        ],
        _ => seq![],
    }
}

/// The candidate that opens the data file at `path`, when the query asks to open it.
pub fn open_file_candidates(
    phrase: &str,
    label: &str,
    source: &'static str,
    path: &Option<String>,
    query: &str,
) -> (r: Vec<Candidate>)
    ensures
        candidate_views(r@) == open_file_offered(phrase@, label@, source@, path_view(*path), query@),
{
    let k = query_key_chars(query);
    let open = chars_of("open");
    let ph = chars_of(phrase);
    let asks = starts_with_chars(&k, &open) && starts_with_chars(&ph, &k);
    let mut list: Vec<Candidate> = Vec::new();
    if asks {
        match path {
            Some(p) => {
                list.push(Candidate { label: owned(label), source, action: Action::Open(p.clone()) });
            },
            None => {},
        }
    }
    assert(candidate_views(list@) =~= open_file_offered(phrase@, label@, source@, path_view(*path), query@));
    list
}

} // verus!
