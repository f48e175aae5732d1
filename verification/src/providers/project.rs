//! Offers the projects that match the query, to be opened in VS Code, and the project file itself.
use vstd::prelude::*;
use crate::projects::{self, Project, ProjectView, project_views, search_spec};
use crate::provider::{Action, ActionView, Candidate, CandidateView, Provider, candidate_views};
use crate::providers::config_file::{open_file_candidates, open_file_offered, path_view};
use crate::text::{concat2, trim, trim_spec};

verus! {

/// The label of the candidate that opens `projects.toml`.
pub open spec fn open_config_label() -> Seq<char> {
    "Open Projects (設定ファイルを開く)"@
}

/// The candidate offered for a project.
pub open spec fn project_candidate(c: ProjectView) -> CandidateView {
    CandidateView { label: c.name + " を VSCode で開く"@, source: "Project"@, action: ActionView::OpenInVscode(c.path) }
}

/// The candidates for a query: none for a blank query; else first the one
/// that opens `projects.toml` (when the query asks to open it and the file's path is
/// known), then one per project that `search` finds.
pub open spec fn project_offered(
    all: Seq<ProjectView>,
    config_path: Option<Seq<char>>,
    query: Seq<char>,
) -> Seq<CandidateView> {
    let q = trim_spec(query);
    if q.len() == 0 {
        seq![]
    } else {
        open_file_offered("open projects"@, open_config_label(), "Project"@, config_path, query) + search_spec(all, q).map_values(
            |c: ProjectView| project_candidate(c),
        )
    }
}

/// Offers the projects read from `projects.toml`, and that file.
pub struct ProjectProvider {
    projects: Vec<Project>,
    config_path: Option<String>,
}

impl ProjectProvider {
    /// A provider over the given projects; `config_path` is where `projects.toml`
    /// lives, when it is known.
    pub fn new(projects: Vec<Project>, config_path: Option<String>) -> (r: ProjectProvider)
        ensures
            project_views(r.items()@) == project_views(projects@),
            r.config_path() == config_path,
    {
        ProjectProvider { projects, config_path }
    }

    /// Replaces the projects with a freshly read list.
    pub fn reload(&mut self, projects: Vec<Project>)
        ensures
            project_views(final(self).items()@) == project_views(projects@),
            final(self).config_path() == old(self).config_path(),
    {
        self.projects = projects;
    }

    /// The projects searched.
    pub closed spec fn items(&self) -> Vec<Project> {
        self.projects
    }

    /// The path of `projects.toml`.
    pub closed spec fn config_path(&self) -> Option<String> {
        self.config_path
    }
}

impl Provider for ProjectProvider {
    open spec fn provider_name(&self) -> Seq<char> {
        "Project"@
    }

    open spec fn offered(&self, query: Seq<char>) -> Seq<CandidateView> {
        project_offered(project_views(self.items()@), path_view(self.config_path()), query)
    }

    fn name(&self) -> (r: &'static str) {
        "Project"
    }

    fn candidates(&self, query: &str) -> (r: Vec<Candidate>) {
        let q = trim(query);
        if q.as_str().is_empty() {
            assert(candidate_views(Seq::<Candidate>::empty()) =~= seq![]);
            return Vec::new();
        }
        let mut list = open_file_candidates("open projects", "Open Projects (設定ファイルを開く)", "Project", &self.config_path, query);
        let ghost head = candidate_views(list@);
        let found = projects::search(self.projects.as_slice(), q.as_str());
        let ghost fv = project_views(found@);
        let ghost f = |c: ProjectView| project_candidate(c);
        let n = found.len();
        let mut i: usize = 0;
        assert(head + fv.take(0).map_values(f) =~= head);
        while i < n
            invariant
                i <= n,
                n == found@.len(),
                fv == project_views(found@),
                f == (|c: ProjectView| project_candidate(c)),
                candidate_views(list@) == head + fv.take(i as int).map_values(f),
            decreases n - i,
        {
            let c = &found[i];
            let cand = Candidate {
                label: concat2(c.name.as_str(), " を VSCode で開く"),
                source: "Project",
                action: Action::OpenInVscode(c.path.clone()),
            };
            let ghost before = list@;
            list.push(cand);
            assert(candidate_views(list@) =~= candidate_views(before).push(cand@));
            assert(fv.take(i as int + 1) =~= fv.take(i as int).push(c@));
            assert(fv.take(i as int + 1).map_values(f) =~= fv.take(i as int).map_values(f).push(f(c@)));
            assert(head + fv.take(i as int + 1).map_values(f) =~= (head + fv.take(i as int).map_values(f)).push(f(c@)));
            i = i + 1;
        }
        assert(fv.take(n as int) =~= fv);
        list
    }
}

} // verus!
