//! Candidates, the actions they carry, and the providers that offer them.
use vstd::prelude::*;

verus! {

/// What happens when a candidate is run.
#[derive(Debug, Clone, PartialEq)]
pub enum Action {
    /// Open a URL or a file path with the default application.
    Open(String),
    /// Bring the given window to the front.
    FocusWindow(isize),
    /// Open the given path in VS Code.
    OpenInVscode(String),
    /// Copy the text to the clipboard.
    CopyToClipboard(String),
    /// Ask the language model (the UI handles it itself, since it is asynchronous).
    AskLlm(String),
    /// Run a shell command, after a confirmation dialog when `confirm` is set.
    RunCommand { command: String, confirm: bool },
    /// Add a TODO with the given text.
    AddTodo(String),
    /// Mark the TODO with the given id as done (remove it).
    CompleteTodo(u64),
}

/// The value of an [`Action`], with its strings as character sequences.
pub enum ActionView {
    Open(Seq<char>),
    FocusWindow(isize),
    OpenInVscode(Seq<char>),
    CopyToClipboard(Seq<char>),
    AskLlm(Seq<char>),
    RunCommand { command: Seq<char>, confirm: bool },
    AddTodo(Seq<char>),
    CompleteTodo(u64),
}

impl View for Action {
    type V = ActionView;

    open spec fn view(&self) -> ActionView {
        match self {
            Action::Open(s) => ActionView::Open(s@),
            Action::FocusWindow(h) => ActionView::FocusWindow(*h),
            Action::OpenInVscode(s) => ActionView::OpenInVscode(s@),
            Action::CopyToClipboard(s) => ActionView::CopyToClipboard(s@),
            Action::AskLlm(s) => ActionView::AskLlm(s@),
            Action::RunCommand { command, confirm } => ActionView::RunCommand {
                command: command@,
                confirm: *confirm,
            },
            Action::AddTodo(s) => ActionView::AddTodo(s@),
            Action::CompleteTodo(id) => ActionView::CompleteTodo(*id),
        }
    }
}

impl Action {
    /// A copy of the action.
    pub fn duplicate(&self) -> (r: Action)
        ensures
            r@ == self@,
    {
        match self {
            Action::Open(s) => Action::Open(s.clone()),
            Action::FocusWindow(h) => Action::FocusWindow(*h),
            Action::OpenInVscode(s) => Action::OpenInVscode(s.clone()),
            Action::CopyToClipboard(s) => Action::CopyToClipboard(s.clone()),
            Action::AskLlm(s) => Action::AskLlm(s.clone()),
            Action::RunCommand { command, confirm } => Action::RunCommand {
                command: command.clone(),
                confirm: *confirm,
            },
            Action::AddTodo(s) => Action::AddTodo(s.clone()),
            Action::CompleteTodo(id) => Action::CompleteTodo(*id),
        }
    }
}

/// One candidate in the result list.
#[derive(Debug, Clone, PartialEq)]
pub struct Candidate {
    /// The text shown for the candidate.
    pub label: String,
    /// The name of the provider that offered it.
    pub source: &'static str,
    /// What running it does.
    pub action: Action,
}

/// The value of a [`Candidate`].
pub struct CandidateView {
    pub label: Seq<char>,
    pub source: Seq<char>,
    pub action: ActionView,
}

impl View for Candidate {
    type V = CandidateView;

    open spec fn view(&self) -> CandidateView {
        CandidateView { label: self.label@, source: self.source@, action: self.action@ }
    }
}

impl Candidate {
    /// A copy of the candidate.
    pub fn duplicate(&self) -> (r: Candidate)
        ensures
            r@ == self@,
    {
        Candidate { label: self.label.clone(), source: self.source, action: self.action.duplicate() }
    }
}

/// The values of a list of candidates.
pub open spec fn candidate_views(v: Seq<Candidate>) -> Seq<CandidateView> {
    v.map_values(|c: Candidate| c@)
}

/// A source of candidates.
pub trait Provider {
    /// The provider's name, as the value of its `name`.
    spec fn provider_name(&self) -> Seq<char>;

    /// The candidates the provider offers for a query.
    spec fn offered(&self, query: Seq<char>) -> Seq<CandidateView>;

    /// The provider's name.
    fn name(&self) -> (r: &'static str)
        ensures
            r@ == self.provider_name(),
    ;

    /// The candidates for the query.
    fn candidates(&self, query: &str) -> (r: Vec<Candidate>)
        ensures
            candidate_views(r@) == self.offered(query@),
    ;
}

} // verus!
