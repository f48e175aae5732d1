//! The launcher: every provider in its place, the candidates the enabled ones
//! offer, and the decisions of the window (what each key, hotkey press and
//! Escape does to the search state).
use vstd::prelude::*;
use crate::config::Providers;
use crate::provider::{Action, ActionView, Candidate, CandidateView, Provider, candidate_views};
use crate::providers::app_launcher::AppLauncherProvider;
use crate::providers::bookmark::BookmarkProvider;
use crate::providers::clipboard::ClipboardProvider;
use crate::providers::command::CommandProvider;
use crate::providers::llm::LlmProvider;
use crate::providers::project::ProjectProvider;
use crate::providers::snippet::SnippetProvider;
use crate::providers::todo::TodoProvider;
use crate::providers::websearch::WebSearchProvider;
use crate::providers::window::WindowProvider;
use crate::text::str_eq;

verus! {

// ---------------------------------------------------------------------------
// Candidates
// ---------------------------------------------------------------------------

/// Every provider, in the order their candidates are listed: asking the model
/// first, the clipboard history (up to thirty entries) last.
pub struct Launcher {
    pub llm: LlmProvider,
    pub todo: TodoProvider,
    pub window: WindowProvider,
    pub project: ProjectProvider,
    pub bookmark: BookmarkProvider,
    pub snippet: SnippetProvider,
    pub command: CommandProvider,
    pub app: AppLauncherProvider,
    pub websearch: WebSearchProvider,
    pub clipboard: ClipboardProvider,
}

/// What an enabled provider contributes: its candidates, or nothing when off.
pub open spec fn part(on: bool, offered: Seq<CandidateView>) -> Seq<CandidateView> {
    if on {
        offered
    } else {
        seq![]
    }
}

/// The candidates listed for a query: those of each enabled provider, in the
/// providers' order.
pub open spec fn listed(l: Launcher, enabled: Providers, q: Seq<char>) -> Seq<CandidateView> {
    part(enabled.llm, l.llm.offered(q)) + part(enabled.todo, l.todo.offered(q)) + part(
        enabled.window,
        l.window.offered(q),
    ) + part(enabled.project, l.project.offered(q)) + part(enabled.bookmark, l.bookmark.offered(q))
        + part(enabled.snippet, l.snippet.offered(q)) + part(enabled.command, l.command.offered(q))
        + part(enabled.app, l.app.offered(q)) + part(enabled.websearch, l.websearch.offered(q))
        + part(enabled.clipboard, l.clipboard.offered(q))
}

fn append_part(out: &mut Vec<Candidate>, on: bool, more: Vec<Candidate>)
    ensures
        candidate_views(final(out)@) == candidate_views(old(out)@) + part(on, candidate_views(more@)),
{
    if !on {
        assert(candidate_views(out@) =~= candidate_views(out@) + Seq::<CandidateView>::empty());
        return;
    }
    let ghost start = candidate_views(out@);
    let ghost mv = candidate_views(more@);
    let mut more = more;
    let mut rest: Vec<Candidate> = Vec::new();
    // Move the candidates over in order.
    let n = more.len();
    let mut i: usize = 0;
    assert(mv.take(0) =~= seq![]);
    assert(start + mv.take(0) =~= start);
    while i < n
        invariant
            i <= n,
            n == more@.len(),
            mv == candidate_views(more@),
            candidate_views(out@) == start + mv.take(i as int),
        decreases n - i,
    {
        let c = more[i].duplicate();
        let ghost before = out@;
        out.push(c);
        assert(candidate_views(out@) =~= candidate_views(before).push(c@));
        assert(mv.take(i as int + 1) =~= mv.take(i as int).push(c@));
        assert(start + mv.take(i as int + 1) =~= (start + mv.take(i as int)).push(c@));
        i = i + 1;
    }
    assert(mv.take(n as int) =~= mv);
}

impl Launcher {
    /// The candidates for a query from the enabled providers, in order.
    pub fn candidates(&self, query: &str, enabled: &Providers) -> (r: Vec<Candidate>)
        ensures
            candidate_views(r@) == listed(*self, *enabled, query@),
    {
        let mut out: Vec<Candidate> = Vec::new();
        assert(candidate_views(out@) =~= seq![]);
        append_part(&mut out, enabled.llm, if enabled.llm { self.llm.candidates(query) } else { Vec::new() });
        append_part(&mut out, enabled.todo, if enabled.todo { self.todo.candidates(query) } else { Vec::new() });
        append_part(&mut out, enabled.window, if enabled.window { self.window.candidates(query) } else { Vec::new() });
        append_part(&mut out, enabled.project, if enabled.project { self.project.candidates(query) } else { Vec::new() });
        append_part(&mut out, enabled.bookmark, if enabled.bookmark { self.bookmark.candidates(query) } else { Vec::new() });
        append_part(&mut out, enabled.snippet, if enabled.snippet { self.snippet.candidates(query) } else { Vec::new() });
        append_part(&mut out, enabled.command, if enabled.command { self.command.candidates(query) } else { Vec::new() });
        append_part(&mut out, enabled.app, if enabled.app { self.app.candidates(query) } else { Vec::new() });
        append_part(&mut out, enabled.websearch, if enabled.websearch { self.websearch.candidates(query) } else { Vec::new() });
        append_part(&mut out, enabled.clipboard, if enabled.clipboard { self.clipboard.candidates(query) } else { Vec::new() });
        assert(seq![] + part(enabled.llm, self.llm.offered(query@)) =~= part(enabled.llm, self.llm.offered(query@)));
        out
    }
}

proof fn lemma_first_kept(x: Seq<CandidateView>, y: Seq<CandidateView>)
    requires
        x.len() > 0,
    ensures
        (x + y).len() > 0,
        (x + y)[0] == x[0],
{
}

/// With the model's provider on, a non-blank query lists the question to the
/// model first.
#[verifier::rlimit(50)]
pub proof fn law_question_listed_first(l: Launcher, enabled: Providers, q: Seq<char>)
    requires
        enabled.llm,
        crate::text::trim_spec(q).len() > 0,
    ensures
        listed(l, enabled, q).len() > 0,
        listed(l, enabled, q)[0] == (CandidateView {
            label: "AI に「"@ + crate::text::trim_spec(q) + "」を聞く"@,
            source: "AI"@,
            action: ActionView::AskLlm(crate::text::trim_spec(q)),
        }),
{
    let s0 = part(enabled.llm, l.llm.offered(q));
    assert(s0.len() == 1);
    let s1 = s0 + part(enabled.todo, l.todo.offered(q));
    lemma_first_kept(s0, part(enabled.todo, l.todo.offered(q)));
    let s2 = s1 + part(enabled.window, l.window.offered(q));
    lemma_first_kept(s1, part(enabled.window, l.window.offered(q)));
    let s3 = s2 + part(enabled.project, l.project.offered(q));
    lemma_first_kept(s2, part(enabled.project, l.project.offered(q)));
    let s4 = s3 + part(enabled.bookmark, l.bookmark.offered(q));
    lemma_first_kept(s3, part(enabled.bookmark, l.bookmark.offered(q)));
    let s5 = s4 + part(enabled.snippet, l.snippet.offered(q));
    lemma_first_kept(s4, part(enabled.snippet, l.snippet.offered(q)));
    let s6 = s5 + part(enabled.command, l.command.offered(q));
    lemma_first_kept(s5, part(enabled.command, l.command.offered(q)));
    let s7 = s6 + part(enabled.app, l.app.offered(q));
    lemma_first_kept(s6, part(enabled.app, l.app.offered(q)));
    let s8 = s7 + part(enabled.websearch, l.websearch.offered(q));
    lemma_first_kept(s7, part(enabled.websearch, l.websearch.offered(q)));
    lemma_first_kept(s8, part(enabled.clipboard, l.clipboard.offered(q)));
}

// ---------------------------------------------------------------------------
// The window's state
// ---------------------------------------------------------------------------

/// The screen shown.
#[derive(Debug, Clone, Copy, PartialEq, Eq, Structural)]
pub enum Screen {
    Search,
    Settings,
    LlmAnswer,
}

/// Where a question to the model stands.
#[derive(Debug, Clone, PartialEq)]
pub enum LlmAnswerState {
    Idle,
    /// Being answered; `partial` is the answer so far.
    Loading { question: String, partial: String },
    Done { question: String, answer: String },
    Error { question: String, message: String },
}

impl LlmAnswerState {
    /// Whether an answer is being generated.
    pub open spec fn is_loading(&self) -> bool {
        self is Loading
    }

    /// The question, as characters (empty when idle).
    pub open spec fn question_view(&self) -> Seq<char> {
        match self {
            LlmAnswerState::Idle => seq![],
            LlmAnswerState::Loading { question, .. } => question@,
            LlmAnswerState::Done { question, .. } => question@,
            LlmAnswerState::Error { question, .. } => question@,
        }
    }

    /// The question asked (empty when idle).
    pub fn question(&self) -> (r: String)
        ensures
            r@ == self.question_view(),
    {
        match self {
            LlmAnswerState::Idle => String::new(),
            LlmAnswerState::Loading { question, .. } => question.clone(),
            LlmAnswerState::Done { question, .. } => question.clone(),
            LlmAnswerState::Error { question, .. } => question.clone(),
        }
    }

    /// Whether an answer is being generated.
    pub fn loading(&self) -> (r: bool)
        ensures
            r == self.is_loading(),
    {
        match self {
            LlmAnswerState::Loading { .. } => true,
            _ => false,
        }
    }
}

/// The state of the search window.
pub struct UiState {
    pub view: Screen,
    pub query: String,
    /// The index of the highlighted candidate.
    pub selected: usize,
    pub llm_answer: LlmAnswerState,
}

/// The state when the window is summoned: the search screen, an empty query,
/// the first candidate highlighted, no question.
pub open spec fn is_fresh(s: UiState) -> bool {
    &&& s.view == Screen::Search
    &&& s.query@ == Seq::<char>::empty()
    &&& s.selected == 0
    &&& s.llm_answer is Idle
}

/// A key, as the search box reports it.
pub enum Key {
    Character(String),
    ArrowDown,
    ArrowUp,
    Enter,
    Other,
}

/// What the application has to do after a key.
pub enum KeyOutcome {
    /// Nothing.
    Nothing,
    /// The settings screen was opened (the key's default is prevented).
    OpenedSettings,
    /// Clear the clipboard history and say so.
    ClearClipboard,
    /// The highlight moved (the key's default is prevented).
    Moved,
    /// Ask the model this question (the answer screen is shown, loading).
    Ask(String),
    /// Add a TODO with this text, and save the list.
    AddTodo(String),
    /// Complete the TODO with this id, and save the list.
    CompleteTodo(u64),
    /// Run this action, and hide the window.
    Run(Action),
}

/// What the application does with the window after a hotkey press.
#[derive(Debug, Clone, Copy, PartialEq, Eq, Structural)]
pub enum HotkeyOutcome {
    /// Hide the window.
    Hide,
    /// Reload the providers and show the window, focused.
    ShowAndReload,
}

/// What Escape does.
#[derive(Debug, Clone, Copy, PartialEq, Eq, Structural)]
pub enum EscapeOutcome {
    /// Nothing: an answer is being generated.
    Stay,
    /// Back to the search screen.
    BackToSearch,
    /// Hide the window.
    Hide,
}

/// The index after moving down one place in a list of `len`, wrapping.
pub open spec fn next_index(selected: nat, len: nat) -> nat
    recommends
        len > 0,
{
    (((selected + 1) as int) % (len as int)) as nat
}

/// The index after moving up one place in a list of `len`, wrapping.
pub open spec fn prev_index(selected: nat, len: nat) -> nat
    recommends
        len > 0,
{
    (((selected + len - 1) as int) % (len as int)) as nat
}

/// Whether a key press is a shortcut: the key is the character `c` (in
/// either ASCII case) with Ctrl held.
pub open spec fn is_char_key(key: Key, lower: char, upper: char) -> bool {
    key matches Key::Character(s) && (s@ == seq![lower] || s@ == seq![upper])
}

impl UiState {
    /// The state at start-up.
    pub fn new() -> (r: UiState)
        ensures
            is_fresh(r),
    {
        UiState { view: Screen::Search, query: String::new(), selected: 0, llm_answer: LlmAnswerState::Idle }
    }

    /// Resets the state for a fresh summon of the window.
    pub fn summon(&mut self)
        ensures
            is_fresh(*final(self)),
    {
        self.query = String::new();
        self.selected = 0;
        self.view = Screen::Search;
        self.llm_answer = LlmAnswerState::Idle;
    }

    /// The global hotkey: hides a visible window; else resets the state and
    /// shows it.
    pub fn on_hotkey(&mut self, visible: bool) -> (r: HotkeyOutcome)
        ensures
            visible ==> r == HotkeyOutcome::Hide && *final(self) == *old(self),
            !visible ==> r == HotkeyOutcome::ShowAndReload && is_fresh(*final(self)),
    {
        if visible {
            HotkeyOutcome::Hide
        } else {
            self.summon();
            HotkeyOutcome::ShowAndReload
        }
    }

    /// Escape: nothing while an answer is being generated on the answer
    /// screen; back to the search screen from the settings or the answer; else
    /// hide the window.
    pub fn on_escape(&mut self) -> (r: EscapeOutcome)
        ensures
            old(self).view == Screen::LlmAnswer && old(self).llm_answer.is_loading() ==> r == EscapeOutcome::Stay
                && *final(self) == *old(self),
            !(old(self).view == Screen::LlmAnswer && old(self).llm_answer.is_loading()) && (old(self).view
                == Screen::Settings || old(self).view == Screen::LlmAnswer) ==> r == EscapeOutcome::BackToSearch
                && *final(self) == (UiState { view: Screen::Search, ..*old(self) }),
            old(self).view == Screen::Search ==> r == EscapeOutcome::Hide && *final(self) == *old(self),
    {
        if self.view == Screen::LlmAnswer && self.llm_answer.loading() {
            EscapeOutcome::Stay
        } else if self.view == Screen::Settings || self.view == Screen::LlmAnswer {
            self.view = Screen::Search;
            EscapeOutcome::BackToSearch
        } else {
            EscapeOutcome::Hide
        }
    }

    /// Whether losing the focus hides the window: not while an answer is
    /// being generated.
    pub fn hides_on_focus_loss(&self) -> (r: bool)
        ensures
            r == !self.llm_answer.is_loading(),
    {
        !self.llm_answer.loading()
    }

    /// The query was edited: it takes the new text and the first candidate
    /// is highlighted.
    pub fn on_input(&mut self, text: String)
        ensures
            final(self).query@ == text@,
            final(self).selected == 0,
            final(self).view == old(self).view,
            final(self).llm_answer == old(self).llm_answer,
    {
        self.query = text;
        self.selected = 0;
    }

    /// Starts asking the model: the answer screen, loading, with no answer yet.
    pub fn start_question(&mut self, question: String)
        ensures
            final(self).view == Screen::LlmAnswer,
            final(self).llm_answer matches LlmAnswerState::Loading { question: q, partial: p } && q@ == question@
                && p@ == Seq::<char>::empty(),
            final(self).query == old(self).query,
            final(self).selected == old(self).selected,
    {
        self.llm_answer = LlmAnswerState::Loading { question, partial: String::new() };
        self.view = Screen::LlmAnswer;
    }

    /// Part of the answer has arrived for `question`: the answer state is
    /// loading with that partial answer; the rest of the state stays.
    pub fn on_answer_progress(&mut self, question: String, partial: String)
        ensures
            final(self).llm_answer matches LlmAnswerState::Loading { question: q, partial: p } && q@ == question@
                && p@ == partial@,
            final(self).view == old(self).view,
            final(self).query == old(self).query,
            final(self).selected == old(self).selected,
    {
        self.llm_answer = LlmAnswerState::Loading { question, partial };
    }

    /// The request for `question` has ended: done with the answer, or an
    /// error with its message; the rest of the state stays.
    pub fn on_answer_result(&mut self, question: String, result: Result<String, String>)
        ensures
            match result {
                Ok(a) => final(self).llm_answer matches LlmAnswerState::Done { question: q, answer: x } && q@
                    == question@ && x@ == a@,
                Err(m) => final(self).llm_answer matches LlmAnswerState::Error { question: q, message: x } && q@
                    == question@ && x@ == m@,
            },
            final(self).view == old(self).view,
            final(self).query == old(self).query,
            final(self).selected == old(self).selected,
    {
        self.llm_answer = match result {
            Ok(answer) => LlmAnswerState::Done { question, answer },
            Err(message) => LlmAnswerState::Error { question, message },
        };
    }

    /// A key in the search box. Ctrl+`,` opens the settings; Ctrl+Shift+K
    /// clears the clipboard history; with candidates listed, the arrows move
    /// the highlight round the list and Enter runs the highlighted candidate
    /// (asking the model, adding or completing a TODO, or running its action
    /// and hiding the window), clearing the query.
    pub fn on_key(&mut self, key: Key, ctrl: bool, shift: bool, candidates: &[Candidate]) -> (r: KeyOutcome)
        requires
            key is ArrowDown && candidates@.len() > 0 ==> old(self).selected < usize::MAX,
            key is ArrowUp && candidates@.len() > 0 ==> old(self).selected + candidates@.len() <= usize::MAX,
        ensures
            ({
                let s0 = *old(self);
                let s1 = *final(self);
                let len = candidates@.len();
                if ctrl && is_char_key(key, ',', ',') {
                    r is OpenedSettings && s1 == (UiState { view: Screen::Settings, ..s0 })
                } else if ctrl && shift && is_char_key(key, 'k', 'K') {
                    r is ClearClipboard && s1 == s0
                } else if len == 0 {
                    r is Nothing && s1 == s0
                } else {
                    match key {
                        Key::ArrowDown => r is Moved && s1 == (UiState {
                            selected: next_index(s0.selected as nat, len) as usize,
                            ..s0
                        }),
                        Key::ArrowUp => r is Moved && s1 == (UiState {
                            selected: prev_index(s0.selected as nat, len) as usize,
                            ..s0
                        }),
                        Key::Enter => if s0.selected < len {
                            let a = candidates@[s0.selected as int].action@;
                            &&& s1.query@ == Seq::<char>::empty()
                            &&& s1.selected == 0
                            &&& match a {
                                ActionView::AskLlm(p) => {
                                    &&& r matches KeyOutcome::Ask(q) && q@ == p
                                    &&& s1.view == Screen::LlmAnswer
                                    &&& s1.llm_answer matches LlmAnswerState::Loading { question: q, partial: pp }
                                        && q@ == p && pp@ == Seq::<char>::empty()
                                },
                                ActionView::AddTodo(t) => {
                                    &&& r matches KeyOutcome::AddTodo(x) && x@ == t
                                    &&& s1.view == s0.view && s1.llm_answer == s0.llm_answer
                                },
                                ActionView::CompleteTodo(id) => {
                                    &&& r == KeyOutcome::CompleteTodo(id)
                                    &&& s1.view == s0.view && s1.llm_answer == s0.llm_answer
                                },
                                _ => {
                                    &&& r matches KeyOutcome::Run(x) && x@ == a
                                    &&& s1.view == s0.view && s1.llm_answer == s0.llm_answer
                                },
                            }
                        } else {
                            r is Nothing && s1 == s0
                        },
                        _ => r is Nothing && s1 == s0,
                    }
                }
            }),
    {
        let is_comma = match &key {
            Key::Character(s) => str_eq(s.as_str(), ","),
            _ => false,
        };
        proof {
            reveal_strlit(",");
            reveal_strlit("k");
            reveal_strlit("K");
            assert(","@ =~= seq![',']);
            assert("k"@ =~= seq!['k']);
            assert("K"@ =~= seq!['K']);
        }
        assert(is_comma == is_char_key(key, ',', ','));
        if ctrl && is_comma {
            self.view = Screen::Settings;
            return KeyOutcome::OpenedSettings;
        }
        let is_k = match &key {
            Key::Character(s) => str_eq(s.as_str(), "k") || str_eq(s.as_str(), "K"),
            _ => false,
        };
        assert(is_k == is_char_key(key, 'k', 'K'));
        if ctrl && shift && is_k {
            return KeyOutcome::ClearClipboard;
        }
        let len = candidates.len();
        if len == 0 {
            return KeyOutcome::Nothing;
        }
        match key {
            Key::ArrowDown => {
                self.selected = (self.selected + 1) % len;
                KeyOutcome::Moved
            },
            Key::ArrowUp => {
                self.selected = (self.selected + len - 1) % len;
                KeyOutcome::Moved
            },
            Key::Enter => {
                if self.selected >= len {
                    return KeyOutcome::Nothing;
                }
                let action = candidates[self.selected].action.duplicate();
                self.query = String::new();
                self.selected = 0;
                match action {
                    Action::AskLlm(prompt) => {
                        self.start_question(prompt.clone());
                        KeyOutcome::Ask(prompt)
                    },
                    Action::AddTodo(text) => KeyOutcome::AddTodo(text),
                    Action::CompleteTodo(id) => KeyOutcome::CompleteTodo(id),
                    other => KeyOutcome::Run(other),
                }
            },
            _ => KeyOutcome::Nothing,
        }
    }
}

/// Moving down and then up again comes back to the same candidate.
pub proof fn law_down_then_up(selected: nat, len: nat)
    requires
        selected < len,
    ensures
        prev_index(next_index(selected, len), len) == selected,
{
    if selected + 1 < len {
        vstd::arithmetic::div_mod::lemma_small_mod((selected + 1) as nat, len);
        vstd::arithmetic::div_mod::lemma_mod_add_multiples_vanish(selected as int, len as int);
        vstd::arithmetic::div_mod::lemma_small_mod(selected, len);
    } else {
        vstd::arithmetic::div_mod::lemma_mod_self_0(len as int);
        vstd::arithmetic::div_mod::lemma_small_mod((len - 1) as nat, len);
    }
}

/// Moving up and then down again comes back to the same candidate.
pub proof fn law_up_then_down(selected: nat, len: nat)
    requires
        selected < len,
    ensures
        next_index(prev_index(selected, len), len) == selected,
{
    if selected > 0 {
        vstd::arithmetic::div_mod::lemma_mod_add_multiples_vanish(selected - 1, len as int);
        vstd::arithmetic::div_mod::lemma_small_mod((selected - 1) as nat, len);
        vstd::arithmetic::div_mod::lemma_small_mod(selected, len);
    } else {
        vstd::arithmetic::div_mod::lemma_small_mod((len - 1) as nat, len);
        vstd::arithmetic::div_mod::lemma_mod_self_0(len as int);
    }
}

/// The highlight stays inside the list: moving either way gives an index
/// of the list.
pub proof fn law_moves_stay_in_list(selected: nat, len: nat)
    requires
        len > 0,
    ensures
        next_index(selected, len) < len,
        prev_index(selected, len) < len,
{
    vstd::arithmetic::div_mod::lemma_mod_bound((selected + 1) as int, len as int);
    vstd::arithmetic::div_mod::lemma_mod_bound((selected + len - 1) as int, len as int);
}

// ---------------------------------------------------------------------------
// Placement
// ---------------------------------------------------------------------------

/// Rust's `/ 2` on an `i32`, which rounds toward zero.
pub open spec fn half_toward_zero(d: int) -> int {
    if d >= 0 {
        d / 2
    } else {
        -((-d) / 2)
    }
}

/// The position that centers a window of the given size on a monitor: half
/// the difference of the sizes, each size taken as an `i32` (as `as` casts
/// it); the difference must fit in an `i32`.
pub fn center_position(monitor_width: u32, monitor_height: u32, window_width: u32, window_height: u32) -> (r: (i32, i32))
    requires
        i32::MIN <= (monitor_width as i32) - (window_width as i32) <= i32::MAX,
        i32::MIN <= (monitor_height as i32) - (window_height as i32) <= i32::MAX,
    ensures
        r.0 == half_toward_zero((monitor_width as i32) - (window_width as i32)),
        r.1 == half_toward_zero((monitor_height as i32) - (window_height as i32)),
{
    let dx = monitor_width as i32 - window_width as i32;
    let dy = monitor_height as i32 - window_height as i32;
    let x = if dx >= 0 { dx / 2 } else if dx == i32::MIN { i32::MIN / 2 } else { -((-dx) / 2) };
    let y = if dy >= 0 { dy / 2 } else if dy == i32::MIN { i32::MIN / 2 } else { -((-dy) / 2) };
    (x, y)
}

} // verus!
