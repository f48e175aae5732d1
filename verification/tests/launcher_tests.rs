use poppy::config::{General, Llm, Providers};
use poppy::launcher::{center_position, EscapeOutcome, HotkeyOutcome, Key, KeyOutcome, Launcher, LlmAnswerState, Screen, UiState};
use poppy::provider::{Action, Candidate};
use poppy::providers::app_launcher::AppLauncherProvider;
use poppy::providers::bookmark::BookmarkProvider;
use poppy::providers::clipboard::{new_history, ClipboardProvider};
use poppy::providers::command::CommandProvider;
use poppy::providers::llm::LlmProvider;
use poppy::providers::project::ProjectProvider;
use poppy::providers::snippet::SnippetProvider;
use poppy::providers::todo::TodoProvider;
use poppy::providers::websearch::WebSearchProvider;
use poppy::providers::window::{WindowEntry, WindowProvider};
use poppy::todos::Todo;

fn cand(label: &str, action: Action) -> Candidate {
    Candidate { label: label.to_string(), source: "Test", action }
}

fn launcher() -> Launcher {
    Launcher {
        llm: LlmProvider,
        todo: TodoProvider::new(vec![Todo { id: 1, text: "write docs".to_string() }]),
        window: WindowProvider::new(vec![WindowEntry { title: "Docs - Browser".to_string(), hwnd: 7 }]),
        project: ProjectProvider::new(vec![], None),
        bookmark: BookmarkProvider::new(vec![], None),
        snippet: SnippetProvider::new(vec![], None),
        command: CommandProvider::new(vec![], None),
        app: AppLauncherProvider::new(vec![], vec![]),
        websearch: WebSearchProvider,
        clipboard: ClipboardProvider::new(new_history()),
    }
}

#[test]
fn candidates_come_in_provider_order() {
    let l = launcher();
    let all = Providers::default();
    let c = l.candidates("docs", &all);
    let sources: Vec<&str> = c.iter().map(|x| x.source).collect();
    assert_eq!(sources, vec!["AI", "Todo", "Todo", "Window", "Web Search", "Web Search"]);
    let mut some = all;
    some.llm = false;
    some.websearch = false;
    let c = l.candidates("docs", &some);
    let sources: Vec<&str> = c.iter().map(|x| x.source).collect();
    assert_eq!(sources, vec!["Todo", "Todo", "Window"]);
}

#[test]
fn defaults() {
    let p = Providers::default();
    assert!(p.window && p.project && p.bookmark && p.snippet && p.app && p.websearch && p.llm && p.clipboard && p.command && p.todo);
    assert_eq!(General::default().hotkey, "ctrl+alt+r");
    let l = Llm::default();
    assert_eq!(l.host, "http://localhost:11434");
    assert_eq!(l.model, "gemma3:4b");
    assert_eq!(l.tavily_api_key, "");
}

#[test]
fn arrows_wrap_around() {
    let list = vec![cand("a", Action::Open("a".into())), cand("b", Action::Open("b".into())), cand("c", Action::Open("c".into()))];
    let mut s = UiState::new();
    assert!(matches!(s.on_key(Key::ArrowUp, false, false, &list), KeyOutcome::Moved));
    assert_eq!(s.selected, 2);
    assert!(matches!(s.on_key(Key::ArrowDown, false, false, &list), KeyOutcome::Moved));
    assert_eq!(s.selected, 0);
    s.on_key(Key::ArrowDown, false, false, &list);
    s.on_key(Key::ArrowDown, false, false, &list);
    assert_eq!(s.selected, 2);
    s.on_key(Key::ArrowUp, false, false, &list);
    assert_eq!(s.selected, 1);
    assert!(matches!(s.on_key(Key::ArrowDown, false, false, &[]), KeyOutcome::Nothing));
    assert_eq!(s.selected, 1);
}

#[test]
fn enter_runs_the_highlighted_candidate() {
    let list = vec![
        cand("open", Action::Open("https://x".into())),
        cand("ask", Action::AskLlm("why".into())),
        cand("add", Action::AddTodo("milk".into())),
        cand("done", Action::CompleteTodo(4)),
    ];
    let mut s = UiState::new();
    s.on_input("q".to_string());
    match s.on_key(Key::Enter, false, false, &list) {
        KeyOutcome::Run(a) => assert_eq!(a, Action::Open("https://x".into())),
        _ => panic!("expected run"),
    }
    assert_eq!(s.query, "");
    s.selected = 1;
    match s.on_key(Key::Enter, false, false, &list) {
        KeyOutcome::Ask(q) => assert_eq!(q, "why"),
        _ => panic!("expected ask"),
    }
    assert_eq!(s.view, Screen::LlmAnswer);
    assert_eq!(s.llm_answer, LlmAnswerState::Loading { question: "why".into(), partial: String::new() });
    assert_eq!(s.selected, 0);
    s.selected = 2;
    assert!(matches!(s.on_key(Key::Enter, false, false, &list), KeyOutcome::AddTodo(t) if t == "milk"));
    s.selected = 3;
    assert!(matches!(s.on_key(Key::Enter, false, false, &list), KeyOutcome::CompleteTodo(4)));
    s.selected = 9;
    assert!(matches!(s.on_key(Key::Enter, false, false, &list), KeyOutcome::Nothing));
}

#[test]
fn shortcuts() {
    let mut s = UiState::new();
    assert!(matches!(s.on_key(Key::Character(",".into()), true, false, &[]), KeyOutcome::OpenedSettings));
    assert_eq!(s.view, Screen::Settings);
    let mut s = UiState::new();
    assert!(matches!(s.on_key(Key::Character("K".into()), true, true, &[]), KeyOutcome::ClearClipboard));
    assert!(matches!(s.on_key(Key::Character("k".into()), true, false, &[]), KeyOutcome::Nothing));
    assert!(matches!(s.on_key(Key::Character(",".into()), false, false, &[]), KeyOutcome::Nothing));
}

#[test]
fn escape_and_hotkey() {
    let mut s = UiState::new();
    assert_eq!(s.on_escape(), EscapeOutcome::Hide);
    s.view = Screen::Settings;
    assert_eq!(s.on_escape(), EscapeOutcome::BackToSearch);
    assert_eq!(s.view, Screen::Search);
    s.start_question("q".into());
    assert!(!s.hides_on_focus_loss());
    assert_eq!(s.on_escape(), EscapeOutcome::Stay);
    assert_eq!(s.llm_answer.question(), "q");
    s.llm_answer = LlmAnswerState::Done { question: "q".into(), answer: "a".into() };
    assert!(s.hides_on_focus_loss());
    assert_eq!(s.on_escape(), EscapeOutcome::BackToSearch);
    s.on_input("abc".into());
    s.selected = 2;
    assert_eq!(s.on_hotkey(true), HotkeyOutcome::Hide);
    assert_eq!(s.query, "abc");
    assert_eq!(s.on_hotkey(false), HotkeyOutcome::ShowAndReload);
    assert_eq!(s.query, "");
    assert_eq!(s.selected, 0);
    assert_eq!(s.llm_answer, LlmAnswerState::Idle);
    assert_eq!(LlmAnswerState::Idle.question(), "");
}

#[test]
fn centering() {
    assert_eq!(center_position(1920, 1080, 800, 600), (560, 240));
    assert_eq!(center_position(800, 600, 901, 600), (-50, 0));
}

#[test]
fn answer_progress_and_result() {
    let mut s = UiState::new();
    s.start_question("q".into());
    s.on_answer_progress("q".into(), "par".into());
    assert_eq!(s.llm_answer, LlmAnswerState::Loading { question: "q".into(), partial: "par".into() });
    assert_eq!(s.view, Screen::LlmAnswer);
    s.on_answer_result("q".into(), Ok("full".into()));
    assert_eq!(s.llm_answer, LlmAnswerState::Done { question: "q".into(), answer: "full".into() });
    s.on_answer_result("q".into(), Err("boom".into()));
    assert_eq!(s.llm_answer, LlmAnswerState::Error { question: "q".into(), message: "boom".into() });
    assert_eq!(s.view, Screen::LlmAnswer);
}

#[test]
fn arrows_on_an_empty_list_do_nothing_even_at_the_limit() {
    let mut s = UiState::new();
    s.selected = usize::MAX;
    assert!(matches!(s.on_key(Key::ArrowDown, false, false, &[]), KeyOutcome::Nothing));
    assert!(matches!(s.on_key(Key::ArrowUp, false, false, &[]), KeyOutcome::Nothing));
    assert_eq!(s.selected, usize::MAX);
}
