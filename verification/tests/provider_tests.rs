use poppy::bookmarks::Bookmark;
use poppy::commands::Command;
use poppy::projects::Project;
use poppy::provider::{Action, Candidate, Provider};
use poppy::providers::app_launcher::{app_entry_for_file, store_app_entries, AppEntry, AppLauncherProvider, StartApp};
use poppy::providers::app_list::{arrange_apps, dedup_apps, lex_less, sort_apps};
use poppy::providers::bookmark::BookmarkProvider;
use poppy::providers::command::CommandProvider;
use poppy::providers::llm::LlmProvider;
use poppy::providers::project::ProjectProvider;
use poppy::providers::snippet::SnippetProvider;
use poppy::providers::websearch::{fill_template, WebSearchProvider};
use poppy::providers::window::{is_switchable, WindowEntry, WindowInfo, WindowProvider};
use poppy::snippets::Snippet;

fn labels(c: &[Candidate]) -> Vec<String> {
    c.iter().map(|x| x.label.clone()).collect()
}

fn app(name: &str, target: &str) -> AppEntry {
    AppEntry { name: name.to_string(), target: target.to_string() }
}

#[test]
fn bookmark_provider_offers_open() {
    let p = BookmarkProvider::new(
        vec![Bookmark {
            name: "GitHub".to_string(),
            url: "https://github.com".to_string(),
            keywords: vec!["gh".to_string()],
        }],
        None,
    );
    let c = p.candidates(" GH ");
    assert_eq!(labels(&c), vec!["GitHub を開く"]);
    assert_eq!(c[0].source, "Bookmark");
    assert_eq!(c[0].action, Action::Open("https://github.com".to_string()));
    assert!(p.candidates("  ").is_empty());
    assert_eq!(p.name(), "Bookmark");
}

#[test]
fn bookmark_provider_reload_replaces_list() {
    let mut p = BookmarkProvider::new(vec![], None);
    assert!(p.candidates("a").is_empty());
    p.reload(vec![Bookmark { name: "abc".to_string(), url: "u".to_string(), keywords: vec![] }]);
    assert_eq!(p.candidates("a").len(), 1);
}

#[test]
fn snippet_and_project_providers() {
    let s = SnippetProvider::new(vec![Snippet { name: "sig".to_string(), content: "Yohei".to_string(), keywords: vec![] }], None);
    let c = s.candidates("SIG");
    assert_eq!(labels(&c), vec!["sig をコピー"]);
    assert_eq!(c[0].action, Action::CopyToClipboard("Yohei".to_string()));
    assert_eq!(c[0].source, "Snippet");
    let p = ProjectProvider::new(vec![Project { name: "poppy".to_string(), path: "C:\\p".to_string(), keywords: vec![] }], None);
    let c = p.candidates("pop");
    assert_eq!(labels(&c), vec!["poppy を VSCode で開く"]);
    assert_eq!(c[0].action, Action::OpenInVscode("C:\\p".to_string()));
    assert_eq!(c[0].source, "Project");
}

fn sample_commands() -> CommandProvider {
    CommandProvider::new(
        vec![Command { name: "Empty trash".to_string(), command: "del".to_string(), confirm: true, keywords: vec![] }],
        Some("C:\\cfg\\commands.toml".to_string()),
    )
}

#[test]
fn command_provider_blank_query_offers_config_only() {
    let c = sample_commands().candidates("");
    assert_eq!(labels(&c), vec!["Open Commands (設定ファイルを開く)"]);
    assert_eq!(c[0].action, Action::Open("C:\\cfg\\commands.toml".to_string()));
}

#[test]
fn command_provider_matches_config_words() {
    let p = sample_commands();
    assert_eq!(labels(&p.candidates("CONF")), vec!["Open Commands (設定ファイルを開く)"]);
    assert_eq!(labels(&p.candidates("open com")), vec!["Open Commands (設定ファイルを開く)"]);
    let c = p.candidates("trash");
    assert_eq!(labels(&c), vec!["Empty trash を実行"]);
    assert_eq!(c[0].action, Action::RunCommand { command: "del".to_string(), confirm: true });
    // "m" is in "open commands" and in "Empty trash".
    assert_eq!(p.candidates("m").len(), 2);
    let none = CommandProvider::new(vec![], None);
    assert!(none.candidates("").is_empty());
}

#[test]
fn llm_provider_offers_one_question() {
    let c = LlmProvider.candidates("  what is rust  ");
    assert_eq!(labels(&c), vec!["AI に「what is rust」を聞く"]);
    assert_eq!(c[0].action, Action::AskLlm("what is rust".to_string()));
    assert_eq!(c[0].source, "AI");
    assert!(LlmProvider.candidates(" ").is_empty());
}

#[test]
fn web_search_encodes_the_query() {
    let c = WebSearchProvider.candidates(" 日本 語&x ");
    assert_eq!(c.len(), 2);
    assert_eq!(c[0].label, "Google で「日本 語&x」を検索");
    assert_eq!(
        c[0].action,
        Action::Open("https://www.google.com/search?q=%E6%97%A5%E6%9C%AC%20%E8%AA%9E%26x".to_string())
    );
    assert_eq!(c[1].label, "DuckDuckGo で「日本 語&x」を検索");
    assert_eq!(c[1].action, Action::Open("https://duckduckgo.com/?q=%E6%97%A5%E6%9C%AC%20%E8%AA%9E%26x".to_string()));
    let plain = WebSearchProvider.candidates("a-b_c.d~e");
    assert_eq!(plain[0].action, Action::Open("https://www.google.com/search?q=a-b_c.d~e".to_string()));
    assert!(WebSearchProvider.candidates("").is_empty());
    assert_eq!(WebSearchProvider.name(), "Web Search");
}

#[test]
fn templates_replace_every_placeholder() {
    let v: Vec<char> = "X".chars().collect();
    assert_eq!(fill_template("a{}b{}", &v), "aXbX");
    assert_eq!(fill_template("{", &v), "{");
    assert_eq!(fill_template("{{}}", &v), "{X}");
}

#[test]
fn window_filter() {
    let ok = WindowInfo { visible: true, has_owner: false, ex_style: 0, cloaked: Some(0), title: "Editor".to_string() };
    assert!(is_switchable(&ok));
    assert!(!is_switchable(&WindowInfo { visible: false, ..clone_info(&ok) }));
    assert!(!is_switchable(&WindowInfo { has_owner: true, ..clone_info(&ok) }));
    assert!(!is_switchable(&WindowInfo { ex_style: 0x80 | 0x8, ..clone_info(&ok) }));
    assert!(is_switchable(&WindowInfo { ex_style: 0x8, ..clone_info(&ok) }));
    assert!(!is_switchable(&WindowInfo { cloaked: Some(2), ..clone_info(&ok) }));
    assert!(is_switchable(&WindowInfo { cloaked: None, ..clone_info(&ok) }));
    assert!(!is_switchable(&WindowInfo { title: String::new(), ..clone_info(&ok) }));
    assert!(!is_switchable(&WindowInfo { title: "Poppy".to_string(), ..clone_info(&ok) }));
}

fn clone_info(w: &WindowInfo) -> WindowInfo {
    WindowInfo { visible: w.visible, has_owner: w.has_owner, ex_style: w.ex_style, cloaked: w.cloaked, title: w.title.clone() }
}

#[test]
fn window_provider_lists_matches() {
    let p = WindowProvider::new(vec![
        WindowEntry { title: "Visual Studio Code".to_string(), hwnd: 10 },
        WindowEntry { title: "Explorer".to_string(), hwnd: 20 },
    ]);
    assert_eq!(p.candidates("").len(), 2);
    let c = p.candidates(" code");
    assert_eq!(labels(&c), vec!["Visual Studio Code に切り替え"]);
    assert_eq!(c[0].action, Action::FocusWindow(10));
}

#[test]
fn shortcut_files() {
    let e = app_entry_for_file("Firefox.lnk", "C:\\sm\\Firefox.lnk".to_string()).unwrap();
    assert_eq!(e.name, "Firefox");
    assert_eq!(e.target, "C:\\sm\\Firefox.lnk");
    assert_eq!(app_entry_for_file("word.LNK", "p".to_string()).unwrap().name, "word");
    assert_eq!(app_entry_for_file("a.b.lnk", "p".to_string()).unwrap().name, "a.b");
    assert!(app_entry_for_file(".lnk", "p".to_string()).is_none());
    assert!(app_entry_for_file("readme.txt", "p".to_string()).is_none());
    assert!(app_entry_for_file("lnk", "p".to_string()).is_none());
    assert!(app_entry_for_file("..", "p".to_string()).is_none());
    assert!(app_entry_for_file("x.lnk.bak", "p".to_string()).is_none());
}

#[test]
fn store_apps_need_a_bang() {
    let e = store_app_entries(vec![
        StartApp { name: "Calculator".to_string(), app_id: "Microsoft.WindowsCalculator_8wekyb3d8bbwe!App".to_string() },
        StartApp { name: "Notepad".to_string(), app_id: "C:\\notepad.exe".to_string() },
    ]);
    assert_eq!(e.len(), 1);
    assert_eq!(e[0].name, "Calculator");
    assert_eq!(e[0].target, "shell:appsFolder\\Microsoft.WindowsCalculator_8wekyb3d8bbwe!App");
}

#[test]
fn apps_sort_stably_and_drop_repeats() {
    let v = vec![app("b", "1"), app("A", "2"), app("a", "3"), app("C", "4"), app("B", "5")];
    let sorted = sort_apps(v.clone());
    let names: Vec<&str> = sorted.iter().map(|a| a.target.as_str()).collect();
    assert_eq!(names, vec!["2", "3", "1", "5", "4"]);
    let arranged = arrange_apps(v);
    let t: Vec<&str> = arranged.iter().map(|a| a.target.as_str()).collect();
    assert_eq!(t, vec!["2", "1", "4"]);
    let d = dedup_apps(vec![app("x", "1"), app("y", "2"), app("X", "3")]);
    assert_eq!(d.len(), 3);
}

#[test]
fn string_order_is_by_code_point() {
    let a: Vec<char> = "ab".chars().collect();
    let b: Vec<char> = "abc".chars().collect();
    let c: Vec<char> = "b".chars().collect();
    assert!(lex_less(&a, &b));
    assert!(!lex_less(&b, &a));
    assert!(lex_less(&b, &c));
    assert!(!lex_less(&a, &a));
}

#[test]
fn app_provider_lists_shortcuts_then_store_apps() {
    let mut p = AppLauncherProvider::new(vec![app("Firefox", "f.lnk")], vec![]);
    p.set_store_apps(vec![app("Firefox Nightly", "shell:appsFolder\\n!App")]);
    let c = p.candidates("fire");
    assert_eq!(labels(&c), vec!["Firefox を起動", "Firefox Nightly を起動"]);
    assert_eq!(c[1].action, Action::Open("shell:appsFolder\\n!App".to_string()));
    assert!(p.candidates("").is_empty());
    p.reload(vec![]);
    assert_eq!(p.candidates("fire").len(), 1);
}

#[test]
fn open_config_file_candidates() {
    let b = BookmarkProvider::new(vec![], Some("C:\\cfg\\bookmarks.toml".to_string()));
    let c = b.candidates("open");
    assert_eq!(labels(&c), vec!["Open Bookmarks (設定ファイルを開く)"]);
    assert_eq!(c[0].action, Action::Open("C:\\cfg\\bookmarks.toml".to_string()));
    assert_eq!(c[0].source, "Bookmark");
    assert_eq!(labels(&b.candidates(" Open Book ")), vec!["Open Bookmarks (設定ファイルを開く)"]);
    assert!(b.candidates("").is_empty());
    assert!(b.candidates("   ").is_empty());
    assert!(b.candidates("config").is_empty());
    assert!(b.candidates("ope").is_empty());
    assert!(b.candidates("open s").is_empty());
    assert!(b.candidates("book").is_empty());
    let s = SnippetProvider::new(
        vec![Snippet { name: "open sesame".to_string(), content: "x".to_string(), keywords: vec![] }],
        Some("s.toml".to_string()),
    );
    assert_eq!(labels(&s.candidates("open")), vec!["Open Snippets (設定ファイルを開く)", "open sesame をコピー"]);
    assert_eq!(labels(&s.candidates("s")), vec!["open sesame をコピー"]);
    assert!(s.candidates("").is_empty());
    let p = ProjectProvider::new(vec![], Some("p.toml".to_string()));
    let c = p.candidates(" OPEN PRO ");
    assert_eq!(labels(&c), vec!["Open Projects (設定ファイルを開く)"]);
    assert_eq!(c[0].action, Action::Open("p.toml".to_string()));
    assert!(p.candidates("bookmarks").is_empty());
    assert!(p.candidates("").is_empty());
}

#[test]
fn shortcut_files_are_collected_and_arranged() {
    let files = vec![
        ("zed.lnk".to_string(), "C:\\a\\zed.lnk".to_string()),
        ("readme.txt".to_string(), "C:\\a\\readme.txt".to_string()),
        ("Alpha.LNK".to_string(), "C:\\a\\Alpha.LNK".to_string()),
        ("alpha.lnk".to_string(), "C:\\b\\alpha.lnk".to_string()),
    ];
    let apps = poppy::providers::app_list::shortcut_entries(files);
    let got: Vec<(&str, &str)> = apps.iter().map(|a| (a.name.as_str(), a.target.as_str())).collect();
    assert_eq!(got, vec![("Alpha", "C:\\a\\Alpha.LNK"), ("zed", "C:\\a\\zed.lnk")]);
    assert!(poppy::providers::app_list::shortcut_entries(vec![]).is_empty());
}
