use poppy::bookmarks::{self, Bookmark};
use poppy::commands::{self, Command};
use poppy::projects::{self, Project};
use poppy::snippets::{self, Snippet};

fn kw(words: &[&str]) -> Vec<String> {
    words.iter().map(|w| w.to_string()).collect()
}

fn sample_bookmarks() -> Vec<Bookmark> {
    vec![
        Bookmark { name: "GitHub".to_string(), url: "https://github.com".to_string(), keywords: kw(&["gh"]) },
        Bookmark {
            name: "Google Drive".to_string(),
            url: "https://drive.google.com".to_string(),
            keywords: kw(&["drive", "gdrive"]),
        },
        Bookmark { name: "Rust Docs".to_string(), url: "https://doc.rust-lang.org".to_string(), keywords: vec![] },
    ]
}

fn names(v: &[Bookmark]) -> Vec<String> {
    v.iter().map(|b| b.name.clone()).collect()
}

#[test]
fn bookmark_search_blank_query_finds_nothing() {
    let b = sample_bookmarks();
    assert!(bookmarks::search(&b, "").is_empty());
    assert!(bookmarks::search(&b, "   \t ").is_empty());
}

#[test]
fn bookmark_search_matches_name_ignoring_case() {
    let b = sample_bookmarks();
    assert_eq!(names(&bookmarks::search(&b, "GIT")), vec!["GitHub"]);
    assert_eq!(names(&bookmarks::search(&b, "g")), vec!["GitHub", "Google Drive"]);
}

#[test]
fn bookmark_search_matches_keyword() {
    let b = sample_bookmarks();
    let found = bookmarks::search(&b, "gdr");
    assert_eq!(names(&found), vec!["Google Drive"]);
    assert_eq!(found[0].url, "https://drive.google.com");
    assert_eq!(found[0].keywords, kw(&["drive", "gdrive"]));
}

#[test]
fn bookmark_search_ignores_surrounding_space() {
    let b = sample_bookmarks();
    assert_eq!(names(&bookmarks::search(&b, "  docs \n")), vec!["Rust Docs"]);
    assert_eq!(names(&bookmarks::search(&b, "docs")), names(&bookmarks::search(&b, "  docs  ")));
}

#[test]
fn bookmark_search_inner_space_must_match() {
    let b = sample_bookmarks();
    assert_eq!(names(&bookmarks::search(&b, "google d")), vec!["Google Drive"]);
    assert!(bookmarks::search(&b, "google  d").is_empty());
}

#[test]
fn bookmark_search_non_ascii_case() {
    let b = vec![Bookmark { name: "ÉCOLE".to_string(), url: "u".to_string(), keywords: vec![] }];
    assert_eq!(names(&bookmarks::search(&b, "école")), vec!["ÉCOLE"]);
}

#[test]
fn command_search_keeps_fields() {
    let c = vec![
        Command {
            name: "Empty trash".to_string(),
            command: "powershell -Command Clear-RecycleBin -Force".to_string(),
            confirm: true,
            keywords: kw(&["trash", "recycle"]),
        },
        Command { name: "Notepad".to_string(), command: "notepad".to_string(), confirm: false, keywords: vec![] },
    ];
    let found = commands::search(&c, "RECYCLE");
    assert_eq!(found.len(), 1);
    assert_eq!(found[0].name, "Empty trash");
    assert!(found[0].confirm);
    assert_eq!(found[0].command, "powershell -Command Clear-RecycleBin -Force");
    assert!(commands::search(&c, "").is_empty());
    assert_eq!(commands::search(&c, "e").len(), 2);
}

#[test]
fn project_search_matches() {
    let p = vec![
        Project { name: "poppy".to_string(), path: "C:\\Work\\poppy".to_string(), keywords: kw(&["launcher"]) },
        Project { name: "site".to_string(), path: "C:\\Work\\site".to_string(), keywords: vec![] },
    ];
    let found = projects::search(&p, "Launch");
    assert_eq!(found.len(), 1);
    assert_eq!(found[0].path, "C:\\Work\\poppy");
    assert!(projects::search(&p, "xyz").is_empty());
}

#[test]
fn snippet_search_matches() {
    let s = vec![
        Snippet { name: "メール署名".to_string(), content: "Yohei Kono".to_string(), keywords: kw(&["sig", "signature"]) },
        Snippet { name: "print関数".to_string(), content: "def print():\n".to_string(), keywords: kw(&["print"]) },
    ];
    let found = snippets::search(&s, "SIG");
    assert_eq!(found.len(), 1);
    assert_eq!(found[0].content, "Yohei Kono");
    assert_eq!(snippets::search(&s, "署名").len(), 1);
    assert_eq!(snippets::search(&s, "関数")[0].name, "print関数");
}
