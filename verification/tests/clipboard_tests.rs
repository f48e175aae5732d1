use poppy::provider::{Action, Provider};
use poppy::providers::clipboard::{new_history, poll, truncate, ClipboardProvider, MAX_HISTORY};

#[test]
fn poll_records_trimmed_new_text() {
    let mut h = new_history();
    let mut last = None;
    assert!(!poll(&mut h, &mut last, None));
    assert!(poll(&mut h, &mut last, Some("  hello \n".to_string())));
    assert_eq!(h.items(), &vec!["hello".to_string()]);
    assert_eq!(last, Some("hello".to_string()));
    assert!(!poll(&mut h, &mut last, Some("hello".to_string())));
    assert!(!poll(&mut h, &mut last, Some("   ".to_string())));
    assert_eq!(h.len(), 1);
}

#[test]
fn recopying_moves_text_to_front() {
    let mut h = new_history();
    let mut last = None;
    poll(&mut h, &mut last, Some("a".to_string()));
    poll(&mut h, &mut last, Some("b".to_string()));
    poll(&mut h, &mut last, Some("c".to_string()));
    assert!(poll(&mut h, &mut last, Some("a".to_string())));
    assert_eq!(h.items(), &vec!["a".to_string(), "c".to_string(), "b".to_string()]);
}

#[test]
fn history_keeps_thirty() {
    let mut h = new_history();
    let mut last = None;
    for i in 0..35 {
        assert!(poll(&mut h, &mut last, Some(format!("item {i}"))));
    }
    assert_eq!(h.len(), MAX_HISTORY);
    assert_eq!(h.items()[0], "item 34");
    assert_eq!(h.items()[29], "item 5");
    h.clear();
    assert_eq!(h.len(), 0);
}

#[test]
fn labels_are_collapsed_and_cut() {
    assert_eq!(truncate("a\n\n  b\tc"), "a b c");
    let long = "x".repeat(61);
    assert_eq!(truncate(&long), format!("{}…", "x".repeat(60)));
    let exact = "y".repeat(60);
    assert_eq!(truncate(&exact), exact);
    assert_eq!(truncate("あ".repeat(70).as_str()).chars().count(), 61);
}

#[test]
fn clipboard_candidates() {
    let mut h = new_history();
    let mut last = None;
    poll(&mut h, &mut last, Some("Hello World".to_string()));
    poll(&mut h, &mut last, Some("second\nline".to_string()));
    let p = ClipboardProvider::new(h);
    let all = p.candidates("");
    assert_eq!(all.len(), 2);
    assert_eq!(all[0].label, "「second line」をコピー");
    assert_eq!(all[0].action, Action::CopyToClipboard("second\nline".to_string()));
    let found = p.candidates(" WORLD ");
    assert_eq!(found.len(), 1);
    assert_eq!(found[0].label, "「Hello World」をコピー");
    assert_eq!(found[0].source, "Clipboard");
    assert_eq!(p.name(), "Clipboard");
}
