use poppy::providers::llm::{
    append_sources, build_grounded_prompt, generate_url, plan_prompt, wants_web_search, AnswerSession, ChunkStep,
    LineBuffer, SearchResult,
};

fn result(title: &str, url: &str, content: &str) -> SearchResult {
    SearchResult { title: title.to_string(), url: url.to_string(), content: content.to_string() }
}

#[test]
fn grounded_prompt_numbers_results() {
    let r = vec![result("T1", "u1", "c1"), result("T2", "u2", "c2")];
    let p = build_grounded_prompt("Q?", &r);
    assert_eq!(
        p,
        "以下はWeb検索で見つかった情報です。これを参考にして、質問に日本語で答えてください。\n\
         検索結果に無い情報を推測で補わないでください。\n\n\
         [検索結果]\n1. T1\nc1\n出典: u1\n\n2. T2\nc2\n出典: u2\n\n[質問]\nQ?"
    );
}

#[test]
fn grounded_prompt_counts_past_nine() {
    let r: Vec<SearchResult> = (0..11).map(|i| result(&format!("t{i}"), "u", "c")).collect();
    let p = build_grounded_prompt("q", &r);
    assert!(p.contains("\n\n11. t10\nc\n出典: u\n\n[質問]\nq"));
    assert!(p.contains("[検索結果]\n1. t0\n"));
}

#[test]
fn plan_prompt_uses_results_only_when_there_are_some() {
    let (p, s) = plan_prompt("q", None);
    assert_eq!(p, "q");
    assert!(s.is_empty());
    let (p, s) = plan_prompt("q", Some(vec![]));
    assert_eq!(p, "q");
    assert!(s.is_empty());
    let (p, s) = plan_prompt("q", Some(vec![result("t", "u", "c")]));
    assert!(p.ends_with("[質問]\nq"));
    assert_eq!(s.len(), 1);
}

#[test]
fn web_search_needs_a_key() {
    assert!(!wants_web_search(""));
    assert!(!wants_web_search("   "));
    assert!(wants_web_search(" tvly-abc "));
}

#[test]
fn sources_are_appended() {
    let mut a = "answer".to_string();
    append_sources(&mut a, &[]);
    assert_eq!(a, "answer");
    append_sources(&mut a, &[result("T", "https://x", "c"), result("U", "https://y", "d")]);
    assert_eq!(a, "answer\n\n参照元:\n- T\n  https://x\n- U\n  https://y\n");
}

#[test]
fn generate_url_strips_slashes() {
    assert_eq!(generate_url("http://localhost:11434"), "http://localhost:11434/api/generate");
    assert_eq!(generate_url("http://h//"), "http://h/api/generate");
    assert_eq!(generate_url(""), "/api/generate");
}

#[test]
fn lines_are_split_at_newlines() {
    let mut b = LineBuffer::new();
    b.extend(b"{\"a\":1}\n\n{\"b\"");
    assert_eq!(b.next_line(), Some(b"{\"a\":1}".to_vec()));
    assert_eq!(b.next_line(), None);
    b.extend(b":2}\n");
    assert_eq!(b.next_line(), Some(b"{\"b\":2}".to_vec()));
    assert_eq!(b.next_line(), None);
    b.extend(b"\n\n\n");
    assert_eq!(b.next_line(), None);
}

#[test]
fn session_assembles_the_answer() {
    let mut s = AnswerSession::new(vec![result("T", "u", "c")]);
    assert!(matches!(s.on_chunk("Hel", false, None), ChunkStep::Continue { grew: true }));
    assert!(matches!(s.on_chunk("", false, None), ChunkStep::Continue { grew: false }));
    assert_eq!(s.text(), "Hel");
    assert!(matches!(s.on_chunk("lo", true, None), ChunkStep::Finished { grew: true }));
    assert_eq!(s.text(), "Hello");
    assert_eq!(s.finish(), "Hello\n\n参照元:\n- T\n  u\n");
}

#[test]
fn session_reports_errors() {
    let mut s = AnswerSession::new(vec![]);
    match s.on_chunk("x", false, Some("model not found".to_string())) {
        ChunkStep::Failed(m) => assert_eq!(m, "Ollama がエラーを返しました: model not found"),
        _ => panic!("expected a failure"),
    }
    assert_eq!(s.text(), "");
    s.on_chunk("ok", false, None);
    assert_eq!(s.finish(), "ok");
}
