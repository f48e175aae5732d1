use poppy::color::hex_to_rgb;
use poppy::text;
use poppy::wide::to_wide;

#[test]
fn trim_drops_unicode_white_space() {
    assert_eq!(text::trim("  a b \t\n"), "a b");
    assert_eq!(text::trim("\u{3000}全角\u{3000}"), "全角");
    assert_eq!(text::trim("\u{a0}x\u{2003}"), "x");
    assert_eq!(text::trim("   "), "");
    assert_eq!(text::trim(""), "");
}

#[test]
fn trim_is_idempotent_on_examples() {
    for s in ["  x  ", "\tab\n", "", " ", "a"] {
        let once = text::trim(s);
        assert_eq!(text::trim(&once), once);
    }
}

#[test]
fn query_key_lowercases_trimmed_query() {
    let k: String = text::query_key_chars("  HeLLo ").into_iter().collect();
    assert_eq!(k, "hello");
}

#[test]
fn contains_finds_substrings() {
    let s: Vec<char> = "hello world".chars().collect();
    let p: Vec<char> = "o w".chars().collect();
    let q: Vec<char> = "ow".chars().collect();
    let e: Vec<char> = Vec::new();
    assert!(text::contains_chars(&s, &p));
    assert!(!text::contains_chars(&s, &q));
    assert!(text::contains_chars(&s, &e));
    assert!(!text::contains_chars(&p, &s));
    assert!(text::contains_str("abc", &"c".chars().collect()));
}

#[test]
fn eq_ignore_ascii_case_only_folds_ascii() {
    let a: Vec<char> = "Foo".chars().collect();
    let b: Vec<char> = "fOO".chars().collect();
    let c: Vec<char> = "É".chars().collect();
    let d: Vec<char> = "é".chars().collect();
    assert!(text::eq_ignore_ascii_case(&a, &b));
    assert!(!text::eq_ignore_ascii_case(&c, &d));
    assert!(!text::eq_ignore_ascii_case(&a, &c));
}

#[test]
fn decimal_digits() {
    let mut v = Vec::new();
    text::push_decimal(&mut v, 0);
    text::push_decimal(&mut v, 12);
    text::push_decimal(&mut v, 907);
    assert_eq!(v.into_iter().collect::<String>(), "012907");
}

#[test]
fn collapse_white_space_runs() {
    let v: Vec<char> = "  a \n\n b\tc  ".chars().collect();
    assert_eq!(text::collapse_whitespace(&v).into_iter().collect::<String>(), "a b c");
    let w: Vec<char> = " \n ".chars().collect();
    assert!(text::collapse_whitespace(&w).is_empty());
}

#[test]
fn strings_compare_by_characters() {
    assert!(text::str_eq("Poppy", "Poppy"));
    assert!(!text::str_eq("Poppy", "poppy"));
    assert_eq!(text::concat3("a", "b", "c"), "abc");
    assert_eq!(text::concat2("x", "y"), "xy");
}

#[test]
fn hex_colors() {
    assert_eq!(hex_to_rgb("#722f37"), (0x72, 0x2f, 0x37));
    assert_eq!(hex_to_rgb("#FFFFFF"), (255, 255, 255));
    assert_eq!(hex_to_rgb("##00ff00"), (0, 255, 0));
    assert_eq!(hex_to_rgb("123456"), (0x12, 0x34, 0x56));
    assert_eq!(hex_to_rgb("#fff"), (0x72, 0x2f, 0x37));
    assert_eq!(hex_to_rgb(""), (0x72, 0x2f, 0x37));
    assert_eq!(hex_to_rgb("#zz00g0"), (0x72, 0x2f, 0x37));
    assert_eq!(hex_to_rgb("#zzzzzz"), (0x72, 0x2f, 0x37));
    assert_eq!(hex_to_rgb("+f+a+1"), (0x72, 0x2f, 0x37));
    assert_eq!(hex_to_rgb("-f0000"), (0x72, 0x2f, 0x37));
    assert_eq!(hex_to_rgb("#ああ"), (0x72, 0x2f, 0x37));
    assert_eq!(hex_to_rgb("#aé000"), (0x72, 0x2f, 0x37));
    assert_eq!(hex_to_rgb("#AbCdEf"), (0xab, 0xcd, 0xef));
}

#[test]
fn wide_strings_end_in_zero() {
    assert_eq!(to_wide(""), vec![0]);
    assert_eq!(to_wide("Aあ😀"), vec![0x41, 0x3042, 0xd83d, 0xde00, 0]);
    let expected: Vec<u16> = "次のコマンド\n\ncmd".encode_utf16().chain(std::iter::once(0)).collect();
    assert_eq!(to_wide("次のコマンド\n\ncmd"), expected);
}
