use chd_studio::text::{join_strings, lines_exec, trim_str};

#[test]
fn trimming_uses_unicode_whitespace() {
    assert_eq!(trim_str("  a b \t\r\n"), "a b");
    assert_eq!(trim_str("\u{3000}x\u{a0}"), "x");
    assert_eq!(trim_str("\u{200b}x"), "\u{200b}x");
    for s in ["", " ", " a ", "\u{85}b\u{2029}", "x\u{1680}y"] {
        assert_eq!(trim_str(s), s.trim());
    }
}

#[test]
fn lines_like_str_lines() {
    for s in ["", "a", "a\n", "a\r\nb", "a\n\nb\n", "x\r", "\r\n", "a\rb\n", "\n\n"] {
        let v: Vec<char> = s.chars().collect();
        let got = lines_exec(&v);
        let want: Vec<String> = s.lines().map(|l| l.to_string()).collect();
        assert_eq!(got, want, "{s:?}");
    }
}

#[test]
fn joining() {
    let v: Vec<String> = vec!["a".into(), "b".into(), "c".into()];
    assert_eq!(join_strings(&v, ","), "a,b,c");
    assert_eq!(join_strings(&vec![], ","), "");
    assert_eq!(join_strings(&vec!["x".to_string()], ", "), "x");
}
