use popcorn::text::{
    contains_str, decimal_string, last_piece, lines_str, replace_str, split_fields_str,
    split_first_str, split_str, text_eq,
};

#[test]
fn split_takes_matches_from_the_left() {
    assert_eq!(split_str("a/b//c", "/"), vec!["a", "b", "", "c"]);
    assert_eq!(split_str("aaa", "aa"), vec!["", "a"]);
    assert_eq!(split_str("", "x"), vec![""]);
}

#[test]
fn split_at_empty_pattern_matches_every_boundary() {
    assert_eq!(split_str("abc", ""), vec!["", "a", "b", "c", ""]);
    assert_eq!(split_str("", ""), vec!["", ""]);
    let expected: Vec<&str> = "héllo".split("").collect();
    assert_eq!(split_str("héllo", ""), expected);
}

#[test]
fn split_agrees_with_std() {
    for (s, p) in [("x@y@z", "@"), ("a--b---c", "--"), ("no match", "#"), ("ééé", "é")] {
        let expected: Vec<&str> = s.split(p).collect();
        assert_eq!(split_str(s, p), expected);
    }
}

#[test]
fn replace_agrees_with_std() {
    for (s, f, t) in [
        ("cp -r * @dest", "@dest", "/home/k"),
        ("@dest@dest", "@dest", "x"),
        ("abc", "", "-"),
        ("user/repo/x", "/", "@"),
        ("nothing", "zz", "y"),
    ] {
        assert_eq!(replace_str(s, f, t), s.replace(f, t));
    }
}

#[test]
fn split_first_cuts_once() {
    assert_eq!(split_first_str("a b c", " "), vec!["a", "b c"]);
    assert_eq!(split_first_str("abc", "x"), vec!["abc"]);
    assert_eq!(split_first_str("abc", ""), vec!["", "abc"]);
}

#[test]
fn lines_agree_with_std() {
    for s in ["a\nb", "a\r\nb\r\n", "", "\n", "a\n\nb\n", "x\r", "one"] {
        let expected: Vec<&str> = s.lines().collect();
        assert_eq!(lines_str(s), expected);
    }
}

#[test]
fn fields_split_at_spaces_and_line_ends() {
    assert_eq!(split_fields_str(" abc url\nrest"), vec!["", "abc", "url", "rest"]);
    assert_eq!(split_fields_str("plain"), vec!["plain"]);
}

#[test]
fn contains_and_equality() {
    assert!(contains_str("export PATH=$PATH:/x", "PATH:/x"));
    assert!(!contains_str("abc", "abd"));
    assert!(contains_str("abc", ""));
    assert!(text_eq("same", "same"));
    assert!(!text_eq("same", "Same"));
}

#[test]
fn last_piece_is_after_last_separator() {
    assert_eq!(last_piece("/bin/zsh", '/'), "zsh");
    assert_eq!(last_piece("bash", '/'), "bash");
    assert_eq!(last_piece("", '/'), "");
    assert_eq!(last_piece("/a/b/", '/'), "");
}

#[test]
fn decimal_is_display() {
    for n in [0u64, 7, 10, 48, 255, 1234567890, u64::MAX] {
        assert_eq!(decimal_string(n), n.to_string());
    }
}
