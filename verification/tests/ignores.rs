use emtests::ignores::{contains_name, fold_names, is_ignored, parse_ignore_list};

fn names(list: &[&str]) -> Vec<String> {
    list.iter().map(|s| s.to_string()).collect()
}

#[test]
fn one_name_per_line() {
    assert_eq!(parse_ignore_list(b"test_a\ntest_b\n"), names(&["test_a", "test_b"]));
}

#[test]
fn last_line_needs_no_line_feed() {
    assert_eq!(parse_ignore_list(b"test_a\ntest_b"), names(&["test_a", "test_b"]));
}

#[test]
fn empty_file_holds_no_name() {
    assert_eq!(parse_ignore_list(b""), Vec::<String>::new());
}

#[test]
fn empty_lines_are_names() {
    assert_eq!(parse_ignore_list(b"\n"), names(&[""]));
    assert_eq!(parse_ignore_list(b"a\n\nb\n"), names(&["a", "", "b"]));
    assert_eq!(parse_ignore_list(b"\n\n"), names(&["", ""]));
}

#[test]
fn carriage_return_before_line_feed_is_dropped() {
    assert_eq!(parse_ignore_list(b"a\r\nb\r\n"), names(&["a", "b"]));
    assert_eq!(parse_ignore_list(b"\r\n"), names(&[""]));
    assert_eq!(parse_ignore_list(b"a\r\r\n"), names(&["a\r"]));
}

#[test]
fn carriage_return_elsewhere_stays() {
    assert_eq!(parse_ignore_list(b"a\rb\n"), names(&["a\rb"]));
    assert_eq!(parse_ignore_list(b"a\r"), names(&["a\r"]));
    assert_eq!(parse_ignore_list(b"a\nb\r"), names(&["a", "b\r"]));
}

#[test]
fn lines_are_not_trimmed() {
    assert_eq!(parse_ignore_list(b" a \n\tb\n"), names(&[" a ", "\tb"]));
}

#[test]
fn malformed_lines_hold_no_name() {
    assert_eq!(parse_ignore_list(b"ok\n\xff\xfe\nfine\n"), names(&["ok", "fine"]));
    assert_eq!(parse_ignore_list(b"\xc3\n"), Vec::<String>::new());
    assert_eq!(parse_ignore_list(b"a\n\xe2\x82"), names(&["a"]));
}

#[test]
fn names_may_hold_any_character() {
    assert_eq!(
        parse_ignore_list("caf\u{e9}\n\u{1f600}\n".as_bytes()),
        names(&["caf\u{e9}", "\u{1f600}"])
    );
}

#[test]
fn folding_lowers_every_name() {
    assert_eq!(fold_names(&names(&["Test_A", "b", "\u{c9}COLE"])), names(&["test_a", "b", "\u{e9}cole"]));
    assert_eq!(fold_names(&names(&[])), Vec::<String>::new());
}

#[test]
fn contains_name_is_exact() {
    let list = names(&["a", "b"]);
    assert!(contains_name(&list, "a"));
    assert!(contains_name(&list, "b"));
    assert!(!contains_name(&list, "A"));
    assert!(!contains_name(&list, "ab"));
    assert!(!contains_name(&list, ""));
    assert!(!contains_name(&names(&[]), "a"));
}

#[test]
fn ignore_list_is_matched_without_regard_to_case() {
    let list = names(&["Test_SigAlrm", "test_poll"]);
    assert!(is_ignored(&list, "test_sigalrm"));
    assert!(is_ignored(&list, "TEST_SIGALRM"));
    assert!(is_ignored(&list, "TEST_POLL"));
    assert!(is_ignored(&list, "test_poll"));
    assert!(!is_ignored(&list, "test_pol"));
    assert!(!is_ignored(&list, "puts"));
    assert!(!is_ignored(&names(&[]), "puts"));
}

#[test]
fn untrimmed_name_matches_nothing_else() {
    let list = parse_ignore_list(b"puts \n");
    assert!(!is_ignored(&list, "puts"));
    assert!(is_ignored(&list, "PUTS "));
}
