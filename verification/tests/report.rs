use annatar::error_lines;

#[test]
fn errors_wrap_to_the_terminal() {
    assert_eq!(error_lines("aaa bbb ccc", 5), vec!["aaa", "bbb", "ccc"]);
    assert_eq!(error_lines("short", 200), vec!["short"]);
}

#[test]
fn errors_wrap_at_most_eighty_columns() {
    let message = "word ".repeat(40);
    let lines = error_lines(&message, 500);
    assert!(lines.len() > 1);
    assert!(lines.iter().all(|l| l.chars().count() <= 80));
    let expected: Vec<String> = textwrap::wrap(&message, 80).into_iter().map(|l| l.into_owned()).collect();
    assert_eq!(lines, expected);
    assert_eq!(error_lines("ab cd", 0), vec!["a", "b", "c", "d"]);
}
