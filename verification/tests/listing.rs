use linty::listing::split_lines;

fn lines(text: &str) -> Vec<String> {
    split_lines(text.as_bytes()).into_iter().map(|l| String::from_utf8(l).unwrap()).collect()
}

fn expected(text: &str) -> Vec<String> {
    text.lines().map(|l| l.to_string()).collect()
}

#[test]
fn listing_gives_one_path_per_line() {
    assert_eq!(lines("src/main.rs\nREADME.md\n"), vec!["src/main.rs", "README.md"]);
    assert_eq!(lines("src/main.rs\nREADME.md"), vec!["src/main.rs", "README.md"]);
}

#[test]
fn empty_listing_has_no_lines() {
    assert!(lines("").is_empty());
}

#[test]
fn final_line_ending_adds_no_empty_line() {
    assert_eq!(lines("a\n"), vec!["a"]);
    assert_eq!(lines("\n"), vec![""]);
    assert_eq!(lines("a\n\n"), vec!["a", ""]);
    assert_eq!(lines("\n\na"), vec!["", "", "a"]);
}

#[test]
fn carriage_return_before_newline_belongs_to_the_line_ending() {
    assert_eq!(lines("a\r\nb\r\n"), vec!["a", "b"]);
    assert_eq!(lines("a\r\r\nb"), vec!["a\r", "b"]);
    assert_eq!(lines("\r\n"), vec![""]);
}

#[test]
fn lone_carriage_return_stays_in_the_line() {
    assert_eq!(lines("a\rb\n"), vec!["a\rb"]);
    assert_eq!(lines("a\r"), vec!["a\r"]);
    assert_eq!(lines("a\n\r"), vec!["a", "\r"]);
}

#[test]
fn splitting_agrees_with_the_standard_library() {
    let samples = [
        "",
        "\n",
        "\r",
        "\r\n",
        "a",
        "a\n",
        "a\r\n",
        "a\nb",
        "a\r\nb\r\n",
        "a\n\nb\n",
        "one two\n three \r\n\r\nfour\r",
        "päth/ä.txt\nzwei\n",
        "\n\n\n",
        "x\r\r\n\ry\n",
    ];
    for sample in samples {
        assert_eq!(lines(sample), expected(sample), "{:?}", sample);
    }
}

#[test]
fn bytes_that_are_not_text_pass_through() {
    let parts = split_lines(&[0xff, 10, 0xfe, 13, 10, 13]);
    assert_eq!(parts, vec![vec![0xff], vec![0xfe], vec![13]]);
}
