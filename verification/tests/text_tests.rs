use zindex_tree::text::{chars_of, split_lines};

fn std_lines(content: &str) -> Vec<String> {
    content.lines().map(|line| line.to_string()).collect()
}

#[test]
fn chars_of_keeps_every_character() {
    assert_eq!(chars_of("a├b"), vec!['a', '├', 'b']);
    assert_eq!(chars_of(""), Vec::<char>::new());
}

#[test]
fn empty_text_has_no_lines() {
    assert_eq!(split_lines(""), Vec::<String>::new());
}

#[test]
fn final_line_feed_opens_no_line() {
    assert_eq!(split_lines("one\ntwo\n"), vec!["one", "two"]);
    assert_eq!(split_lines("one\ntwo"), vec!["one", "two"]);
}

#[test]
fn blank_lines_are_lines() {
    assert_eq!(split_lines("\n"), vec![""]);
    assert_eq!(split_lines("\n\n"), vec!["", ""]);
    assert_eq!(split_lines("a\n\nb"), vec!["a", "", "b"]);
}

#[test]
fn carriage_return_before_line_feed_is_dropped() {
    assert_eq!(split_lines("one\r\ntwo\r\n"), vec!["one", "two"]);
    assert_eq!(split_lines("\r\n"), vec![""]);
}

#[test]
fn lone_carriage_returns_stay_in_the_line() {
    assert_eq!(split_lines("a\rb\n"), vec!["a\rb"]);
    assert_eq!(split_lines("a\r\r\nb"), vec!["a\r", "b"]);
    assert_eq!(split_lines("last\r"), vec!["last\r"]);
    assert_eq!(split_lines("\r"), vec!["\r"]);
}

#[test]
fn split_lines_agrees_with_the_standard_library() {
    let samples = [
        "",
        "\n",
        "\r",
        "\r\n",
        "\n\r",
        "\r\r\n",
        "a",
        "a\n",
        "a\r",
        "a\r\n",
        "a\nb",
        "a\r\nb\r\n",
        "a\n\n\nb\n\n",
        "a\rb\r\nc\r",
        "z-[10]\r\nzIndex: 5\nz-index:\t7\r",
        "├─ ünïcödé\r\n└─ ٣\n",
        "\n\r\n\r\r\n\r",
    ];
    for sample in samples {
        assert_eq!(split_lines(sample), std_lines(sample), "sample {:?}", sample);
    }
}
