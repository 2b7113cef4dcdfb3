use markdown_frontmatter::text::chars_of;
use markdown_frontmatter::text::lines_of;

fn lines(text: &str) -> Vec<String> {
    lines_of(text).iter().map(|line| line.iter().collect()).collect()
}

#[test]
fn chars_of_gives_every_character() {
    assert_eq!(chars_of(""), Vec::<char>::new());
    assert_eq!(chars_of("a\u{e9}\u{1f600}\n"), vec!['a', '\u{e9}', '\u{1f600}', '\n']);
}

#[test]
fn lines_of_divides_at_line_feeds() {
    assert_eq!(lines(""), Vec::<String>::new());
    assert_eq!(lines("a"), vec!["a"]);
    assert_eq!(lines("a\n"), vec!["a"]);
    assert_eq!(lines("\n"), vec![""]);
    assert_eq!(lines("\n\n"), vec!["", ""]);
    assert_eq!(lines("a\nb"), vec!["a", "b"]);
    assert_eq!(lines("a\n\nb\n"), vec!["a", "", "b"]);
    assert_eq!(lines("\na"), vec!["", "a"]);
}

#[test]
fn lines_of_takes_a_carriage_return_before_a_line_feed_away() {
    assert_eq!(lines("a\r\nb\r\n"), vec!["a", "b"]);
    assert_eq!(lines("\r\n"), vec![""]);
    assert_eq!(lines("a\r"), vec!["a\r"]);
    assert_eq!(lines("a\rb\nc"), vec!["a\rb", "c"]);
    assert_eq!(lines("a\r\r\nb"), vec!["a\r", "b"]);
    assert_eq!(lines("\r"), vec!["\r"]);
    assert_eq!(lines("a\n\rb"), vec!["a", "\rb"]);
}

#[test]
fn lines_of_agrees_with_std() {
    let texts = [
        "",
        "\n",
        "\r",
        "\r\n",
        "\n\r",
        "one",
        "one\ntwo\r\nthree\rfour\r\r\n\nfive\n",
        "---\r\ntitle: x\r\n---\r\n\r\n# T\r\n",
        "tr\u{e8}s\nbien\u{2028}s\u{fb}r\n",
        "\n\n\n",
        "a\r\n\r",
    ];
    for text in texts {
        let theirs: Vec<String> = text.lines().map(|line| line.to_string()).collect();
        assert_eq!(lines(text), theirs, "{text:?}");
    }
}
