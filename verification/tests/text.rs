use enrollment_bot::text::{
    find_delimiter, find_newline, same_text, split_lines, to_chars, trim_quotes_span, Span,
};

fn cut(text: &str, span: Span) -> String {
    text.chars().skip(span.start).take(span.end - span.start).collect()
}

fn lines_by_spans(text: &str) -> Vec<String> {
    let chars = to_chars(text);
    split_lines(&chars).into_iter().map(|span| cut(text, span)).collect()
}

fn lines_by_std(text: &str) -> Vec<String> {
    text.lines().map(|line| line.to_string()).collect()
}

#[test]
fn to_chars_gives_each_character() {
    assert_eq!(to_chars(""), Vec::<char>::new());
    assert_eq!(to_chars("a: é"), vec!['a', ':', ' ', 'é']);
}

#[test]
fn same_text_compares_characters() {
    assert!(same_text("!hello", "!hello"));
    assert!(same_text("", ""));
    assert!(!same_text("!hello", "!hello "));
    assert!(!same_text("a", "b"));
}

#[test]
fn find_newline_gives_the_first_at_or_after_the_start() {
    let chars = to_chars("ab\ncd\n");
    assert_eq!(find_newline(&chars, 0), 2);
    assert_eq!(find_newline(&chars, 2), 2);
    assert_eq!(find_newline(&chars, 3), 5);
    assert_eq!(find_newline(&chars, 6), 6);
    assert_eq!(find_newline(&to_chars("abc"), 0), 3);
}

#[test]
fn split_lines_splits_as_std_does() {
    for text in [
        "",
        "a",
        "a\n",
        "a\nb",
        "a\n\nb",
        "\n",
        "\n\n",
        "a\r\nb",
        "a\r\n",
        "a\r",
        "a\rb\n",
        "\r\n",
        "\r\r\n",
        "a\n\r",
        "é\nü\r\n机",
    ] {
        assert_eq!(lines_by_spans(text), lines_by_std(text), "lines of {:?}", text);
    }
}

#[test]
fn split_lines_gives_spans_in_characters() {
    let chars = to_chars("é\nab\r\nc");
    let spans = split_lines(&chars);
    assert_eq!(spans.len(), 3);
    assert_eq!((spans[0].start, spans[0].end), (0, 1));
    assert_eq!((spans[1].start, spans[1].end), (2, 4));
    assert_eq!((spans[2].start, spans[2].end), (6, 7));
}

#[test]
fn find_delimiter_gives_the_first_inside_the_span() {
    let chars = to_chars("a: b: c");
    let whole = Span { start: 0, end: chars.len() };
    assert_eq!(find_delimiter(&chars, whole), 1);
    assert_eq!(find_delimiter(&chars, Span { start: 2, end: 7 }), 4);
    assert_eq!(find_delimiter(&chars, Span { start: 5, end: 7 }), 7);
    assert_eq!(find_delimiter(&chars, Span { start: 0, end: 2 }), 2);
    assert_eq!(find_delimiter(&chars, Span { start: 3, end: 3 }), 3);
    let none = to_chars("a:b :c:");
    assert_eq!(find_delimiter(&none, Span { start: 0, end: none.len() }), none.len());
}

#[test]
fn trim_quotes_span_strips_all_quotes_around() {
    for (text, inner) in [
        ("\"abc\"", "abc"),
        ("\"\"abc\"", "abc"),
        ("abc", "abc"),
        ("\"a\"b\"", "a\"b"),
        ("\"\"", ""),
        ("\"", ""),
        ("", ""),
        ("'abc'", "'abc'"),
    ] {
        let chars = to_chars(text);
        let span = trim_quotes_span(&chars, Span { start: 0, end: chars.len() });
        assert_eq!(cut(text, span), inner);
        assert_eq!(inner, text.trim_matches('"'));
    }
}
