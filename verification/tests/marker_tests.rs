use mdbook_markers::error::ConfigError;
use mdbook_markers::marker::drain_span;
use mdbook_markers::marker::span_of_capture;
use mdbook_markers::marker::Grammar;
use mdbook_markers::marker::MarkerPattern;

#[test]
fn pattern_text_for_payloads() {
    assert_eq!(MarkerPattern::source_for("collect", Grammar::Payload), "<!-- ?collect((?s).*?)-->");
}

#[test]
fn pattern_text_for_tags() {
    assert_eq!(MarkerPattern::source_for("tags", Grammar::Tags), "<!-- ?tags:?((?s).*?)-->");
}

#[test]
fn compile_accepts_a_plain_token() {
    assert!(MarkerPattern::compile("collect", Grammar::Payload).is_ok());
    assert!(MarkerPattern::compile("tags", Grammar::Tags).is_ok());
}

#[test]
fn compile_reports_the_token_that_cannot_be_used() {
    match MarkerPattern::compile("col(lect", Grammar::Payload) {
        Err(ConfigError::BadMarker { marker }) => assert_eq!(marker, "col(lect"),
        _ => panic!("an unclosed group must not compile"),
    }
}

#[test]
fn bad_marker_message_quotes_the_marker() {
    let err = MarkerPattern::compile("a\"(", Grammar::Tags).err().unwrap();
    assert_eq!(
        err.message(),
        "marker \"a\\\"(\" has failed to be parsed into regular expression"
    );
}

#[test]
fn find_first_gives_span_and_literal() {
    let p = MarkerPattern::compile("collect", Grammar::Payload).unwrap();
    let m = p.find_first("intro <!-- collect {\"x\":1} --> rest").unwrap();
    assert_eq!(m.start, 6);
    assert_eq!(m.end, 30);
    assert_eq!(m.literal, " {\"x\":1} ");
}

#[test]
fn find_first_without_the_space_after_the_opener() {
    let p = MarkerPattern::compile("collect", Grammar::Payload).unwrap();
    let m = p.find_first("<!--collect{}-->").unwrap();
    assert_eq!((m.start, m.end), (0, 16));
    assert_eq!(m.literal, "{}");
}

#[test]
fn find_first_is_none_without_a_marker() {
    let p = MarkerPattern::compile("collect", Grammar::Payload).unwrap();
    assert!(p.find_first("no marker here").is_none());
    assert!(p.find_first("<!-- Collect {} -->").is_none());
    assert!(p.find_first("<!-- collect {} ").is_none());
    assert!(p.find_first("").is_none());
}

#[test]
fn find_first_stops_at_the_first_closer() {
    let p = MarkerPattern::compile("collect", Grammar::Payload).unwrap();
    let text = "<!-- collect a --> mid <!-- collect b --> end -->";
    let m = p.find_first(text).unwrap();
    assert_eq!((m.start, m.end), (0, 18));
    assert_eq!(m.literal, " a ");
}

#[test]
fn find_first_spans_lines() {
    let p = MarkerPattern::compile("collect", Grammar::Payload).unwrap();
    let text = "a\n<!-- collect\n{\n\"x\": 1\n}\n-->\nb";
    let m = p.find_first(text).unwrap();
    assert_eq!(m.literal, "\n{\n\"x\": 1\n}\n");
    assert_eq!(&text[m.start..m.end], "<!-- collect\n{\n\"x\": 1\n}\n-->");
}

#[test]
fn find_first_counts_bytes() {
    let p = MarkerPattern::compile("tags", Grammar::Tags).unwrap();
    let m = p.find_first("é✓<!-- tags: ü -->é").unwrap();
    assert_eq!((m.start, m.end), (5, 22));
    assert_eq!(m.literal, " ü ");
}

#[test]
fn tags_colon_is_optional() {
    let p = MarkerPattern::compile("tags", Grammar::Tags).unwrap();
    assert_eq!(p.find_first("<!-- tags: a -->").unwrap().literal, " a ");
    assert_eq!(p.find_first("<!-- tags a -->").unwrap().literal, " a ");
}

#[test]
fn find_first_needs_the_capture_group() {
    let p = MarkerPattern::compile("x|y", Grammar::Payload).unwrap();
    assert!(p.find_first("<!-- x").is_none());
    assert_eq!(p.find_first("y z -->").unwrap().literal, " z ");
}

#[test]
fn find_first_does_not_touch_the_text() {
    let p = MarkerPattern::compile("collect", Grammar::Payload).unwrap();
    let text = String::from("a <!-- collect {} --> b");
    let _ = p.find_first(&text);
    assert_eq!(text, "a <!-- collect {} --> b");
}

#[test]
fn drain_span_removes_exactly_the_span() {
    let mut text = String::from("intro <!-- collect {\"x\":1} --> rest");
    drain_span(&mut text, 6, 30);
    assert_eq!(text, "intro  rest");
}

#[test]
fn drain_span_of_nothing_changes_nothing() {
    let mut text = String::from("héllo");
    drain_span(&mut text, 3, 3);
    assert_eq!(text, "héllo");
}

#[test]
fn drain_span_keeps_the_bytes_around_it() {
    let mut text = String::from("é✓<!-- tags: ü -->é");
    let before = text.clone().into_bytes();
    drain_span(&mut text, 5, 22);
    let mut expected = before[..5].to_vec();
    expected.extend_from_slice(&before[22..]);
    assert_eq!(text.into_bytes(), expected);
}

#[test]
fn drain_span_of_everything_leaves_nothing() {
    let mut text = String::from("<!-- tags: go; rust; -->");
    let end = text.len();
    drain_span(&mut text, 0, end);
    assert_eq!(text, "");
}

#[test]
fn a_capture_without_its_group_is_no_marker() {
    assert!(span_of_capture(None).is_none());
    assert!(span_of_capture(Some((0, 6, None))).is_none());
    let m = span_of_capture(Some((2, 9, Some("lit".to_string())))).unwrap();
    assert_eq!((m.start, m.end), (2, 9));
    assert_eq!(m.literal, "lit");
}
