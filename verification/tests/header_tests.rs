use reb::error::PostParseError;
use reb::header::HeaderLine;

#[test]
fn trimming() {
    for text in vec!["aaaa:bbbb", "aaaa: bbbb", " aaaa : bbbb "] {
        let h = HeaderLine::new(text).unwrap();
        assert_eq!(h.key, "aaaa");
        assert_eq!(h.value, "bbbb");
    }
}

#[test]
fn multiword() {
    let h = HeaderLine::new("Alpha Bet: Soup Four").unwrap();
    assert_eq!(h.key, "Alpha Bet");
    assert_eq!(h.value, "Soup Four");
}

#[test]
fn invalid() {
    for text in vec!["nocolon", "", ":", "a:", ":b"] {
        let h = HeaderLine::new(text);
        assert!(h.is_err());
    }
}

#[test]
fn value_keeps_later_colons() {
    let h = HeaderLine::new("time: 12:30:00").unwrap();
    assert_eq!(h.key, "time");
    assert_eq!(h.value, "12:30:00");
}

#[test]
fn raw_text_kept_untrimmed() {
    let h = HeaderLine::new(" aaaa : bbbb ").unwrap();
    assert_eq!(h.raw_text(), " aaaa : bbbb ");
}

#[test]
fn not_a_header_carries_the_line() {
    match HeaderLine::new("nocolon") {
        Err(PostParseError::NotAHeader(line)) => assert_eq!(line, "nocolon"),
        _ => panic!("expected NotAHeader"),
    }
}

#[test]
fn error_messages() {
    let e = PostParseError::NotAHeader(String::from("nocolon"));
    assert_eq!(e.message(), "NotAHeader: nocolon");
    let e = PostParseError::MissingHeaders(String::from("author, id"));
    assert_eq!(e.message(), "MissingHeaders: author, id");
    let e = PostParseError::IOError(String::from("stream closed"));
    assert_eq!(e.message(), "IOError: stream closed");
}
