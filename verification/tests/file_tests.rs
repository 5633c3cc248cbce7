use reb::error::PostParseError;
use reb::file::{File, FileOpts};

fn lines_of(text: &str) -> Vec<String> {
    text.split('\n').map(|l| l.to_string()).collect()
}

fn lenient() -> Option<FileOpts> {
    Some(FileOpts { strict_headers: false })
}

#[test]
fn first_line_blank() {
    let text = "\naaaa: bbbb\n\nHi there";
    let pf = File::new_from_buf(lines_of(text), None, lenient()).unwrap();
    assert_eq!(pf.headers.len(), 1);
    assert!(pf.has_header("aaaa"));
    assert_eq!(pf.get_header("aaaa").unwrap(), "bbbb");
    assert_eq!(pf.body, "Hi there");
    assert_eq!(pf.serialize(), text);
}

#[test]
fn no_headers() {
    let text = "\nHi there";
    let err = File::new_from_buf(lines_of(text), None, lenient());
    assert!(err.is_err());
}

#[test]
fn valid_header() {
    let text = "Aaaa: bbbb\n\nHi There";
    let pf = File::new_from_buf(lines_of(text), None, lenient()).unwrap();
    assert_eq!(pf.headers.len(), 1);
    for key in vec!["aaaa", "AAAA", "Aaaa", "aAaA"] {
        assert!(pf.has_header(key));
        assert_eq!(pf.get_header(key).unwrap(), "bbbb");
    }
}

#[test]
fn missing_header() {
    let text = "";
    let pf = File::new_from_buf(lines_of(text), None, lenient()).unwrap();
    assert_eq!(pf.headers.len(), 0);
    assert!(!pf.has_header("aaaa"));
    assert_eq!(pf.get_header("aaaa"), None);
}

#[test]
fn one_header_then_body() {
    let pf = File::new_from_text("Aaaa: bbbb\n\nHi There", None, lenient()).unwrap();
    assert_eq!(pf.headers.len(), 1);
    assert_eq!(pf.headers[0].key, "Aaaa");
    assert_eq!(pf.headers[0].value, "bbbb");
    assert_eq!(pf.get_body(), "Hi There");
}

#[test]
fn empty_input_lenient() {
    let pf = File::new_from_text("", None, lenient()).unwrap();
    assert_eq!(pf.headers.len(), 0);
    assert_eq!(pf.get_body(), "");
    assert!(!pf.has_header("aaaa"));
}

#[test]
fn required_keys_present() {
    let text = "Title: X\nAuthor: Y\n\nBody";
    let required = vec!["title".to_string(), "author".to_string()];
    let pf = File::new_with_policy(lines_of(text), None, true, &required).unwrap();
    assert_eq!(pf.headers.len(), 2);
    assert_eq!(pf.get_body(), "Body");
}

#[test]
fn required_key_absent_strict() {
    let text = "Title: X\n\nBody";
    let required = vec!["title".to_string(), "author".to_string()];
    match File::new_with_policy(lines_of(text), None, true, &required) {
        Err(PostParseError::MissingHeaders(m)) => assert_eq!(m, "author"),
        _ => panic!("expected MissingHeaders"),
    }
}

#[test]
fn required_key_absent_lenient() {
    let text = "Title: X\n\nBody";
    let required = vec!["title".to_string(), "author".to_string()];
    let pf = File::new_with_policy(lines_of(text), None, false, &required).unwrap();
    assert_eq!(pf.get_body(), "Body");
}

#[test]
fn bad_line_fails_in_any_mode() {
    let text = "nocolon\n\nBody";
    for strict in vec![true, false] {
        match File::new_from_buf(lines_of(text), None, Some(FileOpts { strict_headers: strict })) {
            Err(PostParseError::NotAHeader(line)) => assert_eq!(line, "nocolon"),
            _ => panic!("expected NotAHeader"),
        }
    }
}

#[test]
fn default_policy_is_strict() {
    let text = "Title: X\nAuthor: Y\n\nBody";
    match File::new_from_buf(lines_of(text), None, None) {
        Err(PostParseError::MissingHeaders(m)) => assert_eq!(m, "id, date"),
        _ => panic!("expected MissingHeaders"),
    }
    let full = "Title: X\nAuthor: Y\nID: ab12\nDate: today\n\nBody";
    let pf = File::new_from_buf(lines_of(full), None, None).unwrap();
    assert!(pf.has_required_headers().is_ok());
}

#[test]
fn has_required_headers_lists_all_missing() {
    let pf = File::new_from_text("Author: Y\n\nBody", None, lenient()).unwrap();
    match pf.has_required_headers() {
        Err(m) => assert_eq!(m, "title, id, date"),
        Ok(()) => panic!("expected missing keys"),
    }
}

#[test]
fn round_trip_serialize() {
    let text = "# a comment\nTitle: X\n\nBody line 1\n\nBody line 2\n";
    let pf = File::new_from_text(text, None, lenient()).unwrap();
    assert_eq!(pf.serialize(), text);
    assert_eq!(pf.get_body(), "Body line 1\n\nBody line 2\n");
    assert_eq!(pf.headers.len(), 1);
}

#[test]
fn comments_skipped_and_kept_in_text() {
    let text = "# before\nAaaa: bbbb\n# after\n\nBody";
    let pf = File::new_from_text(text, None, lenient()).unwrap();
    assert_eq!(pf.headers.len(), 1);
    assert_eq!(pf.get_body(), "Body");
    assert_eq!(pf.serialize(), text);
}

#[test]
fn duplicate_keys_first_match_wins() {
    let text = "Title: first\nTITLE: second\n\nBody";
    let pf = File::new_from_text(text, None, lenient()).unwrap();
    assert_eq!(pf.headers.len(), 2);
    for key in vec!["title", "Title", "TITLE"] {
        assert_eq!(pf.get_header(key).unwrap(), "first");
    }
}

#[test]
fn has_header_iff_get_header() {
    let pf = File::new_from_text("Aaaa: bbbb\n\nBody", None, lenient()).unwrap();
    for key in vec!["aaaa", "AAAA", "Aaaa", "bbbb", "missing", ""] {
        assert_eq!(pf.has_header(key), pf.get_header(key).is_some());
    }
}

#[test]
fn blank_line_without_header_is_skipped() {
    let text = "\n\nAaaa: bbbb\n\nBody";
    let pf = File::new_from_text(text, None, lenient()).unwrap();
    assert_eq!(pf.headers.len(), 1);
    assert_eq!(pf.get_body(), "Body");
    assert_eq!(pf.serialize(), text);
}

#[test]
fn leading_comments_and_blanks_tolerated() {
    let text = "# a comment first\n\nAaaa: bbbb\n\nBody";
    let pf = File::new_from_text(text, None, lenient()).unwrap();
    assert_eq!(pf.headers.len(), 1);
    assert_eq!(pf.get_body(), "Body");
    assert_eq!(pf.serialize(), text);
}

#[test]
fn last_modified_recorded() {
    let pf = File::new_from_text("Aaaa: bbbb", Some(1234), lenient()).unwrap();
    assert_eq!(pf.last_modified, Some(1234));
    let mut pf2 = File::new_from_text("Aaaa: bbbb", None, lenient()).unwrap();
    assert_eq!(pf2.last_modified, None);
    pf2.set_last_modified(99);
    assert_eq!(pf2.last_modified, Some(99));
}
