use reb::file::{File, FileOpts};

fn post(text: &str) -> File {
    File::new_from_text(text, None, Some(FileOpts { strict_headers: false })).unwrap()
}

#[test]
fn rendered_filename_from_title_and_id() {
    let pf = post("Title: Alpha Beta Gamma Delta\nID: ab12\n\nBody");
    assert_eq!(pf.try_long_rendered_filename().unwrap(), "alpha-beta-gamma-ab12.html");
    assert_eq!(pf.try_suggested_source_filename().unwrap(), "alpha-beta-gamma-ab12.reb");
}

#[test]
fn filename_title_is_case_folded() {
    let pf = post("Title: BIG Loud WORDS here\nID: XYZ9\n\nBody");
    assert_eq!(pf.try_long_rendered_filename().unwrap(), "big-loud-words-XYZ9.html");
}

#[test]
fn filename_needs_id() {
    let pf = post("Title: Alpha Beta Gamma\n\nBody");
    assert_eq!(pf.try_long_rendered_filename(), None);
    assert_eq!(pf.try_suggested_source_filename(), None);
}

#[test]
fn filename_needs_title() {
    let pf = post("ID: ab12\n\nBody");
    assert_eq!(pf.try_long_rendered_filename(), None);
}

#[test]
fn filename_needs_three_title_words() {
    let pf = post("Title: Two words\nID: ab12\n\nBody");
    assert_eq!(pf.try_long_rendered_filename(), None);
    let pf = post("Title: Now three words\nID: ab12\n\nBody");
    assert_eq!(pf.try_long_rendered_filename().unwrap(), "now-three-words-ab12.html");
}
