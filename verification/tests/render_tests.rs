use reb::file::{File, FileOpts};
use reb::render::{
    render_css, render_index, render_post, render_post_footer, render_post_header,
    render_post_preview, wrap_post_body,
};
use reb::template::{begin_html, end_html, page_footer, page_header};

fn post(text: &str) -> File {
    File::new_from_text(text, None, Some(FileOpts { strict_headers: false })).unwrap()
}

#[test]
fn wrap_post_body_wraps() {
    assert_eq!(
        wrap_post_body("<p>hello</p>\n"),
        "<div class='post_body'>\n<p>hello</p>\n</div> <!-- post_body -->\n"
    );
}

#[test]
fn post_header_rendered_without_link() {
    let pf = post("Title: T\nAuthor: A\n\nBody");
    let s = render_post_header(&pf, false).unwrap();
    assert_eq!(
        s,
        "<div class='post_header'>\n<h1 class='post_title'>T</h1>\n<p class='post_author'>A</p>\n</div> <!-- post_header -->\n"
    );
}

#[test]
fn post_header_rendered_with_link() {
    let pf = post("Title: Alpha Beta Gamma\nAuthor: A\nID: ab12\n\nBody");
    let s = render_post_header(&pf, true).unwrap();
    assert!(s.contains("<a href='/posts/alpha-beta-gamma-ab12.html'>Alpha Beta Gamma</a>"));
}

#[test]
fn post_header_needs_title_and_author() {
    let pf = post("Title: T\n\nBody");
    assert_eq!(render_post_header(&pf, false), None);
    let pf = post("Author: A\n\nBody");
    assert_eq!(render_post_header(&pf, false), None);
}

#[test]
fn post_header_with_link_needs_derivable_filename() {
    let pf = post("Title: Too short\nAuthor: A\nID: ab12\n\nBody");
    assert!(render_post_header(&pf, false).is_some());
    assert_eq!(render_post_header(&pf, true), None);
}

#[test]
fn preview_composes_header_body_footer() {
    let pf = post("Title: T\nAuthor: A\n\nBody");
    let s = render_post_preview(&pf, "<p>rendered</p>\n", false).unwrap();
    let expected = format!(
        "<article>\n{}{}{}</article>\n",
        render_post_header(&pf, false).unwrap(),
        wrap_post_body("<p>rendered</p>\n"),
        render_post_footer(),
    );
    assert_eq!(s, expected);
}

#[test]
fn post_page_composes_around_the_preview() {
    let pf = post("Title: T\nAuthor: A\n\nBody");
    let s = render_post("Blog", "Sub", &pf, "<p>rendered</p>\n").unwrap();
    let expected = format!(
        "{}{}{}{}{}",
        begin_html("T | Blog"),
        page_header("Blog", "Sub"),
        render_post_preview(&pf, "<p>rendered</p>\n", false).unwrap(),
        page_footer(),
        end_html(),
    );
    assert_eq!(s, expected);
}

#[test]
fn index_page_lists_every_post() {
    let a = post("Title: Alpha Beta Gamma\nAuthor: A\nID: aa11\n\nBody A");
    let b = post("Title: Delta Epsilon Zeta\nAuthor: B\nID: bb22\n\nBody B");
    let bodies = vec!["<p>A</p>\n".to_string(), "<p>B</p>\n".to_string()];
    let expected = format!(
        "{}{}{}{}{}{}",
        begin_html("Blog"),
        page_header("Blog", "Sub"),
        render_post_preview(&a, "<p>A</p>\n", true).unwrap(),
        render_post_preview(&b, "<p>B</p>\n", true).unwrap(),
        page_footer(),
        end_html(),
    );
    let posts = vec![a, b];
    let s = render_index("Blog", "Sub", &posts, &bodies).unwrap();
    assert_eq!(s, expected);
}

#[test]
fn index_page_needs_every_post_renderable() {
    let a = post("Title: Alpha Beta Gamma\nAuthor: A\nID: aa11\n\nBody A");
    let b = post("Title: No id here\nAuthor: B\n\nBody B");
    let posts = vec![a, b];
    let bodies = vec!["<p>A</p>\n".to_string(), "<p>B</p>\n".to_string()];
    assert_eq!(render_index("Blog", "Sub", &posts, &bodies), None);
}

#[test]
fn css_rendering_matches_template() {
    assert_eq!(render_css(), reb::template::css());
}
