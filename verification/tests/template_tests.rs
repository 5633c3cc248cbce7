use reb::template::{begin_html, css, end_html, page_footer, page_header, post_footer, post_header};

#[test]
fn begin_html_embeds_title() {
    let s = begin_html("My Blog");
    assert!(s.starts_with("\n<!DOCTYPE html>"));
    assert!(s.contains("<title>My Blog</title>"));
    assert!(s.ends_with("<div id='page_content'>\n"));
}

#[test]
fn end_html_closes_the_page() {
    assert_eq!(end_html(), "\n</div> <!-- page_content -->\n</body>\n</html>\n");
}

#[test]
fn page_header_embeds_title_and_subtitle() {
    let s = page_header("A Title", "A Subtitle");
    assert_eq!(
        s,
        "\n<header>\n    <h1 id='blog_title'>A Title</h1>\n    <h2 id='blog_subtitle'>A Subtitle</h2>\n    <img id='blog_img' src='/static/img/header.jpg' />\n</header>\n"
    );
}

#[test]
fn page_footer_is_fixed() {
    assert_eq!(page_footer(), "\n<footer>\n</footer>\n");
}

#[test]
fn post_header_without_link() {
    let s = post_header("T".to_string(), "A".to_string(), None);
    assert_eq!(
        s,
        "<div class='post_header'>\n<h1 class='post_title'>T</h1>\n<p class='post_author'>A</p>\n</div> <!-- post_header -->\n"
    );
}

#[test]
fn post_header_with_link() {
    let s = post_header("T".to_string(), "A".to_string(), Some("/posts/x.html".to_string()));
    assert_eq!(
        s,
        "<div class='post_header'>\n<h1 class='post_title'><a href='/posts/x.html'>T</a></h1>\n<p class='post_author'>A</p>\n</div> <!-- post_header -->\n"
    );
}

#[test]
fn post_footer_is_empty() {
    assert_eq!(post_footer(), "");
}

#[test]
fn css_is_the_stylesheet() {
    let s = css();
    assert!(s.starts_with("\nbody {"));
    assert!(s.contains("font-family: Georgia, 'Times New Roman', Times, serif;"));
    assert!(s.ends_with("img {\n    max-width: 100%;\n}\n"));
}
