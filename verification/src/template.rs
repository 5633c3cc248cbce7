//! The fixed HTML fragments of the generated pages, each stated exactly as
//! the concatenation its renderer returns.

use vstd::prelude::*;

verus! {

/// The document head and the opening of the page content area.
pub open spec fn begin_html_spec(title: Seq<char>) -> Seq<char> {
    "\n<!DOCTYPE html>\n<html>\n<head>\n    <title>"@ + title
        + "</title>\n    <link href='/static/style.css' rel='stylesheet' type='text/css' />\n    <link rel='icon' type='image/png' href='/static/img/favicon.png' />\n    <meta charset='utf-8' />\n</head>\n<body>\n<div id='page_content'>\n"@
}

/// Open an HTML document titled `title`.
pub fn begin_html(title: &str) -> (r: String)
    ensures
        r@ == begin_html_spec(title@),
{
    let mut s = String::from_str("\n<!DOCTYPE html>\n<html>\n<head>\n    <title>");
    s.append(title);
    s.append(
        "</title>\n    <link href='/static/style.css' rel='stylesheet' type='text/css' />\n    <link rel='icon' type='image/png' href='/static/img/favicon.png' />\n    <meta charset='utf-8' />\n</head>\n<body>\n<div id='page_content'>\n",
    );
    s
}

/// The closing of the page content area and of the document.
pub open spec fn end_html_spec() -> Seq<char> {
    "\n</div> <!-- page_content -->\n</body>\n</html>\n"@
}

/// Close an HTML document opened by `begin_html`.
pub fn end_html() -> (r: String)
    ensures
        r@ == end_html_spec(),
{
    String::from_str("\n</div> <!-- page_content -->\n</body>\n</html>\n")
}

/// The blog's masthead: its title, subtitle and header image.
pub open spec fn page_header_spec(title: Seq<char>, subtitle: Seq<char>) -> Seq<char> {
    "\n<header>\n    <h1 id='blog_title'>"@ + title + "</h1>\n    <h2 id='blog_subtitle'>"@
        + subtitle + "</h2>\n    <img id='blog_img' src='/static/img/header.jpg' />\n</header>\n"@
}

/// Render the blog's masthead.
pub fn page_header(title: &str, subtitle: &str) -> (r: String)
    ensures
        r@ == page_header_spec(title@, subtitle@),
{
    let mut s = String::from_str("\n<header>\n    <h1 id='blog_title'>");
    s.append(title);
    s.append("</h1>\n    <h2 id='blog_subtitle'>");
    s.append(subtitle);
    s.append("</h2>\n    <img id='blog_img' src='/static/img/header.jpg' />\n</header>\n");
    s
}

/// The page's footer.
pub open spec fn page_footer_spec() -> Seq<char> {
    "\n<footer>\n</footer>\n"@
}

/// Render the page's footer.
pub fn page_footer() -> (r: String)
    ensures
        r@ == page_footer_spec(),
{
    String::from_str("\n<footer>\n</footer>\n")
}

/// One post's header block: the title, linked when a link is given, then the
/// author.
pub open spec fn post_header_spec(
    title: Seq<char>,
    author: Seq<char>,
    link: Option<Seq<char>>,
) -> Seq<char> {
    "<div class='post_header'>\n"@ + (match link {
        Some(l) => "<h1 class='post_title'><a href='"@ + l + "'>"@ + title + "</a></h1>\n"@,
        None => "<h1 class='post_title'>"@ + title + "</h1>\n"@,
    }) + "<p class='post_author'>"@ + author + "</p>\n"@ + "</div> <!-- post_header -->\n"@
}

/// Render one post's header block.
pub fn post_header(title: String, author: String, link: Option<String>) -> (r: String)
    ensures
        r@ == post_header_spec(
            title@,
            author@,
            match link {
                Some(l) => Some(l@),
                None => None,
            },
        ),
{
    let mut s = String::from_str("<div class='post_header'>\n");
    match link {
        Some(l) => {
            s.append("<h1 class='post_title'><a href='");
            s.append(l.as_str());
            s.append("'>");
            s.append(title.as_str());
            s.append("</a></h1>\n");
        },
        None => {
            s.append("<h1 class='post_title'>");
            s.append(title.as_str());
            s.append("</h1>\n");
        },
    }
    s.append("<p class='post_author'>");
    s.append(author.as_str());
    s.append("</p>\n");
    s.append("</div> <!-- post_header -->\n");
    proof {
        assert(s@ =~= post_header_spec(
            title@,
            author@,
            match link {
                Some(l) => Some(l@),
                None => None,
            },
        ));
    }
    s
}

/// One post's footer block, presently empty.
pub open spec fn post_footer_spec() -> Seq<char> {
    Seq::empty()
}

/// Render one post's footer block.
pub fn post_footer() -> (r: String)
    ensures
        r@ == post_footer_spec(),
{
    String::new()
}

/// The blog's stylesheet.
pub open spec fn css_spec() -> Seq<char> {
    "\nbody {\n    font-family: Georgia, 'Times New Roman', Times, serif;\n    margin: 0;\n    padding: 0;\n    background-color: #F3F3F3;\n}\nheader,\nfooter,\narticle {\n    background-color: #FFF;\n    border: 1px solid #CCC;\n}\nheader {\n    display: grid;\n    grid-template-columns: auto 150px;\n    grid-template-rows: 1fr auto auto 6fr;\n    grid-template-areas:\n        '.        img'\n        'title    img'\n        'subtitle img'\n        '.        img';\n    justify-items: center;\n}\narticle {\n    padding: 20px 40px 20px 40px;\n}\n#page_content {\n    padding: 5px;\n    background-color: #DDD;\n    max-width: 900px;\n    margin: 24px auto;\n}\na {\n    text-decoration: none;\n    color: #336699;\n}\na:hover {\n    color: #5588bb;\n}\n#blog_title {\n    grid-area: title;\n}\n#blog_subtitle {\n    grid-area: subtitle;\n    font-size: medium;\n    font-weight: normal;\n}\n#blog_img {\n    grid-area: img;\n    align-self: center;\n}\nimg {\n    max-width: 100%;\n}\n"@
}

/// Render the blog's stylesheet.
pub fn css() -> (r: String)
    ensures
        r@ == css_spec(),
{
    String::from_str(
        "\nbody {\n    font-family: Georgia, 'Times New Roman', Times, serif;\n    margin: 0;\n    padding: 0;\n    background-color: #F3F3F3;\n}\nheader,\nfooter,\narticle {\n    background-color: #FFF;\n    border: 1px solid #CCC;\n}\nheader {\n    display: grid;\n    grid-template-columns: auto 150px;\n    grid-template-rows: 1fr auto auto 6fr;\n    grid-template-areas:\n        '.        img'\n        'title    img'\n        'subtitle img'\n        '.        img';\n    justify-items: center;\n}\narticle {\n    padding: 20px 40px 20px 40px;\n}\n#page_content {\n    padding: 5px;\n    background-color: #DDD;\n    max-width: 900px;\n    margin: 24px auto;\n}\na {\n    text-decoration: none;\n    color: #336699;\n}\na:hover {\n    color: #5588bb;\n}\n#blog_title {\n    grid-area: title;\n}\n#blog_subtitle {\n    grid-area: subtitle;\n    font-size: medium;\n    font-weight: normal;\n}\n#blog_img {\n    grid-area: img;\n    align-self: center;\n}\nimg {\n    max-width: 100%;\n}\n",
    )
}

} // verus!
