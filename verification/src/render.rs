//! Page assembly around an externally rendered body: the body text of a post
//! is converted to HTML by an outside program, and these functions take that
//! program's output as an argument and build the post page and the index
//! page around it.

use vstd::prelude::*;

use crate::file::{has_key, header_value, File, FileView};
use crate::filename::{has_title_words, long_rendered_filename_spec};
use crate::header::HeaderView;
use crate::template::{
    begin_html, begin_html_spec, css, css_spec, end_html, end_html_spec, page_footer,
    page_footer_spec, page_header, page_header_spec, post_footer, post_footer_spec, post_header,
    post_header_spec,
};

verus! {

/// Whether a post's header block can be rendered: title and author must be
/// present, and, when the title is to carry a link, the link's filename must
/// be derivable.
pub open spec fn can_render_header(headers: Seq<HeaderView>, with_link: bool) -> bool {
    has_key(headers, "title"@) && has_key(headers, "author"@) && (with_link ==> (has_title_words(
        headers,
        3,
    ) && has_key(headers, "id"@)))
}

/// A post's rendered header block: its title and author, the title linked to
/// the post's rendered file when a link is wanted.
pub open spec fn rendered_post_header_spec(headers: Seq<HeaderView>, with_link: bool) -> Seq<
    char,
> {
    post_header_spec(
        header_value(headers, "title"@),
        header_value(headers, "author"@),
        if with_link {
            Some("/posts/"@ + long_rendered_filename_spec(headers))
        } else {
            None
        },
    )
}

/// Render a post's header block, when its headers allow it: a block comes
/// back exactly when title and author are present and, with a link wanted,
/// the filename is derivable.
pub fn render_post_header(pf: &File, with_link: bool) -> (r: Option<String>)
    ensures
        match r {
            Some(s) => can_render_header(pf@.headers, with_link) && s@
                == rendered_post_header_spec(pf@.headers, with_link),
            None => !can_render_header(pf@.headers, with_link),
        },
{
    let title = match pf.get_header("title") {
        Some(t) => t,
        None => {
            return None;
        },
    };
    let author = match pf.get_header("author") {
        Some(a) => a,
        None => {
            return None;
        },
    };
    let link = if with_link {
        match pf.try_long_rendered_filename() {
            Some(f) => {
                let mut l = String::from_str("/posts/");
                l.append(f.as_str());
                Some(l)
            },
            None => {
                return None;
            },
        }
    } else {
        None
    };
    Some(post_header(title, author, link))
}

/// An externally rendered body, wrapped in its enclosing division.
pub open spec fn wrapped_body_spec(rendered: Seq<char>) -> Seq<char> {
    "<div class='post_body'>\n"@ + rendered + "</div> <!-- post_body -->\n"@
}

/// Wrap an externally rendered body in its enclosing division.
pub fn wrap_post_body(rendered: &str) -> (r: String)
    ensures
        r@ == wrapped_body_spec(rendered@),
{
    let mut s = String::from_str("<div class='post_body'>\n");
    s.append(rendered);
    s.append("</div> <!-- post_body -->\n");
    s
}

/// Render a post's footer block.
pub fn render_post_footer() -> (r: String)
    ensures
        r@ == post_footer_spec(),
{
    post_footer()
}

/// One post as an article: header block, wrapped body, footer block.
pub open spec fn post_preview_spec(
    headers: Seq<HeaderView>,
    rendered: Seq<char>,
    with_links: bool,
) -> Seq<char> {
    "<article>\n"@ + rendered_post_header_spec(headers, with_links) + wrapped_body_spec(rendered)
        + post_footer_spec() + "</article>\n"@
}

/// Render one post as an article around its externally rendered body: an
/// article comes back exactly when the header block can be rendered.
pub fn render_post_preview(pf: &File, rendered_body: &str, with_links: bool) -> (r: Option<
    String,
>)
    ensures
        match r {
            Some(s) => can_render_header(pf@.headers, with_links) && s@ == post_preview_spec(
                pf@.headers,
                rendered_body@,
                with_links,
            ),
            None => !can_render_header(pf@.headers, with_links),
        },
{
    let hdr = match render_post_header(pf, with_links) {
        Some(h) => h,
        None => {
            return None;
        },
    };
    let mut s = String::from_str("<article>\n");
    s.append(hdr.as_str());
    let wrapped = wrap_post_body(rendered_body);
    s.append(wrapped.as_str());
    let foot = post_footer();
    s.append(foot.as_str());
    s.append("</article>\n");
    proof {
        assert(s@ =~= post_preview_spec(pf@.headers, rendered_body@, with_links));
    }
    Some(s)
}

/// One post's whole page: document head titled `{post title} | {blog title}`,
/// masthead, the post as an unlinked article, footer, document end.
pub open spec fn post_page_spec(
    headers: Seq<HeaderView>,
    rendered: Seq<char>,
    blog_title: Seq<char>,
    blog_subtitle: Seq<char>,
) -> Seq<char> {
    begin_html_spec(header_value(headers, "title"@) + " | "@ + blog_title) + page_header_spec(
        blog_title,
        blog_subtitle,
    ) + post_preview_spec(headers, rendered, false) + page_footer_spec() + end_html_spec()
}

/// Render one post's whole page around its externally rendered body: a page
/// comes back exactly when title and author are present.
pub fn render_post(blog_title: &str, blog_subtitle: &str, pf: &File, rendered_body: &str) -> (r:
    Option<String>)
    ensures
        match r {
            Some(s) => can_render_header(pf@.headers, false) && s@ == post_page_spec(
                pf@.headers,
                rendered_body@,
                blog_title@,
                blog_subtitle@,
            ),
            None => !can_render_header(pf@.headers, false),
        },
{
    let title = match pf.get_header("title") {
        Some(t) => t,
        None => {
            return None;
        },
    };
    let preview = match render_post_preview(pf, rendered_body, false) {
        Some(p) => p,
        None => {
            return None;
        },
    };
    let mut page_title = title;
    page_title.append(" | ");
    page_title.append(blog_title);
    let mut s = begin_html(page_title.as_str());
    let masthead = page_header(blog_title, blog_subtitle);
    s.append(masthead.as_str());
    s.append(preview.as_str());
    let foot = page_footer();
    s.append(foot.as_str());
    let closing = end_html();
    s.append(closing.as_str());
    proof {
        assert(s@ =~= post_page_spec(pf@.headers, rendered_body@, blog_title@, blog_subtitle@));
    }
    Some(s)
}

/// Whether every post of a collection can be rendered as a linked article.
pub open spec fn all_renderable(posts: Seq<FileView>) -> bool {
    forall|i: int| 0 <= i < posts.len() ==> can_render_header(#[trigger] posts[i].headers, true)
}

/// The posts of a collection as linked articles, in order, each around its
/// own externally rendered body.
pub open spec fn previews_spec(posts: Seq<FileView>, bodies: Seq<Seq<char>>) -> Seq<char>
    decreases posts.len(),
{
    if posts.len() == 0 {
        Seq::empty()
    } else {
        previews_spec(posts.drop_last(), bodies.take(posts.len() - 1)) + post_preview_spec(
            posts.last().headers,
            bodies[posts.len() - 1],
            true,
        )
    }
}

/// The index page: document head, masthead, every post as a linked article,
/// footer, document end.
pub open spec fn index_page_spec(
    blog_title: Seq<char>,
    blog_subtitle: Seq<char>,
    posts: Seq<FileView>,
    bodies: Seq<Seq<char>>,
) -> Seq<char> {
    begin_html_spec(blog_title) + page_header_spec(blog_title, blog_subtitle) + previews_spec(
        posts,
        bodies,
    ) + page_footer_spec() + end_html_spec()
}

/// Render the index page over every post and its externally rendered body,
/// in order: a page comes back exactly when every post can carry a linked
/// article.
pub fn render_index(
    blog_title: &str,
    blog_subtitle: &str,
    posts: &Vec<File>,
    rendered_bodies: &Vec<String>,
) -> (r: Option<String>)
    requires
        posts@.len() == rendered_bodies@.len(),
    ensures
        match r {
            Some(s) => all_renderable(posts@.map_values(|p: File| p@)) && s@ == index_page_spec(
                blog_title@,
                blog_subtitle@,
                posts@.map_values(|p: File| p@),
                rendered_bodies@.map_values(|b: String| b@),
            ),
            None => !all_renderable(posts@.map_values(|p: File| p@)),
        },
{
    let ghost pviews = posts@.map_values(|p: File| p@);
    let ghost bviews = rendered_bodies@.map_values(|b: String| b@);
    let mut previews = String::new();
    let mut i: usize = 0;
    proof {
        assert(previews@ =~= previews_spec(pviews.take(0), bviews.take(0)));
    }
    while i < posts.len()
        invariant
            0 <= i <= posts@.len(),
            posts@.len() == rendered_bodies@.len(),
            pviews == posts@.map_values(|p: File| p@),
            bviews == rendered_bodies@.map_values(|b: String| b@),
            previews@ == previews_spec(pviews.take(i as int), bviews.take(i as int)),
            forall|j: int| 0 <= j < i ==> can_render_header(#[trigger] pviews[j].headers, true),
        decreases posts@.len() - i,
    {
        match render_post_preview(&posts[i], rendered_bodies[i].as_str(), true) {
            Some(p) => {
                previews.append(p.as_str());
                proof {
                    let pt = pviews.take(i as int + 1);
                    let bt = bviews.take(i as int + 1);
                    assert(pt.drop_last() =~= pviews.take(i as int));
                    assert(bt.take(pt.len() - 1) =~= bviews.take(i as int));
                    assert(pt.last() == pviews[i as int]);
                    assert(bt[pt.len() - 1] == bviews[i as int]);
                }
            },
            None => {
                proof {
                    assert(!can_render_header(pviews[i as int].headers, true));
                }
                return None;
            },
        }
        i = i + 1;
    }
    proof {
        assert(pviews.take(pviews.len() as int) =~= pviews);
        assert(bviews.take(bviews.len() as int) =~= bviews);
    }
    let mut s = begin_html(blog_title);
    let masthead = page_header(blog_title, blog_subtitle);
    s.append(masthead.as_str());
    s.append(previews.as_str());
    let foot = page_footer();
    s.append(foot.as_str());
    let closing = end_html();
    s.append(closing.as_str());
    proof {
        assert(s@ =~= index_page_spec(blog_title@, blog_subtitle@, pviews, bviews));
    }
    Some(s)
}

/// Render the blog's stylesheet.
pub fn render_css() -> (r: String)
    ensures
        r@ == css_spec(),
{
    css()
}

} // verus!
