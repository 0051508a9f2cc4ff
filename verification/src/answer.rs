//! An answer as the site shows it: a post with its title and content
//! rendered to HTML.
use vstd::prelude::*;

use crate::decimal::{decimal_text, int_to_decimal, law_decimal_round_trip, parse_i32_text};
use crate::highlight::{highlight_blocks, highlight_code_blocks};
use crate::links::{link_bare_urls, linkify};
use crate::markup::{markdown_html, render_markdown};
use crate::models::Post;
use crate::text::{push_str, string_from_chars};

verus! {

/// A post prepared for display.
#[derive(Debug, Clone)]
pub struct Answer {
    pub id: String,
    pub title: String,
    pub title_html: String,
    pub asof: String,
    pub content: String,
    pub content_html: String,
    pub answered: bool,
}

/// Markdown of the heading that shows a title.
pub open spec fn title_markdown(title: Seq<char>) -> Seq<char> {
    "## "@ + title
}

/// HTML of a post's title: a level-two heading.
pub open spec fn title_html_of(title: Seq<char>) -> Seq<char> {
    markdown_html(title_markdown(title), true, true)
}

/// HTML of a post's content: bare addresses linked, Markdown rendered with
/// tables and footnotes, then code blocks highlighted.
pub open spec fn content_html_of(content: Seq<char>) -> Option<Seq<char>> {
    highlight_blocks(markdown_html(linkify(content), true, true))
}

/// Whether `a` is the answer shown for `post`, with `content_html` as the
/// HTML of its content.
pub open spec fn shows_post(a: Answer, post: Post, content_html: Seq<char>) -> bool {
    &&& a.id@ == decimal_text(post.id as int)
    &&& a.title@ == post.title@
    &&& a.title_html@ == title_html_of(post.title@)
    &&& a.asof@ == post.asof@
    &&& a.content@ == post.content@
    &&& a.content_html@ == content_html
    &&& a.answered == post.published
}

/// Whether `a` is what `post` renders to.
pub open spec fn renders(a: Answer, post: Post) -> bool {
    content_html_of(post.content@) matches Some(h) && shows_post(a, post, h)
}

impl Answer {
    /// Renders `post` for display.  `None` where a code block of its content
    /// cannot be decoded or highlighted.
    pub fn new(post: &Post) -> (r: Option<Answer>)
        ensures
            match r {
                Some(a) => renders(a, *post),
                None => content_html_of(post.content@) is None,
            },
    {
        let mut title_md: Vec<char> = Vec::new();
        push_str(&mut title_md, "## ");
        push_str(&mut title_md, post.title.as_str());
        let title_md = string_from_chars(title_md.as_slice());
        let title_html = render_markdown(title_md.as_str(), true, true);

        let content_md = link_bare_urls(post.content.as_str());
        let content_raw = render_markdown(content_md.as_str(), true, true);
        let content_html = match highlight_code_blocks(content_raw.as_str()) {
            Some(h) => h,
            None => return None,
        };

        Some(
            Answer {
                id: int_to_decimal(post.id),
                title: post.title.clone(),
                title_html,
                asof: post.asof.clone(),
                content: post.content.clone(),
                content_html,
                answered: post.published,
            },
        )
    }
}

/// Renders each post of `posts`, in order.  `None` where some post cannot
/// be rendered.
pub fn answers_for(posts: &Vec<Post>) -> (r: Option<Vec<Answer>>)
    ensures
        match r {
            Some(v) => v.len() == posts.len() && forall|k: int|
                0 <= k < posts.len() ==> renders(#[trigger] v@[k], posts@[k]),
            None => exists|k: int|
                0 <= k < posts.len() && (#[trigger] content_html_of(posts@[k].content@)) is None,
        },
{
    let mut out: Vec<Answer> = Vec::new();
    let mut k: usize = 0;
    while k < posts.len()
        invariant
            k <= posts.len(),
            out.len() == k,
            forall|m: int| 0 <= m < k ==> renders(#[trigger] out@[m], posts@[m]),
        decreases posts.len() - k,
    {
        match Answer::new(&posts[k]) {
            Some(a) => {
                out.push(a);
                assert(out@[k as int] == a);
            },
            None => return None,
        }
        k = k + 1;
    }
    Some(out)
}

/// The id that an answer shows reads back, as the edit form parses it, as
/// the id of the post it shows.
pub proof fn law_answer_id_reads_back(a: Answer, post: Post)
    requires
        renders(a, post),
    ensures
        parse_i32_text(a.id@) == Some(post.id),
{
    law_decimal_round_trip(post.id);
}

/// A rendered answer's title HTML is the Markdown rendering of `## ` and
/// the title, and its content HTML is the Markdown rendering, with both the
/// tables and the footnotes extensions on, of the content with its bare
/// addresses linked, after its tagged code blocks are highlighted.
pub proof fn law_answer_html_of_post(a: Answer, post: Post)
    requires
        renders(a, post),
    ensures
        a.title_html@ == markdown_html("## "@ + post.title@, true, true),
        highlight_blocks(markdown_html(linkify(post.content@), true, true)) == Some(
            a.content_html@,
        ),
{
}

} // verus!
