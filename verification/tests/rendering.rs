use answeredthis::answer::answers_for;
use answeredthis::highlight::{code_block_html, format_style_html, highlight_code_blocks, syntax_name_for_style};
use answeredthis::links::{is_space, link_bare_urls};
use answeredthis::api::{answers_document, api_answers_body};
use answeredthis::json::Json;
use answeredthis::{Answer, Post};

fn post(id: i32, title: &str, content: &str, published: bool) -> Post {
    Post {
        id,
        title: title.to_string(),
        asof: "March 2017".to_string(),
        content: content.to_string(),
        published,
    }
}

#[test]
fn links_bare_address_after_space() {
    assert_eq!(link_bare_urls("see http://a.b now"), "see <http://a.b> now");
}

#[test]
fn links_address_at_start() {
    assert_eq!(link_bare_urls("https://example.com/x?y=1"), "<https://example.com/x?y=1>");
}

#[test]
fn links_address_glued_to_a_word() {
    assert_eq!(link_bare_urls("ahttp://x"), "a<http://x>");
}

#[test]
fn links_leave_markdown_link_targets_alone() {
    assert_eq!(link_bare_urls("[site](http://x.y)"), "[site](http://x.y)");
    assert_eq!(link_bare_urls("go <http://x.y>"), "go <http://x.y>");
}

#[test]
fn links_stop_at_bracket_and_angle() {
    assert_eq!(link_bare_urls("a https://x/y] b"), "a <https://x/y>] b");
    assert_eq!(link_bare_urls("a http://x>y"), "a <http://x>>y");
}

#[test]
fn links_need_something_after_the_scheme() {
    assert_eq!(link_bare_urls("a http:// b"), "a http:// b");
    assert_eq!(link_bare_urls("ftp://x"), "ftp://x");
}

#[test]
fn links_stop_at_unicode_space() {
    assert_eq!(link_bare_urls("x http://a\u{a0}b"), "x <http://a>\u{a0}b");
    assert!(is_space('\u{3000}'));
    assert!(!is_space('a'));
}

#[test]
fn links_several_addresses() {
    assert_eq!(
        link_bare_urls("http://a http://b\nhttp://c"),
        "<http://a> <http://b>\n<http://c>"
    );
}

#[test]
fn links_only_add_brackets() {
    let s = "one http://a, two (http://b) and <http://c> x";
    let out = link_bare_urls(s);
    let strip = |t: &str| t.chars().filter(|c| *c != '<' && *c != '>').collect::<String>();
    assert_eq!(strip(&out), strip(s));
}

#[test]
fn links_text_without_colon_unchanged() {
    let s = "no addresses here, just text (and <tags>)";
    assert_eq!(link_bare_urls(s), s);
}

#[test]
fn style_names() {
    assert_eq!(syntax_name_for_style("rust"), Some("Rust"));
    assert_eq!(syntax_name_for_style("sh"), Some("Bourne Again Shell (bash)"));
    assert_eq!(syntax_name_for_style("ruby"), Some("Ruby"));
    assert_eq!(syntax_name_for_style("c"), Some("C"));
    assert_eq!(syntax_name_for_style("python"), None);
}

#[test]
fn unknown_style_keeps_code() {
    assert_eq!(format_style_html("python", "a < b"), Some("a < b".to_string()));
}

#[test]
fn known_styles_are_highlighted() {
    for style in ["rust", "sh", "ruby", "c"] {
        let html = format_style_html(style, "x = 1").expect("highlighted");
        assert!(html.contains("<span style=\""), "{}: {}", style, html);
    }
}

#[test]
fn code_block_of_unknown_language_is_decoded() {
    assert_eq!(code_block_html("text", "a &amp; b &lt;c&gt;"), Some("<code>a & b <c></code>".to_string()));
}

#[test]
fn code_block_with_bad_entity_fails() {
    assert_eq!(code_block_html("text", "a &nosuchentity; b"), None);
}

#[test]
fn highlight_replaces_tagged_blocks() {
    let html = "<p>x</p>\n<pre><code class=\"language-text\">a &amp; b\n</code></pre>\n";
    assert_eq!(
        highlight_code_blocks(html),
        Some("<p>x</p>\n<pre><code>a & b\n</code></pre>\n".to_string())
    );
}

#[test]
fn highlight_takes_first_closing_tag() {
    let html = "<code class=\"language-x\">1</code><code class=\"language-y\">2</code>";
    assert_eq!(highlight_code_blocks(html), Some("<code>1</code><code>2</code>".to_string()));
}

#[test]
fn highlight_leaves_untagged_html() {
    let html = "<pre><code>plain &amp; simple</code></pre>";
    assert_eq!(highlight_code_blocks(html), Some(html.to_string()));
}

#[test]
fn highlight_needs_closing_tag_and_language() {
    let unclosed = "<code class=\"language-x\">open";
    assert_eq!(highlight_code_blocks(unclosed), Some(unclosed.to_string()));
    let no_lang = "<code class=\"language-\">a</code>";
    assert_eq!(highlight_code_blocks(no_lang), Some(no_lang.to_string()));
}

#[test]
fn highlight_fails_on_bad_entity() {
    let html = "<code class=\"language-x\">&bogus;</code>";
    assert_eq!(highlight_code_blocks(html), None);
}

#[test]
fn highlight_rust_block() {
    let html = "<pre><code class=\"language-rust\">fn main() {}\n</code></pre>";
    let out = highlight_code_blocks(html).expect("highlighted");
    assert!(out.starts_with("<pre><code><span style=\""), "{}", out);
    assert!(out.ends_with("</code></pre>"));
}

#[test]
fn answer_renders_post() {
    let p = post(7, "Hello", "see http://x.y", true);
    let a = Answer::new(&p).expect("renders");
    assert_eq!(a.id, "7");
    assert_eq!(a.title, "Hello");
    assert_eq!(a.title_html, "<h2>Hello</h2>\n");
    assert_eq!(a.asof, "March 2017");
    assert_eq!(a.content, "see http://x.y");
    assert_eq!(a.content_html, "<p>see <a href=\"http://x.y\">http://x.y</a></p>\n");
    assert!(a.answered);
}

#[test]
fn answer_renders_tables_and_code() {
    let p = post(-3, "T", "|a|b|\n|-|-|\n|1|2|\n\n```text\nx & y\n```\n", false);
    let a = Answer::new(&p).expect("renders");
    assert_eq!(a.id, "-3");
    assert!(a.content_html.contains("<table>"));
    assert!(a.content_html.contains("<pre><code>x & y\n</code></pre>"), "{}", a.content_html);
    assert!(!a.answered);
}

#[test]
fn answers_keep_order() {
    let posts = vec![post(2, "b", "two", true), post(1, "a", "one", false)];
    let answers = answers_for(&posts).expect("renders");
    assert_eq!(answers.len(), 2);
    assert_eq!(answers[0].id, "2");
    assert_eq!(answers[1].id, "1");
    assert_eq!(answers[1].content_html, "<p>one</p>\n");
}

#[test]
fn answer_with_undecodable_code_block_is_not_rendered() {
    let p = post(1, "T", "<div>\n<code class=\"language-x\">&bogus;</code>\n</div>\n", true);
    assert!(Answer::new(&p).is_none());
    assert!(answers_for(&vec![post(2, "ok", "fine", true), p]).is_none());
}

#[test]
fn api_document_for_posts() {
    let posts = vec![post(7, "Hi", "x \"q\"", true)];
    let body = api_answers_body(&posts, true).expect("renders");
    assert_eq!(
        body,
        "{\"answers\":[{\"answered\":true,\"asof\":\"March 2017\",\"content\":\"x \\\"q\\\"\",\
         \"content_html\":\"<p>x \\\"q\\\"</p>\\n\",\"id\":\"7\",\"title\":\"Hi\",\
         \"title_html\":\"<h2>Hi</h2>\\n\"}],\"logged_in\":true}"
    );
    assert_eq!(api_answers_body(&vec![], false), Some("{\"answers\":[],\"logged_in\":false}".to_string()));
    let bad = post(1, "T", "<div>\n<code class=\"language-x\">&bogus;</code>\n</div>\n", true);
    assert_eq!(api_answers_body(&vec![bad], true), None);
}

#[test]
fn answer_to_api_members() {
    let a = Answer::new(&post(5, "Q", "A", false)).expect("renders");
    match a.to_api() {
        Json::Object(members) => {
            let keys: Vec<&str> = members.iter().map(|(k, _)| k.as_str()).collect();
            assert_eq!(keys, vec!["asof", "id", "title", "title_html", "content", "content_html", "answered"]);
            match &members[1].1 {
                Json::Str(s) => assert_eq!(s, "5"),
                other => panic!("{:?}", other),
            }
            match &members[3].1 {
                Json::Str(s) => assert_eq!(s, "<h2>Q</h2>\n"),
                other => panic!("{:?}", other),
            }
            match &members[6].1 {
                Json::Bool(b) => assert!(!*b),
                other => panic!("{:?}", other),
            }
        }
        other => panic!("{:?}", other),
    }
}

#[test]
fn answers_document_shape() {
    let answers = answers_for(&vec![post(1, "a", "b", true)]).expect("renders");
    match answers_document(&answers, true) {
        Json::Object(members) => {
            assert_eq!(members.len(), 2);
            assert_eq!(members[0].0, "answers");
            assert!(matches!(&members[0].1, Json::Array(items) if items.len() == 1));
            assert_eq!(members[1].0, "logged_in");
            assert!(matches!(members[1].1, Json::Bool(true)));
        }
        other => panic!("{:?}", other),
    }
}
