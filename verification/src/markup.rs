//! The rendering work done by outside crates: Markdown to HTML
//! (`pulldown-cmark`), HTML entity decoding (`htmlescape`) and syntax
//! highlighting (`syntect`).  Their results are named here; nothing below
//! spells out how those crates compute them.
use vstd::prelude::*;

verus! {

/// A text that may be missing, by its characters.
pub open spec fn opt_text(o: Option<String>) -> Option<Seq<char>> {
    match o {
        Some(s) => Some(s@),
        None => None,
    }
}

/// HTML that `pulldown-cmark` writes for the Markdown `md`, with the tables
/// and footnotes extensions switched on or off as given.
pub uninterp spec fn markdown_html(md: Seq<char>, tables: bool, footnotes: bool) -> Seq<char>;

/// What `htmlescape::decode_html` gives for `s`: the text with its HTML
/// entities decoded, or `None` where it reports a malformed entity.
pub uninterp spec fn html_decoded(s: Seq<char>) -> Option<Seq<char>>;

/// The HTML that `syntect` writes for `code` highlighted with the default
/// syntax named `syntax` and the default theme named `theme`, without
/// background colour; `None` where either is unknown or highlighting fails.
pub uninterp spec fn highlighted_html(syntax: Seq<char>, theme: Seq<char>, code: Seq<char>) -> Option<
    Seq<char>,
>;

/// Renders Markdown to HTML with `pulldown_cmark::Parser::new_ext` and
/// `pulldown_cmark::html::push_html`.  The contract only names the result.
#[verifier::external_body]
pub(crate) fn render_markdown(md: &str, tables: bool, footnotes: bool) -> (r: String)
    ensures
        r@ == markdown_html(md@, tables, footnotes),
{
    let mut options = pulldown_cmark::Options::empty();
    options.set(pulldown_cmark::Options::ENABLE_TABLES, tables);
    options.set(pulldown_cmark::Options::ENABLE_FOOTNOTES, footnotes);
    let mut html = String::new();
    pulldown_cmark::html::push_html(&mut html, pulldown_cmark::Parser::new_ext(md, options));
    html
}

/// Decodes HTML entities with `htmlescape::decode_html`.  Besides naming
/// the result, the contract states what its source shows: a text without
/// `&` holds no entity and comes back unchanged.
#[verifier::external_body]
pub(crate) fn decode_entities(s: &str) -> (r: Option<String>)
    ensures
        opt_text(r) == html_decoded(s@),
        !s@.contains('&') ==> opt_text(r) == Some(s@),
{
    htmlescape::decode_html(s).ok()
}

/// Highlights `code` as HTML with `syntect`: the default syntax set without
/// newlines (`SyntaxSet::load_defaults_nonewlines`), the default themes
/// (`ThemeSet::load_defaults`), `HighlightLines::highlight_line` on the whole
/// text, and `styled_line_to_highlighted_html` without background.  The
/// contract only names the result.
#[verifier::external_body]
pub(crate) fn highlight_html(syntax: &str, theme: &str, code: &str) -> (r: Option<String>)
    ensures
        opt_text(r) == highlighted_html(syntax@, theme@, code@),
{
    let syntaxes = syntect::parsing::SyntaxSet::load_defaults_nonewlines();
    let themes = syntect::highlighting::ThemeSet::load_defaults();
    let found = syntaxes.find_syntax_by_name(syntax)?;
    let chosen = themes.themes.get(theme)?;
    let mut lines = syntect::easy::HighlightLines::new(found, chosen);
    let regions = lines.highlight_line(code, &syntaxes).ok()?;
    let no_background = syntect::html::IncludeBackground::No;
    syntect::html::styled_line_to_highlighted_html(&regions[..], no_background).ok()
}

} // verus!
