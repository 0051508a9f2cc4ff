//! Syntax highlighting of the fenced code blocks of an answer.
//!
//! Markdown renders a fenced block tagged with a language as
//! `<code class="language-LANG">BODY</code>`.  Each such block is replaced,
//! left to right, by `<code>` + the highlighted body + `</code>`, where the
//! language is everything up to the next `"` (at least one character, and
//! followed by `">`) and the body runs up to the first `</code>` after it.
//! The body is entity-decoded before it is highlighted; languages other than
//! `rust`, `sh`, `ruby` and `c` keep their decoded body as it is.
use vstd::prelude::*;

use crate::links::{occurs_at, occurs_at_exec};
use crate::markup::{decode_entities, highlight_html, highlighted_html, html_decoded, opt_text};
use crate::text::{chars_of, push_range, push_str, same_text, string_from_chars};

verus! {

/// Name of the `syntect` syntax used for a code block tagged `style`.
pub open spec fn syntax_for_style(style: Seq<char>) -> Option<Seq<char>> {
    if style == "rust"@ {
        Some("Rust"@)
    } else if style == "sh"@ {
        Some("Bourne Again Shell (bash)"@)
    } else if style == "ruby"@ {
        Some("Ruby"@)
    } else if style == "c"@ {
        Some("C"@)
    } else {
        None
    }
}

/// Name of the theme that code is highlighted with.
pub open spec fn highlight_theme() -> Seq<char> {
    "InspiredGitHub"@
}

/// HTML for `code` tagged `style`: highlighted where the style is known,
/// the code itself otherwise.
pub open spec fn styled_code_html(style: Seq<char>, code: Seq<char>) -> Option<Seq<char>> {
    match syntax_for_style(style) {
        Some(syntax) => highlighted_html(syntax, highlight_theme(), code),
        None => Some(code),
    }
}

/// The `syntect` syntax for a code block tagged `style`, if there is one.
pub fn syntax_name_for_style(style: &str) -> (r: Option<&'static str>)
    ensures
        match r {
            Some(name) => syntax_for_style(style@) == Some(name@),
            None => syntax_for_style(style@) is None,
        },
{
    if same_text(style, "rust") {
        Some("Rust")
    } else if same_text(style, "sh") {
        Some("Bourne Again Shell (bash)")
    } else if same_text(style, "ruby") {
        Some("Ruby")
    } else if same_text(style, "c") {
        Some("C")
    } else {
        None
    }
}

/// Highlights `code` as HTML for the language tag `style`; code in any other
/// language is returned as it is.  `None` where highlighting fails.
pub fn format_style_html(style: &str, code: &str) -> (r: Option<String>)
    ensures
        opt_text(r) == styled_code_html(style@, code@),
{
    match syntax_name_for_style(style) {
        Some(syntax) => highlight_html(syntax, "InspiredGitHub", code),
        None => Some(code.to_owned()),
    }
}

pub open spec fn code_open() -> Seq<char> {
    "<code class=\"language-"@
}

pub open spec fn code_open_end() -> Seq<char> {
    "\">"@
}

pub open spec fn code_close() -> Seq<char> {
    "</code>"@
}

pub open spec fn plain_code_open() -> Seq<char> {
    "<code>"@
}

/// Length of the run of characters other than `"` from `j` on.
pub open spec fn lang_run(s: Seq<char>, j: int) -> nat
    decreases s.len() - j,
{
    if 0 <= j < s.len() && s[j] != '"' {
        1 + lang_run(s, j + 1)
    } else {
        0
    }
}

/// Position of the first `</code>` at or after `j`.
pub open spec fn first_close(s: Seq<char>, j: int) -> Option<int>
    decreases s.len() - j,
{
    if j < 0 || j >= s.len() {
        None
    } else if occurs_at(s, j, code_close()) {
        Some(j)
    } else {
        first_close(s, j + 1)
    }
}

/// The tagged code block that starts at `p`, as the positions where its
/// language starts and ends and where its body starts and ends.
pub open spec fn block_at(s: Seq<char>, p: int) -> Option<(int, int, int, int)> {
    if occurs_at(s, p, code_open()) {
        let ls = p + code_open().len();
        let le = ls + lang_run(s, ls);
        if le > ls && occurs_at(s, le, code_open_end()) {
            let bs = le + code_open_end().len();
            match first_close(s, bs) {
                Some(be) => Some((ls, le, bs, be)),
                None => None,
            }
        } else {
            None
        }
    } else {
        None
    }
}

/// HTML for a block with language tag `lang` and raw body `body`.
pub open spec fn block_html(lang: Seq<char>, body: Seq<char>) -> Option<Seq<char>> {
    match html_decoded(body) {
        Some(code) => match styled_code_html(lang, code) {
            Some(h) => Some(plain_code_open() + h + code_close()),
            None => None,
        },
        None => None,
    }
}

pub proof fn lemma_first_close(s: Seq<char>, j: int)
    ensures
        first_close(s, j) matches Some(k) ==> j <= k && occurs_at(s, k, code_close()),
    decreases s.len() - j,
{
    if 0 <= j < s.len() && !occurs_at(s, j, code_close()) {
        lemma_first_close(s, j + 1);
    }
}

pub proof fn lemma_block_at(s: Seq<char>, p: int)
    ensures
        block_at(s, p) matches Some((ls, le, bs, be)) ==> {
            &&& 0 <= p < ls < le <= bs <= be
            &&& be + code_close().len() <= s.len()
            &&& ls == p + code_open().len()
            &&& le == ls + lang_run(s, ls)
            &&& bs == le + code_open_end().len()
        },
{
    reveal_strlit("<code class=\"language-");
    let ls = p + code_open().len();
    lemma_first_close(s, ls + lang_run(s, ls) + code_open_end().len());
}

/// The HTML from position `i` on with its tagged code blocks highlighted;
/// `None` where a block fails to decode or highlight.
pub open spec fn blocks_from(s: Seq<char>, i: int) -> Option<Seq<char>>
    decreases s.len() - i,
{
    if i < 0 || i >= s.len() {
        Some(Seq::empty())
    } else {
        match block_at(s, i) {
            Some((ls, le, bs, be)) => {
                proof {
                    lemma_block_at(s, i);
                }
                match block_html(s.subrange(ls, le), s.subrange(bs, be)) {
                    Some(h) => match blocks_from(s, be + code_close().len()) {
                        Some(rest) => Some(h + rest),
                        None => None,
                    },
                    None => None,
                }
            },
            None => match blocks_from(s, i + 1) {
                Some(rest) => Some(seq![s[i]] + rest),
                None => None,
            },
        }
    }
}

/// The HTML with its tagged code blocks highlighted.
pub open spec fn highlight_blocks(s: Seq<char>) -> Option<Seq<char>> {
    blocks_from(s, 0)
}

fn lang_run_exec(t: &Vec<char>, j: usize) -> (r: usize)
    requires
        j <= t.len(),
    ensures
        r == lang_run(t@, j as int),
        j + r <= t.len(),
{
    let mut k = j;
    while k < t.len() && t[k] != '"'
        invariant
            j <= k <= t.len(),
            lang_run(t@, j as int) == (k - j) + lang_run(t@, k as int),
        decreases t.len() - k,
    {
        k = k + 1;
    }
    k - j
}

fn first_close_exec(t: &Vec<char>, j: usize, close: &Vec<char>) -> (r: Option<usize>)
    requires
        close@ == code_close(),
    ensures
        match r {
            Some(k) => first_close(t@, j as int) == Some(k as int),
            None => first_close(t@, j as int) is None,
        },
{
    let mut k = j;
    while k < t.len()
        invariant
            j <= k,
            close@ == code_close(),
            first_close(t@, j as int) == first_close(t@, k as int),
        decreases t.len() - k,
    {
        if occurs_at_exec(t, k, close.as_slice()) {
            return Some(k);
        }
        k = k + 1;
    }
    None
}

fn block_at_exec(
    t: &Vec<char>,
    p: usize,
    open: &Vec<char>,
    open_end: &Vec<char>,
    close: &Vec<char>,
) -> (r: Option<(usize, usize, usize, usize)>)
    requires
        open@ == code_open(),
        open_end@ == code_open_end(),
        close@ == code_close(),
    ensures
        match r {
            Some((ls, le, bs, be)) => block_at(t@, p as int) == Some(
                (ls as int, le as int, bs as int, be as int),
            ),
            None => block_at(t@, p as int) is None,
        },
{
    if !occurs_at_exec(t, p, open.as_slice()) {
        return None;
    }
    let total = t.len();
    assert(p + open@.len() <= total);
    let ls = p + open.len();
    let le = ls + lang_run_exec(t, ls);
    if le == ls || !occurs_at_exec(t, le, open_end.as_slice()) {
        return None;
    }
    let bs = le + open_end.len();
    match first_close_exec(t, bs, close) {
        Some(be) => Some((ls, le, bs, be)),
        None => None,
    }
}

fn slice_text(t: &Vec<char>, from: usize, to: usize) -> (r: String)
    requires
        from <= to <= t.len(),
    ensures
        r@ == t@.subrange(from as int, to as int),
{
    let mut v: Vec<char> = Vec::new();
    push_range(&mut v, t, from, to);
    string_from_chars(v.as_slice())
}

/// The HTML for the block whose language tag is `lang` and whose raw body is
/// `body`: the decoded body, highlighted for that language, between
/// `<code>` and `</code>`.  `None` where decoding or highlighting fails.
pub fn code_block_html(lang: &str, body: &str) -> (r: Option<String>)
    ensures
        opt_text(r) == block_html(lang@, body@),
{
    let code = match decode_entities(body) {
        Some(code) => code,
        None => return None,
    };
    let h = match format_style_html(lang, code.as_str()) {
        Some(h) => h,
        None => return None,
    };
    let mut out: Vec<char> = Vec::new();
    push_str(&mut out, "<code>");
    push_str(&mut out, h.as_str());
    push_str(&mut out, "</code>");
    Some(string_from_chars(out.as_slice()))
}

/// Replaces every tagged code block of `html` by its highlighted form.
/// `None` where some block fails to decode or highlight.
pub fn highlight_code_blocks(html: &str) -> (r: Option<String>)
    ensures
        opt_text(r) == highlight_blocks(html@),
{
    let t = chars_of(html);
    let open = chars_of("<code class=\"language-");
    let open_end = chars_of("\">");
    let close = chars_of("</code>");
    let n = t.len();
    let mut out: Vec<char> = Vec::new();
    let mut i: usize = 0;
    while i < n
        invariant
            n == t.len(),
            t@ == html@,
            open@ == code_open(),
            open_end@ == code_open_end(),
            close@ == code_close(),
            i <= n,
            highlight_blocks(t@) == (match blocks_from(t@, i as int) {
                Some(rest) => Some(out@ + rest),
                None => None,
            }),
        decreases n - i,
    {
        let ghost before = out@;
        match block_at_exec(&t, i, &open, &open_end, &close) {
            Some((ls, le, bs, be)) => {
                proof {
                    lemma_block_at(t@, i as int);
                }
                let lang = slice_text(&t, ls, le);
                let body = slice_text(&t, bs, be);
                let h = match code_block_html(lang.as_str(), body.as_str()) {
                    Some(h) => h,
                    None => return None,
                };
                push_str(&mut out, h.as_str());
                i = be + close.len();
                assert(forall|x: Seq<char>| #![auto] before + (h@ + x) =~= out@ + x);
            },
            None => {
                out.push(t[i]);
                i = i + 1;
                assert(forall|x: Seq<char>| #![auto] before + (seq![t@[i - 1]] + x) =~= out@ + x);
            },
        }
    }
    assert(blocks_from(t@, i as int) == Some(Seq::<char>::empty()));
    assert(out@ + Seq::<char>::empty() =~= out@);
    Some(string_from_chars(out.as_slice()))
}

proof fn lemma_blocks_from_without_blocks(s: Seq<char>, i: int)
    requires
        0 <= i <= s.len(),
        forall|p: int| i <= p ==> !occurs_at(s, p, code_open()),
    ensures
        blocks_from(s, i) == Some(s.subrange(i, s.len() as int)),
    decreases s.len() - i,
{
    let n = s.len() as int;
    if i < n {
        assert(!occurs_at(s, i, code_open()));
        lemma_blocks_from_without_blocks(s, i + 1);
        assert(s.subrange(i, n) =~= seq![s[i]] + s.subrange(i + 1, n));
    } else {
        assert(s.subrange(i, n) =~= Seq::<char>::empty());
    }
}

/// HTML without any `<code class="language-` holds no tagged code block and
/// comes back unchanged.
pub proof fn law_highlight_without_blocks_is_identity(s: Seq<char>)
    requires
        forall|p: int| !occurs_at(s, p, code_open()),
    ensures
        highlight_blocks(s) == Some(s),
{
    lemma_blocks_from_without_blocks(s, 0);
    assert(s.subrange(0, s.len() as int) =~= s);
}

/// Every tagged block's body is entity-decoded before it is highlighted,
/// whatever its language: the block's HTML is the decoded code, styled for
/// the language, between `<code>` and `</code>`.
pub proof fn law_block_highlights_decoded_body(lang: Seq<char>, body: Seq<char>, code: Seq<char>)
    requires
        html_decoded(body) == Some(code),
    ensures
        block_html(lang, body) == (match styled_code_html(lang, code) {
            Some(h) => Some("<code>"@ + h + "</code>"@),
            None => None,
        }),
{
}

/// A block whose body cannot be entity-decoded has no HTML, whatever its
/// language.
pub proof fn law_block_with_undecodable_body_fails(lang: Seq<char>, body: Seq<char>)
    requires
        html_decoded(body) is None,
    ensures
        block_html(lang, body) is None,
{
}

/// Code tagged with a known language is highlighted with that language's
/// own grammar and the `InspiredGitHub` theme; code with any other tag is
/// kept as it is.
pub proof fn law_styled_code_uses_grammar_of_tag(style: Seq<char>, code: Seq<char>)
    ensures
        syntax_for_style(style) matches Some(name) ==> styled_code_html(style, code)
            == highlighted_html(name, "InspiredGitHub"@, code),
        syntax_for_style(style) is None ==> styled_code_html(style, code) == Some(code),
{
}

/// The four known tags name the grammars `Rust`, `Bourne Again Shell (bash)`,
/// `Ruby` and `C`, and code tagged with them is highlighted with those.
pub proof fn law_known_tags_and_their_grammars(code: Seq<char>)
    ensures
        styled_code_html("rust"@, code) == highlighted_html("Rust"@, "InspiredGitHub"@, code),
        styled_code_html("sh"@, code) == highlighted_html(
            "Bourne Again Shell (bash)"@,
            "InspiredGitHub"@,
            code,
        ),
        styled_code_html("ruby"@, code) == highlighted_html("Ruby"@, "InspiredGitHub"@, code),
        styled_code_html("c"@, code) == highlighted_html("C"@, "InspiredGitHub"@, code),
{
    reveal_strlit("rust");
    reveal_strlit("sh");
    reveal_strlit("ruby");
    reveal_strlit("c");
    assert("rust"@.len() == 4 && "sh"@.len() == 2 && "ruby"@.len() == 4 && "c"@.len() == 1);
    assert("ruby"@[2] == 'b' && "rust"@[2] == 's');
    assert("sh"@ != "rust"@);
    assert("ruby"@ != "rust"@ && "ruby"@ != "sh"@);
    assert("c"@ != "rust"@ && "c"@ != "sh"@ && "c"@ != "ruby"@);
}

proof fn lemma_lang_run_to_quote(s: Seq<char>, j: int, end: int)
    requires
        0 <= j <= end < s.len(),
        s[end] == '"',
        forall|k: int| j <= k < end ==> s[k] != '"',
    ensures
        lang_run(s, j) == end - j,
    decreases end - j,
{
    if j < end {
        lemma_lang_run_to_quote(s, j + 1, end);
    }
}

proof fn lemma_first_close_at(s: Seq<char>, j: int, be: int)
    requires
        0 <= j <= be,
        occurs_at(s, be, code_close()),
        code_close().len() > 0,
        code_close()[0] == '<',
        forall|k: int| j <= k < be ==> s[k] != '<',
    ensures
        first_close(s, j) == Some(be),
    decreases be - j,
{
    if j < be {
        if occurs_at(s, j, code_close()) {
            assert(s.subrange(j, j + code_close().len())[0] == s[j]);
        }
        lemma_first_close_at(s, j + 1, be);
    }
}

/// A tagged block followed by text without another tag: the block becomes
/// its highlighted HTML, closed at the first `</code>`, and the text after
/// it is kept as it is.  The language runs up to the first `"`, and a body
/// holds no `<` (Markdown escapes it in code).
pub proof fn law_block_then_text(lang: Seq<char>, body: Seq<char>, rest: Seq<char>)
    requires
        lang.len() > 0,
        !lang.contains('"'),
        !body.contains('<'),
        forall|p: int| !occurs_at(rest, p, code_open()),
    ensures
        highlight_blocks(code_open() + lang + code_open_end() + body + code_close() + rest) == (
        match block_html(lang, body) {
            Some(h) => Some(h + rest),
            None => None,
        }),
{
    reveal_strlit("<code class=\"language-");
    reveal_strlit("\">");
    reveal_strlit("</code>");
    let o = code_open();
    let e = code_open_end();
    let c = code_close();
    let s = o + lang + e + body + c + rest;
    let ls = o.len() as int;
    let le = ls + lang.len();
    let bs = le + e.len();
    let be = bs + body.len();
    let after = be + c.len();
    assert(s.subrange(0, ls) =~= o);
    assert(s.subrange(ls, le) =~= lang);
    assert(s.subrange(le, bs) =~= e);
    assert(s.subrange(bs, be) =~= body);
    assert(s.subrange(be, after) =~= c);
    assert(s.subrange(after, s.len() as int) =~= rest);
    assert forall|k: int| ls <= k < le implies s[k] != '"' by {
        assert(s[k] == lang[k - ls]);
    }
    assert(s[le] == e[0]);
    lemma_lang_run_to_quote(s, ls, le);
    assert forall|k: int| bs <= k < be implies s[k] != '<' by {
        assert(s[k] == body[k - bs]);
    }
    lemma_first_close_at(s, bs, be);
    assert(block_at(s, 0) == Some((ls, le, bs, be)));
    assert forall|p: int| after <= p implies !occurs_at(s, p, code_open()) by {
        if occurs_at(s, p, code_open()) {
            assert(rest.subrange(p - after, p - after + o.len()) =~= s.subrange(p, p + o.len()));
            assert(occurs_at(rest, p - after, code_open()));
        }
    }
    lemma_blocks_from_without_blocks(s, after);
    lemma_block_at(s, 0);
}

/// A single tagged block, and nothing around it, becomes its highlighted
/// HTML.
pub proof fn law_single_block(lang: Seq<char>, body: Seq<char>)
    requires
        lang.len() > 0,
        !lang.contains('"'),
        !body.contains('<'),
    ensures
        highlight_blocks(code_open() + lang + code_open_end() + body + code_close()) == block_html(
            lang,
            body,
        ),
{
    let empty = Seq::<char>::empty();
    reveal_strlit("<code class=\"language-");
    assert forall|p: int| !occurs_at(empty, p, code_open()) by {}
    law_block_then_text(lang, body, empty);
    assert(code_open() + lang + code_open_end() + body + code_close() + empty =~= code_open()
        + lang + code_open_end() + body + code_close());
    if let Some(h) = block_html(lang, body) {
        assert(h + empty =~= h);
    }
}

} // verus!
