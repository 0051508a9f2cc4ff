//! Turning bare `http://` and `https://` addresses in answer text into
//! Markdown autolinks.
//!
//! An address starts with `http://` or `https://` and runs on for as long as
//! no whitespace, `>` or `]` follows.  It is wrapped in angle brackets when it
//! stands at the very start of the text, or right after a character other
//! than `(` and `<` (so addresses that already sit in a Markdown link target
//! or an autolink are left alone).  Matches are taken left to right and never
//! overlap: scanning resumes right after the end of each address.
use vstd::prelude::*;

use crate::text::{chars_of, push_range, string_from_chars};

verus! {

/// Unicode `White_Space` characters.
pub open spec fn is_space_char(c: char) -> bool {
    let n = c as u32;
    ||| 0x9 <= n <= 0xd
    ||| n == 0x20
    ||| n == 0x85
    ||| n == 0xa0
    ||| n == 0x1680
    ||| 0x2000 <= n <= 0x200a
    ||| n == 0x2028
    ||| n == 0x2029
    ||| n == 0x202f
    ||| n == 0x205f
    ||| n == 0x3000
}

/// Characters that may continue an address.
pub open spec fn is_address_char(c: char) -> bool {
    !is_space_char(c) && c != '>' && c != ']'
}

/// Characters after which an address is not wrapped.
pub open spec fn is_link_opener(c: char) -> bool {
    c == '(' || c == '<'
}

pub open spec fn http_scheme() -> Seq<char> {
    seq!['h', 't', 't', 'p', ':', '/', '/']
}

pub open spec fn https_scheme() -> Seq<char> {
    seq!['h', 't', 't', 'p', 's', ':', '/', '/']
}

/// Whether `pat` occurs in `s` at position `i`.
pub open spec fn occurs_at(s: Seq<char>, i: int, pat: Seq<char>) -> bool {
    0 <= i && i + pat.len() <= s.len() && s.subrange(i, i + pat.len()) == pat
}

/// Length of the scheme (`https://` first, then `http://`) at `i`, or 0.
pub open spec fn scheme_len(s: Seq<char>, i: int) -> nat {
    if occurs_at(s, i, https_scheme()) {
        8
    } else if occurs_at(s, i, http_scheme()) {
        7
    } else {
        0
    }
}

/// Length of the longest run of address characters starting at `j`.
pub open spec fn address_run(s: Seq<char>, j: int) -> nat
    decreases s.len() - j,
{
    if 0 <= j < s.len() && is_address_char(s[j]) {
        1 + address_run(s, j + 1)
    } else {
        0
    }
}

/// Length of the address that starts at `i`, or 0 when none does.
pub open spec fn address_len(s: Seq<char>, i: int) -> nat {
    let k = scheme_len(s, i);
    if k > 0 && address_run(s, i + k) > 0 {
        k + address_run(s, i + k)
    } else {
        0
    }
}

pub proof fn lemma_address_run_bound(s: Seq<char>, j: int)
    ensures
        address_run(s, j) > 0 ==> 0 <= j && j + address_run(s, j) <= s.len(),
    decreases s.len() - j,
{
    if 0 <= j < s.len() && is_address_char(s[j]) {
        lemma_address_run_bound(s, j + 1);
    }
}

pub proof fn lemma_address_len_bound(s: Seq<char>, i: int)
    ensures
        address_len(s, i) > 0 ==> 0 <= i && i + address_len(s, i) <= s.len(),
{
    lemma_address_run_bound(s, i + scheme_len(s, i));
}

/// The text from position `i` on, with its addresses wrapped.
pub open spec fn linkify_from(s: Seq<char>, i: int) -> Seq<char>
    decreases s.len() - i,
{
    if i >= s.len() {
        seq![]
    } else if i == 0 && address_len(s, 0) > 0 {
        let u = address_len(s, 0);
        proof {
            lemma_address_len_bound(s, 0);
        }
        seq!['<'] + s.subrange(0, u as int) + seq!['>'] + linkify_from(s, u as int)
    } else if i + 1 < s.len() && !is_link_opener(s[i]) && address_len(s, i + 1) > 0 {
        let u = address_len(s, i + 1);
        proof {
            lemma_address_len_bound(s, i + 1);
        }
        seq![s[i], '<'] + s.subrange(i + 1, i + 1 + u) + seq!['>'] + linkify_from(s, i + 1 + u)
    } else {
        seq![s[i]] + linkify_from(s, i + 1)
    }
}

/// The whole text with its bare addresses wrapped in angle brackets.
pub open spec fn linkify(s: Seq<char>) -> Seq<char> {
    linkify_from(s, 0)
}

/// Whether `pat` occurs in `t` at position `i`.
pub(crate) fn occurs_at_exec(t: &Vec<char>, i: usize, pat: &[char]) -> (r: bool)
    ensures
        r == occurs_at(t@, i as int, pat@),
{
    if i > t.len() || pat.len() > t.len() - i {
        return false;
    }
    let mut k: usize = 0;
    while k < pat.len()
        invariant
            i + pat.len() <= t.len(),
            k <= pat.len(),
            forall|m: int| 0 <= m < k ==> t@[i + m] == pat@[m],
        decreases pat.len() - k,
    {
        if t[i + k] != pat[k] {
            assert(t@.subrange(i as int, i + pat@.len())[k as int] != pat@[k as int]);
            return false;
        }
        k = k + 1;
    }
    assert(t@.subrange(i as int, i + pat@.len()) =~= pat@);
    true
}

fn scheme_len_exec(t: &Vec<char>, i: usize) -> (r: usize)
    ensures
        r == scheme_len(t@, i as int),
        r > 0 ==> i + r <= t.len(),
{
    let https: [char; 8] = ['h', 't', 't', 'p', 's', ':', '/', '/'];
    let http: [char; 7] = ['h', 't', 't', 'p', ':', '/', '/'];
    assert(https@ =~= https_scheme());
    assert(http@ =~= http_scheme());
    if occurs_at_exec(t, i, https.as_slice()) {
        8
    } else if occurs_at_exec(t, i, http.as_slice()) {
        7
    } else {
        0
    }
}

/// Whether `c` is a Unicode `White_Space` character.
pub fn is_space(c: char) -> (r: bool)
    ensures
        r == is_space_char(c),
{
    let n = c as u32;
    (0x9 <= n && n <= 0xd) || n == 0x20 || n == 0x85 || n == 0xa0 || n == 0x1680 || (0x2000 <= n
        && n <= 0x200a) || n == 0x2028 || n == 0x2029 || n == 0x202f || n == 0x205f || n == 0x3000
}

fn address_run_exec(t: &Vec<char>, j: usize) -> (r: usize)
    requires
        j <= t.len(),
    ensures
        r == address_run(t@, j as int),
        j + r <= t.len(),
{
    let mut k = j;
    while k < t.len() && !is_space(t[k]) && t[k] != '>' && t[k] != ']'
        invariant
            j <= k <= t.len(),
            address_run(t@, j as int) == (k - j) + address_run(t@, k as int),
        decreases t.len() - k,
    {
        k = k + 1;
    }
    k - j
}

fn address_len_exec(t: &Vec<char>, i: usize) -> (r: usize)
    ensures
        r == address_len(t@, i as int),
        r > 0 ==> i + r <= t.len(),
{
    proof {
        lemma_address_len_bound(t@, i as int);
    }
    let k = scheme_len_exec(t, i);
    if k == 0 {
        return 0;
    }
    let run = address_run_exec(t, i + k);
    if run == 0 {
        0
    } else {
        k + run
    }
}

/// Wraps every bare address of `content` in angle brackets, so that Markdown
/// renders it as a link.
pub fn link_bare_urls(content: &str) -> (r: String)
    ensures
        r@ == linkify(content@),
{
    let t = chars_of(content);
    let n = t.len();
    let mut out: Vec<char> = Vec::new();
    let mut i: usize = 0;
    while i < n
        invariant
            n == t.len(),
            i <= n,
            linkify(t@) == out@ + linkify_from(t@, i as int),
        decreases n - i,
    {
        let ghost before = out@;
        let u0 = if i == 0 {
            address_len_exec(&t, 0)
        } else {
            0
        };
        if u0 > 0 {
            out.push('<');
            push_range(&mut out, &t, 0, u0);
            out.push('>');
            assert(out@ =~= before + (seq!['<'] + t@.subrange(0, u0 as int) + seq!['>']));
            i = u0;
        } else {
            let u = if i + 1 < n && t[i] != '(' && t[i] != '<' {
                address_len_exec(&t, i + 1)
            } else {
                0
            };
            if u > 0 {
                out.push(t[i]);
                out.push('<');
                push_range(&mut out, &t, i + 1, i + 1 + u);
                out.push('>');
                assert(out@ =~= before + (seq![t@[i as int], '<'] + t@.subrange(
                    i + 1,
                    i + 1 + u,
                ) + seq!['>']));
                i = i + 1 + u;
            } else {
                out.push(t[i]);
                assert(out@ =~= before + seq![t@[i as int]]);
                i = i + 1;
            }
        }
    }
    string_from_chars(out.as_slice())
}

/// Keeps every character other than `<` and `>`.
pub open spec fn not_angle() -> spec_fn(char) -> bool {
    |c: char| c != '<' && c != '>'
}

/// The text with all angle brackets taken out.
pub open spec fn strip_angles(s: Seq<char>) -> Seq<char> {
    s.filter(not_angle())
}

proof fn lemma_strip_single(c: char)
    ensures
        strip_angles(seq![c]) == (if c == '<' || c == '>' { Seq::<char>::empty() } else { seq![c] }),
{
    reveal_with_fuel(Seq::filter, 2);
    assert(seq![c].drop_last() =~= Seq::<char>::empty());
}

proof fn lemma_strip_add(a: Seq<char>, b: Seq<char>)
    ensures
        strip_angles(a + b) == strip_angles(a) + strip_angles(b),
{
    Seq::filter_distributes_over_add(a, b, not_angle());
}

proof fn lemma_linkify_from_strips(s: Seq<char>, i: int)
    requires
        0 <= i <= s.len(),
    ensures
        strip_angles(linkify_from(s, i)) == strip_angles(s.subrange(i, s.len() as int)),
    decreases s.len() - i,
{
    let n = s.len() as int;
    if i >= n {
        assert(s.subrange(i, n) =~= Seq::<char>::empty());
        assert(linkify_from(s, i) =~= Seq::<char>::empty());
    } else if i == 0 && address_len(s, 0) > 0 {
        let u = address_len(s, 0) as int;
        lemma_address_len_bound(s, 0);
        lemma_linkify_from_strips(s, u);
        let mid = s.subrange(0, u);
        let rest = linkify_from(s, u);
        lemma_strip_add(seq!['<'] + mid + seq!['>'], rest);
        lemma_strip_add(seq!['<'] + mid, seq!['>']);
        lemma_strip_add(seq!['<'], mid);
        lemma_strip_single('<');
        lemma_strip_single('>');
        assert(s.subrange(0, n) =~= mid + s.subrange(u, n));
        lemma_strip_add(mid, s.subrange(u, n));
        assert(strip_angles(seq!['<']) + strip_angles(mid) =~= strip_angles(mid));
        assert(strip_angles(mid) + strip_angles(seq!['>']) =~= strip_angles(mid));
    } else if i + 1 < n && !is_link_opener(s[i]) && address_len(s, i + 1) > 0 {
        let u = address_len(s, i + 1) as int;
        lemma_address_len_bound(s, i + 1);
        lemma_linkify_from_strips(s, i + 1 + u);
        let mid = s.subrange(i + 1, i + 1 + u);
        let rest = linkify_from(s, i + 1 + u);
        assert(seq![s[i], '<'] =~= seq![s[i]] + seq!['<']);
        lemma_strip_add(seq![s[i], '<'] + mid + seq!['>'], rest);
        lemma_strip_add(seq![s[i], '<'] + mid, seq!['>']);
        lemma_strip_add(seq![s[i], '<'], mid);
        lemma_strip_add(seq![s[i]], seq!['<']);
        lemma_strip_single('<');
        lemma_strip_single('>');
        assert(s.subrange(i, n) =~= seq![s[i]] + mid + s.subrange(i + 1 + u, n));
        lemma_strip_add(seq![s[i]] + mid, s.subrange(i + 1 + u, n));
        lemma_strip_add(seq![s[i]], mid);
        assert(strip_angles(seq![s[i]]) + strip_angles(seq!['<']) =~= strip_angles(seq![s[i]]));
        assert(strip_angles(seq![s[i]]) + strip_angles(mid) + strip_angles(seq!['>'])
            =~= strip_angles(seq![s[i]]) + strip_angles(mid));
    } else {
        lemma_linkify_from_strips(s, i + 1);
        lemma_strip_add(seq![s[i]], linkify_from(s, i + 1));
        assert(s.subrange(i, n) =~= seq![s[i]] + s.subrange(i + 1, n));
        lemma_strip_add(seq![s[i]], s.subrange(i + 1, n));
    }
}

/// Linking only inserts angle brackets: with every `<` and `>` taken out,
/// the linked text and the unlinked text are the same.
pub proof fn law_linkify_only_adds_brackets(s: Seq<char>)
    ensures
        strip_angles(linkify(s)) == strip_angles(s),
{
    lemma_linkify_from_strips(s, 0);
    assert(s.subrange(0, s.len() as int) =~= s);
}

proof fn lemma_no_colon_no_address(s: Seq<char>, i: int)
    requires
        !s.contains(':'),
    ensures
        address_len(s, i) == 0,
{
    if occurs_at(s, i, https_scheme()) {
        assert(s.subrange(i, i + 8)[5] == ':');
        assert(s[i + 5] == ':');
    }
    if occurs_at(s, i, http_scheme()) {
        assert(s.subrange(i, i + 7)[4] == ':');
        assert(s[i + 4] == ':');
    }
}

proof fn lemma_linkify_from_no_colon(s: Seq<char>, i: int)
    requires
        0 <= i <= s.len(),
        !s.contains(':'),
    ensures
        linkify_from(s, i) == s.subrange(i, s.len() as int),
    decreases s.len() - i,
{
    let n = s.len() as int;
    if i < n {
        lemma_no_colon_no_address(s, 0);
        lemma_no_colon_no_address(s, i + 1);
        lemma_linkify_from_no_colon(s, i + 1);
        assert(s.subrange(i, n) =~= seq![s[i]] + s.subrange(i + 1, n));
    } else {
        assert(s.subrange(i, n) =~= Seq::<char>::empty());
    }
}

/// Text without any `:` holds no address, and linking leaves it unchanged.
pub proof fn law_linkify_without_colon_is_identity(s: Seq<char>)
    requires
        !s.contains(':'),
    ensures
        linkify(s) == s,
{
    lemma_linkify_from_no_colon(s, 0);
    assert(s.subrange(0, s.len() as int) =~= s);
}

/// Whether `s`, from position `i` to its end, is one address: it starts
/// with `http://` or `https://`, has at least one more character, and holds
/// no Unicode whitespace, `>` or `]`.
pub open spec fn whole_address_from(s: Seq<char>, i: int) -> bool {
    &&& 0 <= i
    &&& (occurs_at(s, i, http_scheme()) && i + 7 < s.len()) || (occurs_at(s, i, https_scheme())
        && i + 8 < s.len())
    &&& forall|k: int| i <= k < s.len() ==> !is_space_char(#[trigger] s[k]) && s[k] != '>' && s[k] != ']'
}

proof fn lemma_run_to_end(s: Seq<char>, j: int)
    requires
        0 <= j <= s.len(),
        forall|k: int| j <= k < s.len() ==> !is_space_char(#[trigger] s[k]) && s[k] != '>' && s[k] != ']',
    ensures
        address_run(s, j) == s.len() - j,
    decreases s.len() - j,
{
    if j < s.len() {
        lemma_run_to_end(s, j + 1);
    }
}

proof fn lemma_whole_address_len(s: Seq<char>, i: int)
    requires
        whole_address_from(s, i),
    ensures
        address_len(s, i) == s.len() - i,
{
    if occurs_at(s, i, http_scheme()) {
        assert(s.subrange(i, i + 7)[4] == ':');
        if occurs_at(s, i, https_scheme()) {
            assert(s.subrange(i, i + 8)[4] == 's');
        }
        assert(scheme_len(s, i) == 7);
        lemma_run_to_end(s, i + 7);
    } else {
        assert(scheme_len(s, i) == 8);
        lemma_run_to_end(s, i + 8);
    }
}

/// A text that is one address from its first character to its last is
/// wrapped whole: every character that is not whitespace, `>` or `]` stays
/// inside the link.
pub proof fn law_linkify_wraps_whole_address(s: Seq<char>)
    requires
        whole_address_from(s, 0),
    ensures
        linkify(s) == seq!['<'] + s + seq!['>'],
{
    lemma_whole_address_len(s, 0);
    lemma_address_len_bound(s, 0);
    assert(s.subrange(0, s.len() as int) =~= s);
    assert(linkify_from(s, s.len() as int) =~= Seq::<char>::empty());
    assert(seq!['<'] + s + seq!['>'] + Seq::<char>::empty() =~= seq!['<'] + s + seq!['>']);
}

/// An address that follows a character other than `(` and `<` and runs to
/// the end of the text is wrapped whole, and the character before it is kept.
pub proof fn law_linkify_wraps_address_after_char(c: char, s: Seq<char>)
    requires
        c != '(' && c != '<',
        whole_address_from(s, 0),
    ensures
        linkify(seq![c] + s) == seq![c, '<'] + s + seq!['>'],
{
    let t = seq![c] + s;
    assert(t.subrange(1, t.len() as int) =~= s);
    assert forall|k: int| 1 <= k < t.len() implies !is_space_char(#[trigger] t[k]) && t[k] != '>'
        && t[k] != ']' by {
        assert(t[k] == s[k - 1]);
    }
    if occurs_at(s, 0, http_scheme()) {
        assert(s.subrange(0, 7)[0] == 'h');
        assert(t.subrange(1, 8) =~= s.subrange(0, 7));
        assert(s[0] == 'h');
    } else {
        assert(s.subrange(0, 8)[0] == 'h');
        assert(t.subrange(1, 9) =~= s.subrange(0, 8));
        assert(s[0] == 'h');
    }
    assert(whole_address_from(t, 1));
    lemma_whole_address_len(t, 1);
    lemma_address_len_bound(t, 1);
    // No scheme starts at 0: the second character is `h`, not `t`.
    assert(t[1] == 'h');
    if occurs_at(t, 0, http_scheme()) {
        assert(t.subrange(0, 7)[1] == t[1]);
    }
    if occurs_at(t, 0, https_scheme()) {
        assert(t.subrange(0, 8)[1] == t[1]);
    }
    assert(address_len(t, 0) == 0);
    assert(linkify_from(t, t.len() as int) =~= Seq::<char>::empty());
    assert(t.subrange(1, 1 + (t.len() - 1)) =~= s);
    assert(linkify(t) =~= seq![c, '<'] + s + seq!['>']);
}

proof fn lemma_linkify_from_plain(t: Seq<char>, i: int)
    requires
        1 <= i <= t.len(),
        forall|p: int| i < p ==> address_len(t, p) == 0,
    ensures
        linkify_from(t, i) == t.subrange(i, t.len() as int),
    decreases t.len() - i,
{
    let n = t.len() as int;
    if i < n {
        lemma_linkify_from_plain(t, i + 1);
        assert(t.subrange(i, n) =~= seq![t[i]] + t.subrange(i + 1, n));
    } else {
        assert(t.subrange(i, n) =~= Seq::<char>::empty());
    }
}

/// An address right after `(` or `<` (a Markdown link target or an
/// autolink) is left as it is.
pub proof fn law_linkify_leaves_address_after_opener(c: char, scheme: Seq<char>, tail: Seq<char>)
    requires
        c == '(' || c == '<',
        scheme == http_scheme() || scheme == https_scheme(),
        !tail.contains(':'),
    ensures
        linkify(seq![c] + scheme + tail) == seq![c] + scheme + tail,
{
    let t = seq![c] + scheme + tail;
    let colon = scheme.len() - 2;
    assert(t[1] == 'h' && t[2] == 't');
    assert forall|k: int| 0 <= k < t.len() && #[trigger] t[k] == ':' implies k == colon by {
        if k > scheme.len() {
            assert(t[k] == tail[k - 1 - scheme.len()]);
        }
    }
    assert forall|p: int| 0 <= p implies #[trigger] address_len(t, p) == 0 || p == 1 by {
        if occurs_at(t, p, http_scheme()) {
            assert(t.subrange(p, p + 7)[4] == t[p + 4]);
            assert(t.subrange(p, p + 7)[0] == t[p]);
        }
        if occurs_at(t, p, https_scheme()) {
            assert(t.subrange(p, p + 8)[5] == t[p + 5]);
            assert(t.subrange(p, p + 8)[0] == t[p]);
        }
    }
    lemma_linkify_from_plain(t, 1);
    assert(t =~= seq![c] + t.subrange(1, t.len() as int));
}

} // verus!
