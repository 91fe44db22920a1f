#![verifier::loop_isolation(false)]

//! HTML to Markdown: a small tokenizer plus a recursive converter over the
//! token stream, and a final pass that collapses runs of blank lines.

use vstd::prelude::*;
use crate::error::Error;
use crate::html_escape::unescape_chars;
use crate::text::{
    chars_of, copy, eq_str, eq_vec, is_ascii_alnum, is_ascii_digit, is_whitespace, lead_end,
    lower_ascii_vec, matches_at, push_decimal, push_str, push_vec, skip_class, slice,
    spec_ascii_alnum, spec_is_whitespace, spec_lower_ascii_seq, starts_with_at, string_of, trim,
    trim_end_class, trim_start_class,
};

verus! {

broadcast use vstd::string::group_string_axioms;

// ---------------------------------------------------------------------------
// Tokens
// ---------------------------------------------------------------------------

/// One attribute: name and (raw) value.
pub struct Attr {
    pub name: Vec<char>,
    pub value: Vec<char>,
}

/// An HTML token.
pub enum HtmlToken {
    StartTag { name: Vec<char>, attrs: Vec<Attr>, self_closing: bool },
    EndTag(Vec<char>),
    Text(Vec<char>),
    Comment(Vec<char>),
    Doctype(Vec<char>),
}


/// A token as a mathematical value.
pub ghost enum Tok {
    Start { name: Seq<char>, attrs: Seq<(Seq<char>, Seq<char>)>, self_closing: bool },
    End(Seq<char>),
    Text(Seq<char>),
    Comment(Seq<char>),
    Doctype(Seq<char>),
}

/// Attributes as (name, value) pairs.
pub open spec fn attrs_view(a: Seq<Attr>) -> Seq<(Seq<char>, Seq<char>)> {
    a.map_values(|x: Attr| (x.name@, x.value@))
}

pub open spec fn tok_view(t: HtmlToken) -> Tok {
    match t {
        HtmlToken::StartTag { name, attrs, self_closing } => Tok::Start {
            name: name@,
            attrs: attrs_view(attrs@),
            self_closing,
        },
        HtmlToken::EndTag(n) => Tok::End(n@),
        HtmlToken::Text(s) => Tok::Text(s@),
        HtmlToken::Comment(s) => Tok::Comment(s@),
        HtmlToken::Doctype(s) => Tok::Doctype(s@),
    }
}

pub open spec fn toks_view(t: Seq<HtmlToken>) -> Seq<Tok> {
    t.map_values(|x: HtmlToken| tok_view(x))
}

/// Character classes of the tokenizer: 0 tag-name characters, 1
/// attribute-name characters, 2 anything but the quote `q`, 3 unquoted
/// attribute-value characters, 4 anything but `<`, 5 anything but `>`,
/// 6 anything but `;`.
pub open spec fn tok_class(cls: u8, q: char, c: char) -> bool {
    if cls == 0 {
        spec_ascii_alnum(c) || c == '-' || c == ':'
    } else if cls == 1 {
        spec_ascii_alnum(c) || c == '-' || c == ':' || c == '_'
    } else if cls == 2 {
        c != q
    } else if cls == 3 {
        !spec_is_whitespace(c) && c != '>' && c != '/'
    } else if cls == 4 {
        c != '<'
    } else if cls == 5 {
        c != '>'
    } else {
        c != ';'
    }
}

/// End of the run of class `cls` from `k`.
pub open spec fn tok_run(s: Seq<char>, k: int, cls: u8, q: char) -> int
    decreases s.len() - k,
{
    if k < 0 || k >= s.len() || !tok_class(cls, q, s[k]) {
        k
    } else {
        tok_run(s, k + 1, cls, q)
    }
}

pub proof fn lemma_tok_run(s: Seq<char>, k: int, cls: u8, q: char)
    requires
        0 <= k <= s.len(),
    ensures
        k <= tok_run(s, k, cls, q) <= s.len(),
        k < s.len() && tok_class(cls, q, s[k]) ==> k < tok_run(s, k, cls, q),
    decreases s.len() - k,
{
    if k < s.len() && tok_class(cls, q, s[k]) {
        lemma_tok_run(s, k + 1, cls, q);
    }
}

fn in_tok_class(cls: u8, q: char, c: char) -> (r: bool)
    ensures
        r == tok_class(cls, q, c),
{
    if cls == 0 {
        is_ascii_alnum(c) || c == '-' || c == ':'
    } else if cls == 1 {
        is_ascii_alnum(c) || c == '-' || c == ':' || c == '_'
    } else if cls == 2 {
        c != q
    } else if cls == 3 {
        !is_whitespace(c) && c != '>' && c != '/'
    } else if cls == 4 {
        c != '<'
    } else if cls == 5 {
        c != '>'
    } else {
        c != ';'
    }
}

fn run_of(s: &Vec<char>, k: usize, cls: u8, q: char) -> (r: usize)
    requires
        k <= s@.len(),
    ensures
        r == tok_run(s@, k as int, cls, q),
        k <= r <= s@.len(),
{
    proof {
        lemma_tok_run(s@, k as int, cls, q);
    }
    let mut j = k;
    while j < s.len() && in_tok_class(cls, q, s[j])
        invariant
            k <= j <= s@.len(),
            tok_run(s@, j as int, cls, q) == tok_run(s@, k as int, cls, q),
        decreases s@.len() - j,
    {
        j += 1;
    }
    j
}

/// Whitespace skipped from `p`.
pub open spec fn ws_skip(s: Seq<char>, p: int) -> int {
    lead_end(s, 0, p)
}

/// Skip Unicode whitespace from `p`.
fn skip_ws(s: &Vec<char>, p: usize) -> (r: usize)
    requires
        p <= s@.len(),
    ensures
        r == ws_skip(s@, p as int),
        p <= r <= s@.len(),
{
    skip_class(s, 0, p)
}

/// A comment at `pos` (`<!--` there): its text up to `-->`, or to the end
/// when unterminated.
pub open spec fn comment_at(s: Seq<char>, pos: int) -> (Tok, int) {
    let start = pos + 4;
    match crate::sanitize::spec_find(s, start, "-->"@) {
        Some(q) => (Tok::Comment(s.subrange(start, q)), q + 3),
        None => (Tok::Comment(s.subrange(start, s.len() as int)), s.len() as int),
    }
}

/// A declaration at `pos` (`<!` there): its text up to `>`, or to the end.
pub open spec fn doctype_at(s: Seq<char>, pos: int) -> (Tok, int) {
    let start = pos + 2;
    let e = tok_run(s, start, 5, ' ');
    if e < s.len() {
        (Tok::Doctype(s.subrange(start, e)), e + 1)
    } else {
        (Tok::Doctype(s.subrange(start, s.len() as int)), s.len() as int)
    }
}

/// The attributes of a start tag from `p`: whitespace, a name, optional
/// whitespace, then an optional `=` with a quoted or unquoted value; the
/// list ends at `>` or `/`, or where no name starts. The second part is
/// where the list ended.
pub open spec fn tag_attrs(s: Seq<char>, p: int) -> (Seq<(Seq<char>, Seq<char>)>, int)
    decreases s.len() - p,
{
    if p < 0 || p > s.len() {
        (Seq::empty(), p)
    } else {
        let p1 = ws_skip(s, p);
        proof {
            crate::text::lemma_lead_end_bounds(s, 0, p);
        }
        if p1 < s.len() && (s[p1] == '>' || s[p1] == '/') {
            (Seq::empty(), p1)
        } else {
            let ae = tok_run(s, p1, 1, ' ');
            proof {
                lemma_tok_run(s, p1, 1, ' ');
            }
            if ae == p1 {
                (Seq::empty(), p1)
            } else {
                let an = s.subrange(p1, ae);
                let p2 = ws_skip(s, ae);
                proof {
                    crate::text::lemma_lead_end_bounds(s, 0, ae);
                }
                let (value, next) = if p2 < s.len() && s[p2] == '=' {
                    let p3 = ws_skip(s, p2 + 1);
                    proof {
                        crate::text::lemma_lead_end_bounds(s, 0, p2 + 1);
                    }
                    if p3 < s.len() && (s[p3] == '"' || s[p3] == '\'') {
                        let e = tok_run(s, p3 + 1, 2, s[p3]);
                        proof {
                            lemma_tok_run(s, p3 + 1, 2, s[p3]);
                        }
                        (
                            s.subrange(p3 + 1, e),
                            if e < s.len() {
                                e + 1
                            } else {
                                e
                            },
                        )
                    } else {
                        let e = tok_run(s, p3, 3, ' ');
                        proof {
                            lemma_tok_run(s, p3, 3, ' ');
                        }
                        (s.subrange(p3, e), e)
                    }
                } else {
                    (Seq::empty(), p2)
                };
                if next > p {
                    let rest = tag_attrs(s, next);
                    (seq![(an, value)] + rest.0, rest.1)
                } else {
                    (seq![(an, value)], next)
                }
            }
        }
    }
}

/// A start or end tag at `pos` (`<` there). Names are lowercased; an end
/// tag runs to its `>`; a start tag takes its attributes, then an
/// optional `/` and an optional `>`.
pub open spec fn tag_at(s: Seq<char>, pos: int) -> (Tok, int) {
    let p = pos + 1;
    if p < s.len() && s[p] == '/' {
        let ne = tok_run(s, p + 1, 0, ' ');
        let e = tok_run(s, ne, 5, ' ');
        (
            Tok::End(spec_lower_ascii_seq(s.subrange(p + 1, ne))),
            if e < s.len() {
                e + 1
            } else {
                e
            },
        )
    } else {
        let ne = tok_run(s, p, 0, ' ');
        let (attrs, q) = tag_attrs(s, ne);
        let sc = 0 <= q < s.len() && s[q] == '/';
        let q1 = if sc {
            q + 1
        } else {
            q
        };
        let q2 = if 0 <= q1 < s.len() && s[q1] == '>' {
            q1 + 1
        } else {
            q1
        };
        (
            Tok::Start {
                name: spec_lower_ascii_seq(s.subrange(p, ne)),
                attrs,
                self_closing: sc,
            },
            q2,
        )
    }
}

/// The token at `pos` and where the next one starts.
pub open spec fn next_tok(s: Seq<char>, pos: int) -> (Tok, int) {
    if s[pos] == '<' {
        if matches_at(s, pos, "<!--"@) {
            comment_at(s, pos)
        } else if matches_at(s, pos, "<!"@) {
            doctype_at(s, pos)
        } else {
            tag_at(s, pos)
        }
    } else {
        let e = tok_run(s, pos, 4, ' ');
        (Tok::Text(s.subrange(pos, e)), e)
    }
}

/// The tokens of `s` from `pos` on.
pub open spec fn tokens_from(s: Seq<char>, pos: int) -> Seq<Tok>
    decreases s.len() - pos,
{
    if pos < 0 || pos >= s.len() {
        Seq::empty()
    } else {
        let (t, np) = next_tok(s, pos);
        if pos < np <= s.len() {
            seq![t] + tokens_from(s, np)
        } else {
            seq![t]
        }
    }
}

pub proof fn lemma_tag_attrs(s: Seq<char>, p: int)
    requires
        0 <= p <= s.len(),
    ensures
        p <= tag_attrs(s, p).1 <= s.len(),
    decreases s.len() - p,
{
    crate::text::lemma_lead_end_bounds(s, 0, p);
    let p1 = ws_skip(s, p);
    if !(p1 < s.len() && (s[p1] == '>' || s[p1] == '/')) {
        lemma_tok_run(s, p1, 1, ' ');
        let ae = tok_run(s, p1, 1, ' ');
        if ae != p1 {
            crate::text::lemma_lead_end_bounds(s, 0, ae);
            let p2 = ws_skip(s, ae);
            if p2 < s.len() && s[p2] == '=' {
                crate::text::lemma_lead_end_bounds(s, 0, p2 + 1);
                let p3 = ws_skip(s, p2 + 1);
                if p3 < s.len() && (s[p3] == '"' || s[p3] == '\'') {
                    lemma_tok_run(s, p3 + 1, 2, s[p3]);
                    let e = tok_run(s, p3 + 1, 2, s[p3]);
                    lemma_tag_attrs(s, if e < s.len() { e + 1 } else { e });
                } else {
                    lemma_tok_run(s, p3, 3, ' ');
                    lemma_tag_attrs(s, tok_run(s, p3, 3, ' '));
                }
            } else {
                lemma_tag_attrs(s, p2);
            }
        }
    }
}

/// A comment `<!--...-->` at `pos` (unterminated: to the end).
fn parse_comment(s: &Vec<char>, pos: usize) -> (r: (HtmlToken, usize))
    requires
        pos + 4 <= s@.len(),
    ensures
        (tok_view(r.0), r.1 as int) == comment_at(s@, pos as int),
        pos < r.1 <= s@.len(),
{
    proof {
        reveal_strlit("-->");
    }
    let start = pos + 4;
    match crate::sanitize::find(s, start, "-->") {
        Some(q) => {
            proof {
                crate::sanitize::lemma_find_bounds(s@, start as int, "-->"@);
            }
            (HtmlToken::Comment(slice(s, start, q)), q + 3)
        },
        None => (HtmlToken::Comment(slice(s, start, s.len())), s.len()),
    }
}

/// A declaration `<!...>` at `pos` (unterminated: to the end).
fn parse_doctype(s: &Vec<char>, pos: usize) -> (r: (HtmlToken, usize))
    requires
        pos + 2 <= s@.len(),
    ensures
        (tok_view(r.0), r.1 as int) == doctype_at(s@, pos as int),
        pos < r.1 <= s@.len(),
{
    let start = pos + 2;
    let e = run_of(s, start, 5, ' ');
    if e < s.len() {
        (HtmlToken::Doctype(slice(s, start, e)), e + 1)
    } else {
        (HtmlToken::Doctype(slice(s, start, s.len())), s.len())
    }
}

/// The attributes of a start tag from `p`.
fn parse_tag_attrs(s: &Vec<char>, p0: usize) -> (r: (Vec<Attr>, usize))
    requires
        p0 <= s@.len(),
    ensures
        (attrs_view(r.0@), r.1 as int) == tag_attrs(s@, p0 as int),
        p0 <= r.1 <= s@.len(),
{
    let mut attrs: Vec<Attr> = Vec::new();
    let mut p = p0;
    proof {
        lemma_tag_attrs(s@, p0 as int);
    }
    loop
        invariant
            p0 <= p <= s@.len(),
            attrs_view(attrs@) + tag_attrs(s@, p as int).0 == tag_attrs(s@, p0 as int).0,
            tag_attrs(s@, p as int).1 == tag_attrs(s@, p0 as int).1,
        decreases s@.len() - p,
    {
        let ghost before = attrs_view(attrs@);
        let p1 = skip_ws(s, p);
        if p1 < s.len() && (s[p1] == '>' || s[p1] == '/') {
            assert(attrs_view(attrs@) =~= tag_attrs(s@, p0 as int).0);
            return (attrs, p1);
        }
        let ae = run_of(s, p1, 1, ' ');
        if ae == p1 {
            assert(attrs_view(attrs@) =~= tag_attrs(s@, p0 as int).0);
            return (attrs, p1);
        }
        let attr_name = slice(s, p1, ae);
        let p2 = skip_ws(s, ae);
        let mut value: Vec<char> = Vec::new();
        let mut next = p2;
        if p2 < s.len() && s[p2] == '=' {
            let p3 = skip_ws(s, p2 + 1);
            if p3 < s.len() && (s[p3] == '"' || s[p3] == '\'') {
                let q = s[p3];
                let e = run_of(s, p3 + 1, 2, q);
                value = slice(s, p3 + 1, e);
                next = if e < s.len() {
                    e + 1
                } else {
                    e
                };
            } else {
                let e = run_of(s, p3, 3, ' ');
                value = slice(s, p3, e);
                next = e;
            }
        }
        proof {
            lemma_tok_run(s@, p1 as int, 1, ' ');
        }
        attrs.push(Attr { name: attr_name, value });
        assert(attrs_view(attrs@) =~= before.push((s@.subrange(p1 as int, ae as int), value@)));
        p = next;
    }
}

/// A start or end tag at `pos` (where `s[pos]` is `<`).
fn parse_tag(s: &Vec<char>, pos: usize) -> (r: (HtmlToken, usize))
    requires
        pos < s@.len(),
    ensures
        (tok_view(r.0), r.1 as int) == tag_at(s@, pos as int),
        pos < r.1 <= s@.len(),
{
    let p = pos + 1;
    if p < s.len() && s[p] == '/' {
        let ne = run_of(s, p + 1, 0, ' ');
        let name = lower_ascii_vec(&slice(s, p + 1, ne));
        let e = run_of(s, ne, 5, ' ');
        let end = if e < s.len() {
            e + 1
        } else {
            e
        };
        return (HtmlToken::EndTag(name), end);
    }
    let ne = run_of(s, p, 0, ' ');
    let name = lower_ascii_vec(&slice(s, p, ne));
    let (attrs, q) = parse_tag_attrs(s, ne);
    let self_closing = q < s.len() && s[q] == '/';
    let q1 = if self_closing {
        q + 1
    } else {
        q
    };
    let q2 = if q1 < s.len() && s[q1] == '>' {
        q1 + 1
    } else {
        q1
    };
    (HtmlToken::StartTag { name, attrs, self_closing }, q2)
}

/// The token at `pos` and the index after it.
fn next_token(s: &Vec<char>, pos: usize) -> (r: (HtmlToken, usize))
    requires
        pos < s@.len(),
    ensures
        (tok_view(r.0), r.1 as int) == next_tok(s@, pos as int),
        pos < r.1 <= s@.len(),
{
    proof {
        reveal_strlit("<!--");
        reveal_strlit("<!");
    }
    if s[pos] == '<' {
        if starts_with_at(s, pos, "<!--") {
            return parse_comment(s, pos);
        }
        if starts_with_at(s, pos, "<!") {
            return parse_doctype(s, pos);
        }
        return parse_tag(s, pos);
    }
    proof {
        lemma_tok_run(s@, pos as int, 4, ' ');
    }
    let e = run_of(s, pos, 4, ' ');
    (HtmlToken::Text(slice(s, pos, e)), e)
}

/// Split HTML into tokens.
fn tokenize(s: &Vec<char>) -> (r: Vec<HtmlToken>)
    ensures
        toks_view(r@) == tokens_from(s@, 0),
{
    let mut tokens: Vec<HtmlToken> = Vec::new();
    let mut pos: usize = 0;
    while pos < s.len()
        invariant
            pos <= s@.len(),
            toks_view(tokens@) + tokens_from(s@, pos as int) == tokens_from(s@, 0),
        decreases s@.len() - pos,
    {
        let ghost before = toks_view(tokens@);
        let (t, np) = next_token(s, pos);
        tokens.push(t);
        assert(toks_view(tokens@) =~= before.push(tok_view(t)));
        assert(toks_view(tokens@) + tokens_from(s@, np as int) =~= before + tokens_from(s@, pos as int));
        pos = np;
    }
    assert(toks_view(tokens@) + Seq::<Tok>::empty() =~= toks_view(tokens@));
    tokens
}

// ---------------------------------------------------------------------------
// Attribute helpers
// ---------------------------------------------------------------------------

/// Value of the first attribute named `key` from index `i` on.
pub open spec fn attr_lookup(attrs: Seq<(Seq<char>, Seq<char>)>, key: Seq<char>, i: int) -> Option<
    Seq<char>,
>
    decreases attrs.len() - i,
{
    if i < 0 || i >= attrs.len() {
        None
    } else if attrs[i].0 == key {
        Some(attrs[i].1)
    } else {
        attr_lookup(attrs, key, i + 1)
    }
}

/// Value of the first attribute named `key`, or empty.
pub open spec fn attr_or_none(attrs: Seq<(Seq<char>, Seq<char>)>, key: Seq<char>) -> Seq<char> {
    match attr_lookup(attrs, key, 0) {
        Some(v) => v,
        None => Seq::empty(),
    }
}

/// Some attribute is named `key`.
pub open spec fn spec_has_attr(attrs: Seq<(Seq<char>, Seq<char>)>, key: Seq<char>) -> bool {
    exists|i: int| 0 <= i < attrs.len() && #[trigger] attrs[i].0 == key
}

fn attr_value(attrs: &Vec<Attr>, key: &str) -> (r: Option<Vec<char>>)
    ensures
        match r {
            Some(v) => attr_lookup(attrs_view(attrs@), key@, 0) == Some(v@),
            None => attr_lookup(attrs_view(attrs@), key@, 0) is None,
        },
{
    let ghost av = attrs_view(attrs@);
    let mut i: usize = 0;
    while i < attrs.len()
        invariant
            i <= attrs@.len(),
            av == attrs_view(attrs@),
            attr_lookup(av, key@, i as int) == attr_lookup(av, key@, 0),
        decreases attrs@.len() - i,
    {
        assert(av[i as int] == (attrs@[i as int].name@, attrs@[i as int].value@));
        if eq_str(&attrs[i].name, key) {
            return Some(copy(&attrs[i].value));
        }
        i += 1;
    }
    None
}

/// Value of an attribute, or empty.
fn attr_or_empty(attrs: &Vec<Attr>, key: &str) -> (r: Vec<char>)
    ensures
        r@ == attr_or_none(attrs_view(attrs@), key@),
{
    match attr_value(attrs, key) {
        Some(v) => v,
        None => Vec::new(),
    }
}

/// Some attribute is named `key`.
fn has_attr(attrs: &Vec<Attr>, key: &str) -> (r: bool)
    ensures
        r == spec_has_attr(attrs_view(attrs@), key@),
{
    let ghost av = attrs_view(attrs@);
    let mut i: usize = 0;
    while i < attrs.len()
        invariant
            i <= attrs@.len(),
            av == attrs_view(attrs@),
            forall|j: int| 0 <= j < i ==> av[j].0 != key@,
        decreases attrs@.len() - i,
    {
        assert(av[i as int] == (attrs@[i as int].name@, attrs@[i as int].value@));
        if eq_str(&attrs[i].name, key) {
            assert(av[i as int].0 == key@);
            return true;
        }
        i += 1;
    }
    false
}

/// End of the run of non-whitespace from `i`.
pub open spec fn word_end(v: Seq<char>, i: int) -> int
    decreases v.len() - i,
{
    if i < 0 || i >= v.len() || spec_is_whitespace(v[i]) {
        i
    } else {
        word_end(v, i + 1)
    }
}

pub proof fn lemma_word_end(v: Seq<char>, i: int)
    requires
        0 <= i <= v.len(),
    ensures
        i <= word_end(v, i) <= v.len(),
        i < v.len() && !spec_is_whitespace(v[i]) ==> i < word_end(v, i),
    decreases v.len() - i,
{
    if i < v.len() && !spec_is_whitespace(v[i]) {
        lemma_word_end(v, i + 1);
    }
}

fn word_end_exec(v: &Vec<char>, i: usize) -> (r: usize)
    requires
        i <= v@.len(),
    ensures
        r == word_end(v@, i as int),
        i <= r <= v@.len(),
{
    proof {
        lemma_word_end(v@, i as int);
    }
    let mut e = i;
    while e < v.len() && !is_whitespace(v[e])
        invariant
            i <= e <= v@.len(),
            word_end(v@, e as int) == word_end(v@, i as int),
        decreases v@.len() - e,
    {
        e += 1;
    }
    e
}

/// `token` is one of the whitespace-separated words of `v` from `i` on.
pub open spec fn has_word_from(v: Seq<char>, i: int, token: Seq<char>) -> bool
    decreases v.len() - i,
{
    if i < 0 || i >= v.len() {
        false
    } else if spec_is_whitespace(v[i]) {
        has_word_from(v, i + 1, token)
    } else {
        let e = word_end(v, i);
        proof {
            lemma_word_end(v, i);
        }
        v.subrange(i, e) == token || has_word_from(v, e, token)
    }
}

/// `v` has `token` among its whitespace-separated words.
fn has_word(v: &Vec<char>, token: &str) -> (r: bool)
    ensures
        r == has_word_from(v@, 0, token@),
{
    let tok = chars_of(token);
    let mut i: usize = 0;
    while i < v.len()
        invariant
            i <= v@.len(),
            tok@ == token@,
            has_word_from(v@, i as int, token@) == has_word_from(v@, 0, token@),
        decreases v@.len() - i,
    {
        if is_whitespace(v[i]) {
            i += 1;
        } else {
            let e = word_end_exec(v, i);
            proof {
                lemma_word_end(v@, i as int);
            }
            let w = slice(v, i, e);
            if eq_vec(&w, &tok) {
                return true;
            }
            i = e;
        }
    }
    false
}

/// The first `class` attribute has the word `token`.
pub open spec fn spec_class_has(attrs: Seq<(Seq<char>, Seq<char>)>, token: Seq<char>) -> bool {
    match attr_lookup(attrs, "class"@, 0) {
        Some(v) => has_word_from(v, 0, token),
        None => false,
    }
}

fn class_has(attrs: &Vec<Attr>, token: &str) -> (r: bool)
    ensures
        r == spec_class_has(attrs_view(attrs@), token@),
{
    match attr_value(attrs, "class") {
        Some(v) => has_word(&v, token),
        None => false,
    }
}

/// An anchor's attributes mark a footnote backlink.
pub open spec fn spec_backref(attrs: Seq<(Seq<char>, Seq<char>)>) -> bool {
    spec_has_attr(attrs, "data-footnote-backref"@) || spec_class_has(attrs, "footnote-backref"@)
}

fn is_backref_anchor(attrs: &Vec<Attr>) -> (r: bool)
    ensures
        r == spec_backref(attrs_view(attrs@)),
{
    has_attr(attrs, "data-footnote-backref") || class_has(attrs, "footnote-backref")
}

/// An `<input>` whose first `type` attribute is `checkbox` (ASCII case
/// insensitive).
pub open spec fn spec_checkbox(attrs: Seq<(Seq<char>, Seq<char>)>) -> bool {
    match attr_lookup(attrs, "type"@, 0) {
        Some(v) => spec_lower_ascii_seq(v) == "checkbox"@,
        None => false,
    }
}

fn is_checkbox(attrs: &Vec<Attr>) -> (r: bool)
    ensures
        r == spec_checkbox(attrs_view(attrs@)),
{
    match attr_value(attrs, "type") {
        Some(v) => eq_str(&lower_ascii_vec(&v), "checkbox"),
        None => false,
    }
}

/// An anchor's visible text is already its bare form: the href itself,
/// `mailto:` plus the text, or `http://` plus a `www.` text.
pub open spec fn spec_bare_anchor(content: Seq<char>, href: Seq<char>) -> bool {
    ||| content == href
    ||| (matches_at(href, 0, "mailto:"@) && href.skip(7) == content)
    ||| (matches_at(content, 0, "www."@) && href == "http://"@ + content)
}

fn is_bare_anchor(content: &Vec<char>, href: &Vec<char>) -> (r: bool)
    ensures
        r == spec_bare_anchor(content@, href@),
{
    proof {
        reveal_strlit("mailto:");
        reveal_strlit("www.");
        reveal_strlit("http://");
    }
    if eq_vec(content, href) {
        return true;
    }
    let m = starts_with_at(href, 0, "mailto:");
    if m {
        let addr = slice(href, 7, href.len());
        assert(addr@ =~= href@.skip(7));
        if eq_vec(&addr, content) {
            return true;
        }
    }
    let mut full: Vec<char> = Vec::new();
    push_str(&mut full, "http://");
    push_vec(&mut full, content);
    let w = starts_with_at(content, 0, "www.");
    let e = eq_vec(href, &full);
    w && e
}

/// The words of `v` from `i` on appended to `acc`, separated by single
/// spaces.
pub open spec fn collapse_from(v: Seq<char>, i: int, acc: Seq<char>) -> Seq<char>
    decreases v.len() - i,
{
    if i < 0 || i >= v.len() {
        acc
    } else if spec_is_whitespace(v[i]) {
        collapse_from(v, i + 1, acc)
    } else {
        let e = word_end(v, i);
        proof {
            lemma_word_end(v, i);
        }
        collapse_from(
            v,
            e,
            acc + (if acc.len() > 0 {
                seq![' ']
            } else {
                Seq::empty()
            }) + v.subrange(i, e),
        )
    }
}

/// Whitespace-separated words joined by single spaces.
pub open spec fn spec_collapse(v: Seq<char>) -> Seq<char> {
    collapse_from(v, 0, Seq::empty())
}

fn collapse_ws(v: &Vec<char>) -> (r: Vec<char>)
    ensures
        r@ == spec_collapse(v@),
{
    let mut out: Vec<char> = Vec::new();
    let mut i: usize = 0;
    while i < v.len()
        invariant
            i <= v@.len(),
            collapse_from(v@, i as int, out@) == spec_collapse(v@),
        decreases v@.len() - i,
    {
        if is_whitespace(v[i]) {
            i += 1;
        } else {
            let e = word_end_exec(v, i);
            proof {
                lemma_word_end(v@, i as int);
            }
            let ghost before = out@;
            if out.len() > 0 {
                out.push(' ');
            }
            let w = slice(v, i, e);
            push_vec(&mut out, &w);
            assert(out@ =~= before + (if before.len() > 0 {
                seq![' ']
            } else {
                Seq::empty()
            }) + v@.subrange(i as int, e as int));
            i = e;
        }
    }
    out
}

/// Decimal value of `v[from..to]`.
pub open spec fn digits_value(v: Seq<char>, to: int, from: int) -> nat
    decreases to - from,
{
    if to <= from {
        0
    } else {
        digits_value(v, to - 1, from) * 10 + ((v[to - 1] as u32) - 48) as nat
    }
}

/// `str::parse::<u32>`: an optional `+`, then one or more decimal digits
/// whose value fits.
pub open spec fn spec_parse_u32(v: Seq<char>) -> Option<u32> {
    let from: int = if v.len() > 0 && v[0] == '+' {
        1
    } else {
        0
    };
    if from >= v.len() {
        None
    } else if exists|k: int| from <= k < v.len() && !#[trigger] crate::text::spec_ascii_digit(v[k]) {
        None
    } else if digits_value(v, v.len() as int, from) > u32::MAX {
        None
    } else {
        Some(digits_value(v, v.len() as int, from) as u32)
    }
}

proof fn lemma_digits_grow(v: Seq<char>, to: int, from: int, k: int)
    requires
        from <= k <= to <= v.len(),
        forall|j: int| from <= j < to ==> #[trigger] crate::text::spec_ascii_digit(v[j]),
    ensures
        digits_value(v, k, from) <= digits_value(v, to, from),
    decreases to - k,
{
    if k < to {
        lemma_digits_grow(v, to - 1, from, k);
    }
}

fn parse_u32(v: &Vec<char>) -> (r: Option<u32>)
    ensures
        r == spec_parse_u32(v@),
{
    let mut i: usize = 0;
    if v.len() > 0 && v[0] == '+' {
        i = 1;
    }
    let from = i;
    if i >= v.len() {
        return None;
    }
    let mut n: u32 = 0;
    while i < v.len()
        invariant
            from <= i <= v@.len(),
            from == (if v@.len() > 0 && v@[0] == '+' {
                1int
            } else {
                0int
            }),
            from < v@.len(),
            forall|j: int| from <= j < i ==> #[trigger] crate::text::spec_ascii_digit(v@[j]),
            n == digits_value(v@, i as int, from as int),
        decreases v@.len() - i,
    {
        let c = v[i];
        if !is_ascii_digit(c) {
            return None;
        }
        let d = (c as u32) - 48;
        match n.checked_mul(10) {
            Some(m) => match m.checked_add(d) {
                Some(x) => {
                    n = x;
                },
                None => {
                    proof {
                        assert forall|j: int| from <= j < i + 1 implies #[trigger] crate::text::spec_ascii_digit(v@[j]) by {}
                        if forall|j: int| from <= j < v@.len() ==> #[trigger] crate::text::spec_ascii_digit(v@[j]) {
                            lemma_digits_grow(v@, v@.len() as int, from as int, i + 1);
                        }
                    }
                    return None;
                },
            },
            None => {
                proof {
                    if forall|j: int| from <= j < v@.len() ==> #[trigger] crate::text::spec_ascii_digit(v@[j]) {
                        lemma_digits_grow(v@, v@.len() as int, from as int, i + 1);
                    }
                }
                return None;
            },
        }
        i += 1;
    }
    Some(n)
}

// ---------------------------------------------------------------------------
// Tables
// ---------------------------------------------------------------------------

/// Per-column alignment of an HTML table.
#[derive(Clone, Copy, PartialEq, Eq, Structural)]
pub enum Alignment {
    Unset,
    Left,
    Center,
    Right,
}

/// Alignment keyword: `left`, `center`/`middle`, `right`.
pub open spec fn spec_alignment_word(v: Seq<char>) -> Alignment {
    if v == "left"@ {
        Alignment::Left
    } else if v == "center"@ || v == "middle"@ {
        Alignment::Center
    } else if v == "right"@ {
        Alignment::Right
    } else {
        Alignment::Unset
    }
}

fn alignment_word(v: &Vec<char>) -> (r: Alignment)
    ensures
        r == spec_alignment_word(v@),
{
    if eq_str(v, "left") {
        Alignment::Left
    } else if eq_str(v, "center") || eq_str(v, "middle") {
        Alignment::Center
    } else if eq_str(v, "right") {
        Alignment::Right
    } else {
        Alignment::Unset
    }
}

/// The alignment named in a `style` value: the word after the first
/// `text-align:`, up to `;`, trimmed (the value lowercased first).
pub open spec fn style_alignment(v: Seq<char>) -> Alignment {
    let lower = spec_lower_ascii_seq(v);
    match crate::sanitize::spec_find(lower, 0, "text-align:"@) {
        None => Alignment::Unset,
        Some(at) => {
            let from = at + 11;
            let e = tok_run(lower, from, 6, ' ');
            spec_alignment_word(crate::text::spec_trim(lower.subrange(from, e), 0))
        },
    }
}

/// Column alignment from a cell's attributes: the `align` attribute wins,
/// then `style="text-align: ..."`.
pub open spec fn spec_alignment(attrs: Seq<(Seq<char>, Seq<char>)>) -> Alignment {
    let from_align = match attr_lookup(attrs, "align"@, 0) {
        Some(v) => spec_alignment_word(spec_lower_ascii_seq(v)),
        None => Alignment::Unset,
    };
    if from_align != Alignment::Unset {
        from_align
    } else {
        match attr_lookup(attrs, "style"@, 0) {
            Some(v) => style_alignment(v),
            None => Alignment::Unset,
        }
    }
}

fn alignment_from_attrs(attrs: &Vec<Attr>) -> (r: Alignment)
    ensures
        r == spec_alignment(attrs_view(attrs@)),
{
    match attr_value(attrs, "align") {
        Some(v) => {
            let a = alignment_word(&lower_ascii_vec(&v));
            if a != Alignment::Unset {
                return a;
            }
        },
        None => {},
    }
    match attr_value(attrs, "style") {
        Some(v) => {
            let lower = lower_ascii_vec(&v);
            proof {
                reveal_strlit("text-align:");
            }
            match crate::sanitize::find(&lower, 0, "text-align:") {
                Some(at) => {
                    let n = lower.len();
                    proof {
                        crate::sanitize::lemma_find_bounds(lower@, 0, "text-align:"@);
                    }
                    assert(crate::sanitize::spec_find(lower@, 0, "text-align:"@) == Some(at as int));
                    let from = at + 11;
                    let e = run_of(&lower, from, 6, ' ');
                    let value = trim(&slice(&lower, from, e));
                    alignment_word(&value)
                },
                None => Alignment::Unset,
            }
        },
        None => Alignment::Unset,
    }
}

/// A table cell for the pipe-table format, from `i` on: `|` becomes `\|`,
/// line feeds become spaces.
pub open spec fn cell_escape_from(s: Seq<char>, i: int) -> Seq<char>
    decreases s.len() - i,
{
    if i < 0 || i >= s.len() {
        Seq::empty()
    } else if s[i] == '|' {
        seq!['\\', '|'] + cell_escape_from(s, i + 1)
    } else if s[i] == '\n' {
        seq![' '] + cell_escape_from(s, i + 1)
    } else {
        seq![s[i]] + cell_escape_from(s, i + 1)
    }
}

/// A table cell, trimmed and escaped.
pub open spec fn spec_escape_cell(cell: Seq<char>) -> Seq<char> {
    cell_escape_from(crate::text::spec_trim(cell, 0), 0)
}

/// Escape a table cell: surrounding whitespace trimmed, `|` becomes `\|`,
/// line feeds become spaces.
fn escape_cell(cell: &Vec<char>) -> (r: Vec<char>)
    ensures
        r@ == spec_escape_cell(cell@),
{
    let t = trim(cell);
    let mut out: Vec<char> = Vec::new();
    let mut i: usize = 0;
    while i < t.len()
        invariant
            i <= t@.len(),
            out@ + cell_escape_from(t@, i as int) == cell_escape_from(t@, 0),
        decreases t@.len() - i,
    {
        let ghost before = out@;
        if t[i] == '|' {
            out.push('\\');
            out.push('|');
        } else if t[i] == '\n' {
            out.push(' ');
        } else {
            out.push(t[i]);
        }
        assert(before + cell_escape_from(t@, i as int) =~= out@ + cell_escape_from(t@, i + 1));
        i += 1;
    }
    assert(out@ =~= cell_escape_from(t@, 0));
    out
}

/// Delimiter-row marker of a column alignment.
pub open spec fn delimiter_marker(a: Alignment) -> Seq<char> {
    match a {
        Alignment::Unset => "---"@,
        Alignment::Left => ":--"@,
        Alignment::Center => ":-:"@,
        Alignment::Right => "--:"@,
    }
}

/// Every column alignment survives a round trip: the delimiter cell
/// written for a column reads back, as a table delimiter cell, as the same
/// alignment.
pub proof fn law_delimiter_marker_round_trip(a: Alignment)
    ensures
        crate::markdown_to_html::spec_delim_cell(delimiter_marker(a)) == Some(
            match a {
                Alignment::Unset => crate::markdown_to_html::Align::Unset,
                Alignment::Left => crate::markdown_to_html::Align::Left,
                Alignment::Center => crate::markdown_to_html::Align::Center,
                Alignment::Right => crate::markdown_to_html::Align::Right,
            },
        ),
{
    reveal_strlit("---");
    reveal_strlit(":--");
    reveal_strlit(":-:");
    reveal_strlit("--:");
    let c = delimiter_marker(a);
    assert(c.len() == 3);
    assert(!(exists|k: int| 1 <= k < 2 && #[trigger] c[k] != '-'));
    assert(!(exists|k: int| 0 <= k < 2 && #[trigger] c[k] != '-') || a is Left || a is Center);
    assert(!(exists|k: int| 1 <= k < 3 && #[trigger] c[k] != '-') || a is Right || a is Center || a is Unset);
    assert(!(exists|k: int| 0 <= k < 3 && #[trigger] c[k] != '-') || !(a is Unset));
}

fn push_delimiter_marker(out: &mut Vec<char>, a: Alignment)
    ensures
        final(out)@ == old(out)@ + delimiter_marker(a),
{
    match a {
        Alignment::Unset => push_str(out, "---"),
        Alignment::Left => push_str(out, ":--"),
        Alignment::Center => push_str(out, ":-:"),
        Alignment::Right => push_str(out, "--:"),
    }
}

/// One collected `<tr>` row.
pub struct TableRow {
    pub cells: Vec<(Vec<char>, Alignment)>,
    pub any_th: bool,
    pub in_thead: bool,
}

// ---------------------------------------------------------------------------
// Footnote and definition-list formatting
// ---------------------------------------------------------------------------

/// The paragraphs of `v[start..]`, scanning from `i`: split at each
/// `\n\n`, left to right, without overlap.
pub open spec fn paras_from(v: Seq<char>, start: int, i: int) -> Seq<Seq<char>>
    decreases v.len() - i,
{
    if i < 0 || i >= v.len() {
        seq![v.subrange(start, v.len() as int)]
    } else if v[i] == '\n' && i + 1 < v.len() && v[i + 1] == '\n' {
        seq![v.subrange(start, i)] + paras_from(v, i + 2, i + 2)
    } else {
        paras_from(v, start, i + 1)
    }
}

/// Split at each `\n\n` (non-overlapping, left to right).
fn split_paragraphs(v: &Vec<char>) -> (r: Vec<Vec<char>>)
    ensures
        r@.map_values(|p: Vec<char>| p@) == paras_from(v@, 0, 0),
        r@.len() >= 1,
{
    let mut r: Vec<Vec<char>> = Vec::new();
    let mut start: usize = 0;
    let mut i: usize = 0;
    while i < v.len()
        invariant
            start <= i <= v@.len(),
            r@.map_values(|p: Vec<char>| p@) + paras_from(v@, start as int, i as int) == paras_from(
                v@,
                0,
                0,
            ),
        decreases v@.len() - i,
    {
        if v[i] == '\n' && i + 1 < v.len() && v[i + 1] == '\n' {
            let ghost before = r@.map_values(|p: Vec<char>| p@);
            let piece = slice(v, start, i);
            r.push(piece);
            assert(r@.map_values(|p: Vec<char>| p@) =~= before.push(v@.subrange(start as int, i as int)));
            i += 2;
            start = i;
        } else {
            i += 1;
        }
    }
    let ghost before = r@.map_values(|p: Vec<char>| p@);
    let last = slice(v, start, v.len());
    r.push(last);
    assert(r@.map_values(|p: Vec<char>| p@) =~= before.push(v@.subrange(start as int, v@.len() as int)));
    r
}

/// Line feeds as spaces.
pub open spec fn nl_to_space(s: Seq<char>) -> Seq<char> {
    s.map_values(|c: char| if c == '\n' { ' ' } else { c })
}

/// Later-paragraph lines: each trimmed, 4-space indented, blank when empty.
pub open spec fn indent_lines(ls: Seq<Seq<char>>) -> Seq<char>
    decreases ls.len(),
{
    if ls.len() == 0 {
        Seq::empty()
    } else {
        let t = crate::text::spec_trim(ls.last(), 0);
        indent_lines(ls.drop_last()) + (if t.len() == 0 {
            seq!['\n']
        } else {
            seq![' ', ' ', ' ', ' '] + t + seq!['\n']
        })
    }
}

/// Paragraphs from `q` on appended to `acc`: each after a blank line,
/// indented, trailing whitespace trimmed.
pub open spec fn reverse_block_from(acc: Seq<char>, paras: Seq<Seq<char>>, q: int) -> Seq<char>
    decreases paras.len() - q,
{
    if q < 0 || q >= paras.len() {
        acc
    } else {
        reverse_block_from(
            crate::text::spec_trim_end(
                acc + seq!['\n', '\n'] + indent_lines(crate::text::spec_lines(paras[q])),
                0,
            ),
            paras,
            q + 1,
        )
    }
}

/// `lead` then the first paragraph (line feeds as spaces, trimmed); later
/// paragraphs blank-separated and 4-space indented.
pub open spec fn spec_reverse_block(lead: Seq<char>, content: Seq<char>) -> Seq<char> {
    let paras = paras_from(content, 0, 0);
    reverse_block_from(lead + crate::text::spec_trim(nl_to_space(paras[0]), 0), paras, 1)
}

fn format_reverse_block(lead: &Vec<char>, content: &Vec<char>) -> (r: Vec<char>)
    ensures
        r@ == spec_reverse_block(lead@, content@),
{
    let paras = split_paragraphs(content);
    let ghost ps = paras@.map_values(|p: Vec<char>| p@);
    assert(ps[0] == paras@[0]@);
    let mut first = copy(&paras[0]);
    let ghost p0 = first@;
    let mut k: usize = 0;
    while k < first.len()
        invariant
            k <= first@.len(),
            first@.len() == p0.len(),
            forall|j: int| 0 <= j < k ==> #[trigger] first@[j] == nl_to_space(p0)[j],
            forall|j: int| k <= j < p0.len() ==> #[trigger] first@[j] == p0[j],
        decreases first@.len() - k,
    {
        if first[k] == '\n' {
            first.set(k, ' ');
        }
        k += 1;
    }
    assert(first@ =~= nl_to_space(p0));
    let mut out = copy(lead);
    push_vec(&mut out, &trim(&first));
    let mut q: usize = 1;
    while q < paras.len()
        invariant
            1 <= q <= paras@.len(),
            ps == paras@.map_values(|p: Vec<char>| p@),
            ps == paras_from(content@, 0, 0),
            reverse_block_from(out@, ps, q as int) == spec_reverse_block(lead@, content@),
        decreases paras@.len() - q,
    {
        let ghost acc = out@;
        push_str(&mut out, "\n\n");
        proof {
            reveal_strlit("\n\n");
        }
        let lines = crate::text::split_lines(&paras[q]);
        let ghost ls = crate::text::spec_lines(paras@[q as int]@);
        assert(ls.take(0) =~= Seq::<Seq<char>>::empty());
        assert(out@ =~= acc + seq!['\n', '\n'] + indent_lines(ls.take(0)));
        let mut j: usize = 0;
        while j < lines.len()
            invariant
                j <= lines@.len(),
                lines@.len() == ls.len(),
                forall|m: int| 0 <= m < lines@.len() ==> #[trigger] lines@[m]@ == ls[m],
                out@ == acc + seq!['\n', '\n'] + indent_lines(ls.take(j as int)),
            decreases lines@.len() - j,
        {
            let t = trim(&lines[j]);
            if t.len() == 0 {
                out.push('\n');
            } else {
                push_str(&mut out, "    ");
                push_vec(&mut out, &t);
                out.push('\n');
            }
            proof {
                reveal_strlit("    ");
                assert(ls.take(j + 1).drop_last() =~= ls.take(j as int));
            }
            assert(out@ =~= acc + seq!['\n', '\n'] + indent_lines(ls.take(j + 1)));
            j += 1;
        }
        proof {
            reveal_strlit("\n\n");
            assert(ls.take(lines@.len() as int) =~= ls);
            assert(ps[q as int] == paras@[q as int]@);
        }
        out = trim_end_class(&out, 0);
        q += 1;
    }
    out
}

/// One reversed footnote definition: `[^label]: first paragraph`.
pub open spec fn spec_reverse_def(label: Seq<char>, content: Seq<char>) -> Seq<char> {
    spec_reverse_block("[^"@ + label + "]: "@, content)
}

fn format_reverse_def(label: &Vec<char>, content: &Vec<char>) -> (r: Vec<char>)
    ensures
        r@ == spec_reverse_def(label@, content@),
{
    let mut lead: Vec<char> = Vec::new();
    push_str(&mut lead, "[^");
    push_vec(&mut lead, label);
    push_str(&mut lead, "]: ");
    format_reverse_block(&lead, content)
}

/// One reversed description: `: first paragraph`.
pub open spec fn spec_reverse_desc(content: Seq<char>) -> Seq<char> {
    spec_reverse_block(": "@, content)
}

fn format_reverse_desc(content: &Vec<char>) -> (r: Vec<char>)
    ensures
        r@ == spec_reverse_desc(content@),
{
    let mut lead: Vec<char> = Vec::new();
    push_str(&mut lead, ": ");
    format_reverse_block(&lead, content)
}

// ---------------------------------------------------------------------------
// The converter, as mathematics
// ---------------------------------------------------------------------------

/// Void elements (no content, no end tag).
pub open spec fn spec_void(name: Seq<char>) -> bool {
    name == "area"@ || name == "base"@ || name == "col"@ || name == "embed"@ || name == "hr"@
        || name == "img"@ || name == "input"@ || name == "link"@ || name == "meta"@ || name
        == "source"@ || name == "track"@ || name == "wbr"@
}

/// The token at `p` ends the element `tag`.
pub open spec fn ends_at(ts: Seq<Tok>, p: int, tag: Seq<char>) -> bool {
    0 <= p < ts.len() && (ts[p] matches Tok::End(n) && n == tag)
}

/// The token at `p` starts an element `tag`.
pub open spec fn starts_at(ts: Seq<Tok>, p: int, tag: Seq<char>) -> bool {
    0 <= p < ts.len() && (ts[p] matches Tok::Start { name, .. } && name == tag)
}

/// Level of a heading element `h1`..`h6`, 0 for any other name.
pub open spec fn spec_heading_level(name: Seq<char>) -> nat {
    if name.len() == 2 && name[0] == 'h' && '1' <= name[1] && name[1] <= '6' {
        ((name[1] as u32) - 48) as nat
    } else {
        0
    }
}

/// A list item's line: a task sentinel (GFM) becomes `[x] ` / `[ ] `,
/// otherwise the content trimmed; then a line feed.
pub open spec fn spec_item(content: Seq<char>, gfm: bool) -> Seq<char> {
    let t = crate::text::spec_trim_start(content, 0);
    if gfm && matches_at(t, 0, "\0CHECKED\0"@) {
        "[x] "@ + crate::text::spec_trim_start(t.skip(9), 0) + seq!['\n']
    } else if gfm && matches_at(t, 0, "\0UNCHECKED\0"@) {
        "[ ] "@ + crate::text::spec_trim_start(t.skip(11), 0) + seq!['\n']
    } else {
        crate::text::spec_trim(content, 0) + seq!['\n']
    }
}

/// Lines each prefixed by `> `, joined by line feeds.
pub open spec fn quoted_lines(ls: Seq<Seq<char>>) -> Seq<char>
    decreases ls.len(),
{
    if ls.len() == 0 {
        Seq::empty()
    } else {
        quoted_lines(ls.drop_last()) + (if ls.len() > 1 {
            seq!['\n']
        } else {
            Seq::empty()
        }) + "> "@ + ls.last()
    }
}

/// The footnote label of an anchor's attributes: its `href` after `#fn-`.
pub open spec fn fn_anchor_label(attrs: Seq<(Seq<char>, Seq<char>)>) -> Option<Seq<char>> {
    match attr_lookup(attrs, "href"@, 0) {
        Some(h) => if matches_at(h, 0, "#fn-"@) && h.len() > 4 {
            Some(h.skip(4))
        } else {
            None
        },
        None => None,
    }
}

/// Past the `</sup>` matching an open `<sup>` (`depth` more inside), from
/// `k`; the end when there is none.
pub open spec fn skip_sup(ts: Seq<Tok>, k: int, depth: nat) -> int
    decreases ts.len() - k,
{
    if k < 0 || k >= ts.len() {
        k
    } else if ends_at(ts, k, "sup"@) {
        if depth == 0 {
            k + 1
        } else {
            skip_sup(ts, k + 1, (depth - 1) as nat)
        }
    } else if starts_at(ts, k, "sup"@) {
        skip_sup(ts, k + 1, depth + 1)
    } else {
        skip_sup(ts, k + 1, depth)
    }
}

/// A `<sup>` body from `k` holding a footnote anchor before its `</sup>`:
/// the label and the index after the whole element.
pub open spec fn sup_scan(ts: Seq<Tok>, k: int, depth: nat) -> Option<(Seq<char>, int)>
    decreases ts.len() - k,
{
    if k < 0 || k >= ts.len() {
        None
    } else {
        match ts[k] {
            Tok::Start { name, attrs, .. } => {
                let d = if name == "sup"@ {
                    depth + 1
                } else {
                    depth
                };
                if name == "a"@ && fn_anchor_label(attrs) is Some {
                    Some((fn_anchor_label(attrs)->0, skip_sup(ts, k + 1, d)))
                } else {
                    sup_scan(ts, k + 1, d)
                }
            },
            Tok::End(name) => if name == "sup"@ {
                if depth == 0 {
                    None
                } else {
                    sup_scan(ts, k + 1, (depth - 1) as nat)
                }
            } else {
                sup_scan(ts, k + 1, depth)
            },
            _ => sup_scan(ts, k + 1, depth),
        }
    }
}

/// A table row as collected: cells (text and alignment), whether one is a
/// header cell, whether it sits in `<thead>`.
pub type RowView = (Seq<(Seq<char>, Alignment)>, bool, bool);

/// First row inside `<thead>` from `k`.
pub open spec fn first_thead(rows: Seq<RowView>, k: int) -> Option<int>
    decreases rows.len() - k,
{
    if k < 0 || k >= rows.len() {
        None
    } else if rows[k].2 {
        Some(k)
    } else {
        first_thead(rows, k + 1)
    }
}

/// First row with a header cell from `k`.
pub open spec fn first_th(rows: Seq<RowView>, k: int) -> Option<int>
    decreases rows.len() - k,
{
    if k < 0 || k >= rows.len() {
        None
    } else if rows[k].1 {
        Some(k)
    } else {
        first_th(rows, k + 1)
    }
}

/// The header row: the first inside `<thead>`, else the first with a
/// header cell, else the first.
pub open spec fn spec_header_index(rows: Seq<RowView>) -> int {
    match first_thead(rows, 0) {
        Some(k) => k,
        None => match first_th(rows, 0) {
            Some(k) => k,
            None => 0,
        },
    }
}

/// Alignment of column `k` from row `q` on: the first row that has the
/// column.
pub open spec fn fallback_align(rows: Seq<RowView>, q: int, k: int) -> Alignment
    decreases rows.len() - q,
{
    if q < 0 || q >= rows.len() {
        Alignment::Unset
    } else if k < rows[q].0.len() {
        rows[q].0[k].1
    } else {
        fallback_align(rows, q + 1, k)
    }
}

/// Column `k`'s alignment: the header cell's, else the fallback.
pub open spec fn column_align(rows: Seq<RowView>, hi: int, k: int) -> Alignment {
    if rows[hi].0[k].1 != Alignment::Unset {
        rows[hi].0[k].1
    } else {
        fallback_align(rows, hi + 1, k)
    }
}

/// The header cells `| a | b` (first `n`).
pub open spec fn header_cells(cells: Seq<(Seq<char>, Alignment)>, n: int) -> Seq<char>
    decreases n,
{
    if n <= 0 {
        Seq::empty()
    } else {
        header_cells(cells, n - 1) + (if n == 1 {
            "| "@
        } else {
            " | "@
        }) + cells[n - 1].0
    }
}

/// The delimiter row's first `n` columns.
pub open spec fn delim_cells(rows: Seq<RowView>, hi: int, n: int) -> Seq<char>
    decreases n,
{
    if n <= 0 {
        Seq::empty()
    } else {
        delim_cells(rows, hi, n - 1) + seq![' '] + delimiter_marker(column_align(rows, hi, n - 1))
            + " |"@
    }
}

/// A body row's first `n` cells (missing cells empty).
pub open spec fn body_cells(cells: Seq<(Seq<char>, Alignment)>, n: int) -> Seq<char>
    decreases n,
{
    if n <= 0 {
        Seq::empty()
    } else {
        body_cells(cells, n - 1) + seq![' '] + (if n - 1 < cells.len() {
            cells[n - 1].0
        } else {
            Seq::empty()
        }) + " |"@
    }
}

/// Body rows (every row but the header), first `m`.
pub open spec fn body_rows(rows: Seq<RowView>, hi: int, ncols: int, m: int) -> Seq<char>
    decreases m,
{
    if m <= 0 {
        Seq::empty()
    } else {
        body_rows(rows, hi, ncols, m - 1) + (if m - 1 != hi {
            seq!['|'] + body_cells(rows[m - 1].0, ncols) + seq!['\n']
        } else {
            Seq::empty()
        })
    }
}

/// A GFM pipe table from collected rows.
pub open spec fn table_text(rows: Seq<RowView>) -> Seq<char> {
    if rows.len() == 0 {
        Seq::empty()
    } else {
        let hi = spec_header_index(rows);
        let ncols = rows[hi].0.len() as int;
        if ncols == 0 {
            Seq::empty()
        } else {
            header_cells(rows[hi].0, ncols) + " |\n"@ + seq!['|'] + delim_cells(rows, hi, ncols)
                + seq!['\n'] + body_rows(rows, hi, ncols, rows.len() as int)
        }
    }
}

/// `"\n" + trim(c) + "\n"`: a block set off by line feeds.
pub open spec fn block_wrap(c: Seq<char>) -> Seq<char> {
    seq!['\n'] + crate::text::spec_trim(c, 0) + seq!['\n']
}

/// Markdown of the node at `pos` and the index after it.
pub open spec fn node_md(ts: Seq<Tok>, pos: int, f: Flags) -> (Seq<char>, int)
    decreases ts.len() - pos, 0nat,
{
    if pos < 0 || pos >= ts.len() {
        (Seq::empty(), pos)
    } else {
        let p = pos + 1;
        match ts[pos] {
            Tok::Text(text) => if f.in_pre {
                (text, p)
            } else {
                let n = spec_collapse(text);
                if n.len() == 0 {
                    (Seq::empty(), p)
                } else {
                    (crate::html_escape::spec_unescape_html(n), p)
                }
            },
            Tok::Start { name, attrs, .. } => {
                let level = spec_heading_level(name);
                let c = until_md(ts, p, f, name);
                if name == "p"@ {
                    ("\n"@ + crate::text::spec_trim(c.0, 0) + "\n\n"@, c.1)
                } else if level > 0 {
                    (
                        seq!['\n'] + Seq::new(level, |_i: int| '#') + seq![' '] + crate::text::spec_trim(
                            c.0,
                            0,
                        ) + "\n\n"@,
                        c.1,
                    )
                } else if name == "strong"@ || name == "b"@ {
                    ("**"@ + c.0 + "**"@, c.1)
                } else if name == "em"@ || name == "i"@ {
                    ("*"@ + c.0 + "*"@, c.1)
                } else if name == "del"@ || name == "s"@ || name == "strike"@ {
                    if f.gfm {
                        ("~~"@ + c.0 + "~~"@, c.1)
                    } else {
                        c
                    }
                } else if name == "input"@ {
                    (
                        if f.gfm && spec_checkbox(attrs) {
                            if spec_has_attr(attrs, "checked"@) {
                                "\0CHECKED\0"@
                            } else {
                                "\0UNCHECKED\0"@
                            }
                        } else {
                            Seq::empty()
                        },
                        p,
                    )
                } else if name == "code"@ {
                    if f.in_pre {
                        c
                    } else {
                        ("`"@ + c.0 + "`"@, c.1)
                    }
                } else if name == "pre"@ {
                    let pc = until_md(
                        ts,
                        p,
                        Flags { in_pre: true, gfm: f.gfm, in_footnote_li: f.in_footnote_li },
                        name,
                    );
                    ("\n```\n"@ + crate::text::spec_trim_end(pc.0, 0) + "\n```\n"@, pc.1)
                } else if name == "a"@ {
                    let href = attr_or_none(attrs, "href"@);
                    if f.gfm && f.in_footnote_li && spec_backref(attrs) {
                        (Seq::empty(), c.1)
                    } else if href.len() == 0 || (f.gfm && spec_bare_anchor(c.0, href)) {
                        c
                    } else {
                        ("["@ + c.0 + "]("@ + href + seq![')'], c.1)
                    }
                } else if name == "sup"@ {
                    if f.gfm && sup_scan(ts, p, 0) is Some {
                        let (label, np) = sup_scan(ts, p, 0)->0;
                        ("[^"@ + label + "]"@, np)
                    } else {
                        c
                    }
                } else if name == "span"@ {
                    if spec_class_has(attrs, "math-inline"@) {
                        if f.gfm {
                            ("$"@ + crate::text::spec_trim(c.0, 0) + "$"@, c.1)
                        } else {
                            c
                        }
                    } else if spec_class_has(attrs, "math-display"@) {
                        if f.gfm {
                            ("$$"@ + crate::text::spec_trim(c.0, 0) + "$$"@, c.1)
                        } else {
                            c
                        }
                    } else {
                        c
                    }
                } else if name == "section"@ || name == "div"@ {
                    if spec_class_has(attrs, "math-display"@) {
                        if f.gfm {
                            ("\n$$"@ + crate::text::spec_trim(c.0, 0) + "$$\n"@, c.1)
                        } else {
                            (block_wrap(c.0), c.1)
                        }
                    } else if f.gfm && spec_class_has(attrs, "footnotes"@) {
                        let s = footnotes_md(ts, p, f, name, false);
                        (block_wrap(s.0), s.1)
                    } else {
                        c
                    }
                } else if name == "dl"@ {
                    if f.gfm {
                        let d = deflist_md(ts, p, f);
                        (block_wrap(crate::text::spec_trim_end(d.0, 0)), d.1)
                    } else {
                        c
                    }
                } else if name == "dt"@ || name == "dd"@ || name == "ul"@ {
                    (block_wrap(c.0), c.1)
                } else if name == "ol"@ {
                    let start: u32 = match attr_lookup(attrs, "start"@, 0) {
                        Some(v) => match spec_parse_u32(v) {
                            Some(n) => n,
                            None => 1,
                        },
                        None => 1,
                    };
                    let o = ordered_md(ts, p, f, start);
                    (block_wrap(o.0), o.1)
                } else if name == "li"@ {
                    ("- "@ + spec_item(c.0, f.gfm), c.1)
                } else if name == "blockquote"@ {
                    (
                        seq!['\n'] + quoted_lines(crate::text::spec_lines(c.0)) + seq!['\n'],
                        c.1,
                    )
                } else if name == "br"@ {
                    (seq!['\n'], p)
                } else if name == "hr"@ {
                    ("\n---\n"@, p)
                } else if name == "table"@ {
                    let rows = rows_md(ts, p, f, 0);
                    (block_wrap(table_text(rows.0)), rows.1)
                } else if name == "img"@ {
                    let src = attr_or_none(attrs, "src"@);
                    let alt = attr_or_none(attrs, "alt"@);
                    if src.len() == 0 {
                        (Seq::empty(), p)
                    } else {
                        ("!["@ + alt + "]("@ + src + seq![')'], p)
                    }
                } else if spec_void(name) {
                    (Seq::empty(), p)
                } else {
                    c
                }
            },
            _ => (Seq::empty(), p),
        }
    }
}

/// Children from `p` until the end tag `tag` (consumed) or the end.
pub open spec fn until_md(ts: Seq<Tok>, p: int, f: Flags, tag: Seq<char>) -> (Seq<char>, int)
    decreases ts.len() - p, 1nat,
{
    if p < 0 || p >= ts.len() {
        (Seq::empty(), p)
    } else if ends_at(ts, p, tag) {
        (Seq::empty(), p + 1)
    } else {
        let n = node_md(ts, p, f);
        if p < n.1 <= ts.len() {
            let rest = until_md(ts, n.1, f, tag);
            (n.0 + rest.0, rest.1)
        } else {
            n
        }
    }
}

/// Items of an ordered list from `p`, the next numbered `n`.
pub open spec fn ordered_md(ts: Seq<Tok>, p: int, f: Flags, n: u32) -> (Seq<char>, int)
    decreases ts.len() - p, 1nat,
{
    if p < 0 || p >= ts.len() {
        (Seq::empty(), p)
    } else if ends_at(ts, p, "ol"@) {
        (Seq::empty(), p + 1)
    } else if starts_at(ts, p, "li"@) {
        let item = until_md(ts, p + 1, f, "li"@);
        let piece = crate::text::spec_decimal(n as nat) + ". "@ + spec_item(item.0, f.gfm);
        if p < item.1 <= ts.len() {
            let rest = ordered_md(ts, item.1, f, vstd::wrapping::u32_specs::wrapping_add(n, 1));
            (piece + rest.0, rest.1)
        } else {
            (piece, item.1)
        }
    } else {
        let np = node_md(ts, p, f).1;
        if p < np <= ts.len() {
            ordered_md(ts, np, f, n)
        } else {
            (Seq::empty(), np)
        }
    }
}

/// Cells of a `<tr>` from `p` through `</tr>`: the cells, whether one is
/// a header cell, and the index after.
pub open spec fn row_md(ts: Seq<Tok>, p: int, f: Flags) -> (Seq<(Seq<char>, Alignment)>, bool, int)
    decreases ts.len() - p, 1nat,
{
    if p < 0 || p >= ts.len() {
        (Seq::empty(), false, p)
    } else if ends_at(ts, p, "tr"@) {
        (Seq::empty(), false, p + 1)
    } else {
        match ts[p] {
            Tok::Start { name, attrs, .. } => if name == "th"@ || name == "td"@ {
                let c = until_md(ts, p + 1, f, name);
                let cell = (spec_escape_cell(c.0), spec_alignment(attrs));
                if p < c.1 <= ts.len() {
                    let rest = row_md(ts, c.1, f);
                    (seq![cell] + rest.0, name == "th"@ || rest.1, rest.2)
                } else {
                    (seq![cell], name == "th"@, c.1)
                }
            } else {
                let np = node_md(ts, p, f).1;
                if p < np <= ts.len() {
                    row_md(ts, np, f)
                } else {
                    (Seq::empty(), false, np)
                }
            },
            _ => {
                let np = node_md(ts, p, f).1;
                if p < np <= ts.len() {
                    row_md(ts, np, f)
                } else {
                    (Seq::empty(), false, np)
                }
            },
        }
    }
}

/// Rows of a table from `p` through `</table>`, `depth` `<thead>`
/// elements open.
pub open spec fn rows_md(ts: Seq<Tok>, p: int, f: Flags, depth: nat) -> (Seq<RowView>, int)
    decreases ts.len() - p, 2nat,
{
    if p < 0 || p >= ts.len() {
        (Seq::empty(), p)
    } else if ends_at(ts, p, "table"@) {
        (Seq::empty(), p + 1)
    } else if starts_at(ts, p, "thead"@) {
        rows_md(ts, p + 1, f, depth + 1)
    } else if ends_at(ts, p, "thead"@) {
        rows_md(
            ts,
            p + 1,
            f,
            if depth == 0 {
                0
            } else {
                (depth - 1) as nat
            },
        )
    } else if starts_at(ts, p, "tr"@) {
        let r = row_md(ts, p + 1, f);
        let row = (r.0, r.1, depth > 0);
        if p < r.2 <= ts.len() {
            let rest = rows_md(ts, r.2, f, depth);
            (seq![row] + rest.0, rest.1)
        } else {
            (seq![row], r.2)
        }
    } else {
        rows_md(ts, p + 1, f, depth)
    }
}

/// The label a footnote `<li>` carries: its `id` after `fn-`.
pub open spec fn fn_item_label(attrs: Seq<(Seq<char>, Seq<char>)>) -> Seq<char> {
    let id = attr_or_none(attrs, "id"@);
    if matches_at(id, 0, "fn-"@) {
        id.skip(3)
    } else {
        id
    }
}

/// A footnotes footer from `p` through the end tag `tag`: definitions,
/// blank-line separated (`any`: one was written already).
pub open spec fn footnotes_md(ts: Seq<Tok>, p: int, f: Flags, tag: Seq<char>, any: bool) -> (
    Seq<char>,
    int,
)
    decreases ts.len() - p, 1nat,
{
    if p < 0 || p >= ts.len() {
        (Seq::empty(), p)
    } else if ends_at(ts, p, tag) {
        (Seq::empty(), p + 1)
    } else if starts_at(ts, p, "li"@) {
        let label = fn_item_label(ts[p]->Start_attrs);
        let c = until_md(
            ts,
            p + 1,
            Flags { in_pre: f.in_pre, gfm: f.gfm, in_footnote_li: true },
            "li"@,
        );
        let piece = if label.len() > 0 {
            (if any {
                "\n\n"@
            } else {
                Seq::empty()
            }) + spec_reverse_def(label, crate::text::spec_trim(c.0, 0))
        } else {
            Seq::empty()
        };
        if p < c.1 <= ts.len() {
            let rest = footnotes_md(ts, c.1, f, tag, any || label.len() > 0);
            (piece + rest.0, rest.1)
        } else {
            (piece, c.1)
        }
    } else {
        footnotes_md(ts, p + 1, f, tag, any)
    }
}

/// A definition list from `p` through `</dl>`: terms on their own lines,
/// descriptions as `: ...`.
pub open spec fn deflist_md(ts: Seq<Tok>, p: int, f: Flags) -> (Seq<char>, int)
    decreases ts.len() - p, 1nat,
{
    if p < 0 || p >= ts.len() {
        (Seq::empty(), p)
    } else if ends_at(ts, p, "dl"@) {
        (Seq::empty(), p + 1)
    } else if starts_at(ts, p, "dt"@) || starts_at(ts, p, "dd"@) {
        let is_dt = starts_at(ts, p, "dt"@);
        let c = until_md(
            ts,
            p + 1,
            f,
            if is_dt {
                "dt"@
            } else {
                "dd"@
            },
        );
        let piece = if is_dt {
            let term = spec_collapse(c.0);
            if term.len() > 0 {
                term + seq!['\n']
            } else {
                Seq::empty()
            }
        } else {
            spec_reverse_desc(crate::text::spec_trim(c.0, 0)) + seq!['\n']
        };
        if p < c.1 <= ts.len() {
            let rest = deflist_md(ts, c.1, f);
            (piece + rest.0, rest.1)
        } else {
            (piece, c.1)
        }
    } else {
        deflist_md(ts, p + 1, f)
    }
}

/// Every node from `p` on.
pub open spec fn all_md(ts: Seq<Tok>, p: int, f: Flags) -> Seq<char>
    decreases ts.len() - p,
{
    if p < 0 || p >= ts.len() {
        Seq::empty()
    } else {
        let n = node_md(ts, p, f);
        if p < n.1 <= ts.len() {
            n.0 + all_md(ts, n.1, f)
        } else {
            n.0
        }
    }
}

/// Markdown of an HTML string.
pub open spec fn spec_html_to_markdown(input: Seq<char>, gfm: bool) -> Seq<char> {
    spec_tidy(
        all_md(tokens_from(input, 0), 0, Flags { in_pre: false, gfm, in_footnote_li: false }),
    )
}

// ---------------------------------------------------------------------------
// Converter
// ---------------------------------------------------------------------------

/// Conversion state carried down the element tree.
#[derive(Clone, Copy)]
pub struct Flags {
    pub in_pre: bool,
    pub gfm: bool,
    /// Inside a footnote `<li>`: backref anchors are swallowed.
    pub in_footnote_li: bool,
}

/// The token at `pos` is the end tag `tag`.
fn is_end_tag(t: &Vec<HtmlToken>, pos: usize, tag: &Vec<char>) -> (r: bool)
    requires
        pos < t@.len(),
    ensures
        r == ends_at(toks_view(t@), pos as int, tag@),
{
    match &t[pos] {
        HtmlToken::EndTag(name) => eq_vec(name, tag),
        _ => false,
    }
}

/// The token at `pos` is the start tag `tag`.
fn is_start_tag(t: &Vec<HtmlToken>, pos: usize, tag: &str) -> (r: bool)
    requires
        pos < t@.len(),
    ensures
        r == starts_at(toks_view(t@), pos as int, tag@),
{
    match &t[pos] {
        HtmlToken::StartTag { name, .. } => eq_str(name, tag),
        _ => false,
    }
}

/// Wrap: `before` + `content` + `after`.
fn wrap(before: &str, content: &Vec<char>, after: &str) -> (r: Vec<char>)
    ensures
        r@ == before@ + content@ + after@,
{
    let mut out: Vec<char> = Vec::new();
    push_str(&mut out, before);
    push_vec(&mut out, content);
    push_str(&mut out, after);
    out
}

/// `"\n" + trim(content) + "\n"`.
fn block_wrap_exec(content: &Vec<char>) -> (r: Vec<char>)
    ensures
        r@ == block_wrap(content@),
{
    let mut out: Vec<char> = Vec::new();
    out.push('\n');
    push_vec(&mut out, &trim(content));
    out.push('\n');
    out
}

/// Heading level of `h1`..`h6`.
fn heading_level(name: &Vec<char>) -> (r: usize)
    ensures
        r == spec_heading_level(name@),
        r <= 6,
{
    if name.len() == 2 && name[0] == 'h' && '1' <= name[1] && name[1] <= '6' {
        (name[1] as u32 - 48) as usize
    } else {
        0
    }
}

fn is_void_element(name: &Vec<char>) -> (r: bool)
    ensures
        r == spec_void(name@),
{
    eq_str(name, "area") || eq_str(name, "base") || eq_str(name, "col") || eq_str(name, "embed")
        || eq_str(name, "hr") || eq_str(name, "img") || eq_str(name, "input") || eq_str(
        name,
        "link",
    ) || eq_str(name, "meta") || eq_str(name, "source") || eq_str(name, "track") || eq_str(
        name,
        "wbr",
    )
}

/// `tag` as characters.
fn tag_of(tag: &str) -> (r: Vec<char>)
    ensures
        r@ == tag@,
{
    chars_of(tag)
}

/// A list item's content: a GFM task checkbox sentinel becomes `[x] ` or
/// `[ ] ` after the marker.
fn push_item(out: &mut Vec<char>, content: &Vec<char>, gfm: bool)
    ensures
        final(out)@ == old(out)@ + spec_item(content@, gfm),
{
    proof {
        reveal_strlit("\0CHECKED\0");
        reveal_strlit("\0UNCHECKED\0");
    }
    let ghost o = out@;
    let trimmed = trim_start_class(content, 0);
    if gfm && starts_with_at(&trimmed, 0, "\0CHECKED\0") {
        push_str(out, "[x] ");
        let rest = slice(&trimmed, 9, trimmed.len());
        push_vec(out, &trim_start_class(&rest, 0));
        out.push('\n');
        assert(rest@ =~= trimmed@.skip(9));
        assert(out@ =~= o + spec_item(content@, gfm));
        return;
    }
    if gfm && starts_with_at(&trimmed, 0, "\0UNCHECKED\0") {
        push_str(out, "[ ] ");
        let rest = slice(&trimmed, 11, trimmed.len());
        push_vec(out, &trim_start_class(&rest, 0));
        out.push('\n');
        assert(rest@ =~= trimmed@.skip(11));
        assert(out@ =~= o + spec_item(content@, gfm));
        return;
    }
    push_vec(out, &trim(content));
    out.push('\n');
    assert(out@ =~= o + spec_item(content@, gfm));
}

/// Past the `</sup>` matching an open `<sup>`.
fn skip_sup_exec(t: &Vec<HtmlToken>, k0: usize, depth0: usize) -> (r: usize)
    requires
        k0 <= t@.len(),
        depth0 <= k0,
    ensures
        r == skip_sup(toks_view(t@), k0 as int, depth0 as nat),
        k0 <= r <= t@.len(),
{
    let ghost ts = toks_view(t@);
    let mut k = k0;
    let mut depth = depth0;
    while k < t.len()
        invariant
            k0 <= k <= t@.len(),
            depth <= k,
            ts == toks_view(t@),
            skip_sup(ts, k as int, depth as nat) == skip_sup(ts, k0 as int, depth0 as nat),
        decreases t@.len() - k,
    {
        let sup_end = match &t[k] {
            HtmlToken::EndTag(name) => eq_str(name, "sup"),
            _ => false,
        };
        let sup_start = match &t[k] {
            HtmlToken::StartTag { name, .. } => eq_str(name, "sup"),
            _ => false,
        };
        assert(sup_end == ends_at(ts, k as int, "sup"@));
        assert(sup_start == starts_at(ts, k as int, "sup"@));
        if sup_end {
            if depth == 0 {
                return k + 1;
            }
            depth -= 1;
        } else if sup_start {
            depth += 1;
        }
        k += 1;
    }
    k
}

/// Scan a `<sup>` body (start tag consumed) for a footnote anchor
/// (`<a href="#fn-N">`). On a hit, returns the label and the index after
/// the matching `</sup>`; otherwise nothing is consumed.
fn scan_footnote_sup(t: &Vec<HtmlToken>, pos: usize) -> (r: Option<(Vec<char>, usize)>)
    requires
        pos <= t@.len(),
    ensures
        match r {
            Some((l, np)) => sup_scan(toks_view(t@), pos as int, 0) == Some((l@, np as int)) && pos
                <= np <= t@.len(),
            None => sup_scan(toks_view(t@), pos as int, 0) is None,
        },
{
    proof {
        reveal_strlit("#fn-");
    }
    let ghost ts = toks_view(t@);
    let mut k = pos;
    let mut depth: usize = 0;
    while k < t.len()
        invariant
            pos <= k <= t@.len(),
            depth <= k,
            ts == toks_view(t@),
            sup_scan(ts, k as int, depth as nat) == sup_scan(ts, pos as int, 0),
        decreases t@.len() - k,
    {
        match &t[k] {
            HtmlToken::StartTag { name, attrs, .. } => {
                let is_sup = eq_str(name, "sup");
                let d = if is_sup {
                    depth + 1
                } else {
                    depth
                };
                if eq_str(name, "a") {
                    match attr_value(attrs, "href") {
                        Some(href) => {
                            if starts_with_at(&href, 0, "#fn-") && href.len() > 4 {
                                let label = slice(&href, 4, href.len());
                                assert(label@ =~= href@.skip(4));
                                let np = skip_sup_exec(t, k + 1, d);
                                return Some((label, np));
                            }
                        },
                        None => {},
                    }
                }
                depth = d;
                k += 1;
            },
            HtmlToken::EndTag(name) => {
                if eq_str(name, "sup") {
                    if depth == 0 {
                        return None;
                    }
                    depth -= 1;
                }
                k += 1;
            },
            _ => {
                k += 1;
            },
        }
    }
    None
}

/// Convert children until the end tag `tag` (consumed) or the end of the
/// tokens.
fn convert_until_end(t: &Vec<HtmlToken>, pos: usize, f: Flags, tag: &Vec<char>) -> (r: (
    Vec<char>,
    usize,
))
    requires
        pos <= t@.len(),
    ensures
        (r.0@, r.1 as int) == until_md(toks_view(t@), pos as int, f, tag@),
        pos <= r.1 <= t@.len(),
    decreases t@.len() - pos, 1usize,
{
    let ghost ts = toks_view(t@);
    let mut content: Vec<char> = Vec::new();
    let mut p = pos;
    while p < t.len()
        invariant
            pos <= p <= t@.len(),
            ts == toks_view(t@),
            content@ + until_md(ts, p as int, f, tag@).0 == until_md(ts, pos as int, f, tag@).0,
            until_md(ts, p as int, f, tag@).1 == until_md(ts, pos as int, f, tag@).1,
        decreases t@.len() - p,
    {
        if is_end_tag(t, p, tag) {
            assert(content@ + Seq::<char>::empty() =~= content@);
            return (content, p + 1);
        }
        let ghost before = content@;
        let (s, np) = convert_node(t, p, f);
        push_vec(&mut content, &s);
        assert(before + until_md(ts, p as int, f, tag@).0 =~= content@ + until_md(ts, np as int, f, tag@).0);
        p = np;
    }
    assert(content@ + Seq::<char>::empty() =~= content@);
    (content, p)
}

/// Items of an ordered list (start tag consumed), numbered from `start`.
fn convert_ordered_list(t: &Vec<HtmlToken>, pos: usize, f: Flags, start: u32) -> (r: (
    Vec<char>,
    usize,
))
    requires
        pos <= t@.len(),
    ensures
        (r.0@, r.1 as int) == ordered_md(toks_view(t@), pos as int, f, start),
        pos <= r.1 <= t@.len(),
    decreases t@.len() - pos, 1usize,
{
    let ghost ts = toks_view(t@);
    let mut content: Vec<char> = Vec::new();
    let mut n = start;
    let mut p = pos;
    let li = tag_of("li");
    let ol = tag_of("ol");
    while p < t.len()
        invariant
            pos <= p <= t@.len(),
            ts == toks_view(t@),
            li@ == "li"@,
            ol@ == "ol"@,
            content@ + ordered_md(ts, p as int, f, n).0 == ordered_md(ts, pos as int, f, start).0,
            ordered_md(ts, p as int, f, n).1 == ordered_md(ts, pos as int, f, start).1,
        decreases t@.len() - p,
    {
        let ghost before = content@;
        if is_end_tag(t, p, &ol) {
            assert(content@ + Seq::<char>::empty() =~= content@);
            return (content, p + 1);
        }
        if is_start_tag(t, p, "li") {
            let (item, np) = convert_until_end(t, p + 1, f, &li);
            push_decimal(&mut content, n);
            push_str(&mut content, ". ");
            push_item(&mut content, &item, f.gfm);
            assert(before + ordered_md(ts, p as int, f, n).0 =~= content@ + ordered_md(
                ts,
                np as int,
                f,
                n.wrapping_add(1),
            ).0);
            n = n.wrapping_add(1);
            p = np;
        } else {
            // Anything else between items is dropped.
            let (_, np) = convert_node(t, p, f);
            p = np;
        }
    }
    assert(content@ + Seq::<char>::empty() =~= content@);
    (content, p)
}

/// A collected row as values.
pub open spec fn row_view(r: TableRow) -> RowView {
    (r.cells@.map_values(|c: (Vec<char>, Alignment)| (c.0@, c.1)), r.any_th, r.in_thead)
}

/// Cells of one `<tr>` row (start tag consumed), through `</tr>`.
fn collect_table_row(t: &Vec<HtmlToken>, pos: usize, f: Flags, in_thead: bool) -> (r: (
    TableRow,
    usize,
))
    requires
        pos <= t@.len(),
    ensures
        row_view(r.0) == (row_md(toks_view(t@), pos as int, f).0, row_md(toks_view(t@), pos as int, f).1, in_thead),
        r.1 == row_md(toks_view(t@), pos as int, f).2,
        pos <= r.1 <= t@.len(),
    decreases t@.len() - pos, 1usize,
{
    let ghost ts = toks_view(t@);
    let mut cells: Vec<(Vec<char>, Alignment)> = Vec::new();
    let mut any_th = false;
    let mut p = pos;
    let tr = tag_of("tr");
    while p < t.len()
        invariant
            pos <= p <= t@.len(),
            ts == toks_view(t@),
            tr@ == "tr"@,
            cells@.map_values(|c: (Vec<char>, Alignment)| (c.0@, c.1)) + row_md(ts, p as int, f).0
                == row_md(ts, pos as int, f).0,
            (any_th || row_md(ts, p as int, f).1) == row_md(ts, pos as int, f).1,
            row_md(ts, p as int, f).2 == row_md(ts, pos as int, f).2,
        decreases t@.len() - p,
    {
        let ghost before = cells@.map_values(|c: (Vec<char>, Alignment)| (c.0@, c.1));
        if is_end_tag(t, p, &tr) {
            p += 1;
            assert(cells@.map_values(|c: (Vec<char>, Alignment)| (c.0@, c.1)) + Seq::empty()
                =~= cells@.map_values(|c: (Vec<char>, Alignment)| (c.0@, c.1)));
            return (TableRow { cells, any_th, in_thead }, p);
        }
        let cell = match &t[p] {
            HtmlToken::StartTag { name, attrs, .. } => {
                if eq_str(name, "th") || eq_str(name, "td") {
                    Some((copy(name), alignment_from_attrs(attrs), eq_str(name, "th")))
                } else {
                    None
                }
            },
            _ => None,
        };
        match cell {
            Some((name, alignment, is_th)) => {
                let (content, np) = convert_until_end(t, p + 1, f, &name);
                let esc = escape_cell(&content);
                let ghost cv = (esc@, alignment);
                cells.push((esc, alignment));
                assert(cells@.map_values(|c: (Vec<char>, Alignment)| (c.0@, c.1)) =~= before.push(cv));
                if is_th {
                    any_th = true;
                }
                p = np;
            },
            None => {
                // Stray whitespace/text between cells is dropped.
                let (_, np) = convert_node(t, p, f);
                p = np;
            },
        }
    }
    assert(cells@.map_values(|c: (Vec<char>, Alignment)| (c.0@, c.1)) + Seq::empty()
        =~= cells@.map_values(|c: (Vec<char>, Alignment)| (c.0@, c.1)));
    (TableRow { cells, any_th, in_thead }, p)
}

/// Every `<tr>` row until `</table>` (consumed); rows inside `<thead>` are
/// flagged.
fn collect_table_rows(t: &Vec<HtmlToken>, pos: usize, f: Flags) -> (r: (Vec<TableRow>, usize))
    requires
        pos <= t@.len(),
    ensures
        r.0@.map_values(|x: TableRow| row_view(x)) == rows_md(toks_view(t@), pos as int, f, 0).0,
        r.1 == rows_md(toks_view(t@), pos as int, f, 0).1,
        pos <= r.1 <= t@.len(),
    decreases t@.len() - pos, 2usize,
{
    let ghost ts = toks_view(t@);
    let mut rows: Vec<TableRow> = Vec::new();
    let mut thead_depth: usize = 0;
    let mut p = pos;
    let table = tag_of("table");
    let thead = tag_of("thead");
    while p < t.len()
        invariant
            pos <= p <= t@.len(),
            thead_depth <= p,
            ts == toks_view(t@),
            table@ == "table"@,
            thead@ == "thead"@,
            rows@.map_values(|x: TableRow| row_view(x)) + rows_md(ts, p as int, f, thead_depth as nat).0
                == rows_md(ts, pos as int, f, 0).0,
            rows_md(ts, p as int, f, thead_depth as nat).1 == rows_md(ts, pos as int, f, 0).1,
        decreases t@.len() - p,
    {
        let ghost before = rows@.map_values(|x: TableRow| row_view(x));
        if is_end_tag(t, p, &table) {
            assert(before + Seq::empty() =~= before);
            return (rows, p + 1);
        }
        if is_start_tag(t, p, "thead") {
            thead_depth = thead_depth + 1;
            p += 1;
        } else if is_end_tag(t, p, &thead) {
            thead_depth = thead_depth.saturating_sub(1);
            p += 1;
        } else if is_start_tag(t, p, "tr") {
            let (row, np) = collect_table_row(t, p + 1, f, thead_depth > 0);
            let ghost rv = row_view(row);
            rows.push(row);
            assert(rows@.map_values(|x: TableRow| row_view(x)) =~= before.push(rv));
            p = np;
        } else {
            p += 1;
        }
    }
    assert(rows@.map_values(|x: TableRow| row_view(x)) + Seq::empty() =~= rows@.map_values(
        |x: TableRow| row_view(x),
    ));
    (rows, p)
}

/// Index of the header row: the first row inside `<thead>`, else the first
/// with a `<th>`, else the first row.
fn header_index(rows: &Vec<TableRow>) -> (r: usize)
    requires
        rows@.len() > 0,
    ensures
        r == spec_header_index(rows@.map_values(|x: TableRow| row_view(x))),
        r < rows@.len(),
{
    let ghost rv = rows@.map_values(|x: TableRow| row_view(x));
    let mut k: usize = 0;
    while k < rows.len()
        invariant
            k <= rows@.len(),
            rv == rows@.map_values(|x: TableRow| row_view(x)),
            first_thead(rv, k as int) == first_thead(rv, 0),
        decreases rows@.len() - k,
    {
        assert(rv[k as int].2 == rows@[k as int].in_thead);
        if rows[k].in_thead {
            return k;
        }
        k += 1;
    }
    k = 0;
    while k < rows.len()
        invariant
            k <= rows@.len(),
            rv == rows@.map_values(|x: TableRow| row_view(x)),
            first_thead(rv, 0) is None,
            first_th(rv, k as int) == first_th(rv, 0),
        decreases rows@.len() - k,
    {
        assert(rv[k as int].1 == rows@[k as int].any_th);
        if rows[k].any_th {
            return k;
        }
        k += 1;
    }
    0
}

/// Per-column alignments of a table with header row `hi`.
fn table_aligns(rows: &Vec<TableRow>, hi: usize, ncols: usize) -> (aligns: Vec<Alignment>)
    requires
        hi < rows@.len(),
        ncols == rows@[hi as int].cells@.len(),
    ensures
        aligns@.len() == ncols,
        forall|j: int| 0 <= j < ncols ==> #[trigger] aligns@[j] == column_align(
            rows@.map_values(|x: TableRow| row_view(x)),
            hi as int,
            j,
        ),
{
    let ghost rv = rows@.map_values(|x: TableRow| row_view(x));
    let nrows = rows.len();
    let mut aligns: Vec<Alignment> = Vec::new();
    let mut k: usize = 0;
    while k < ncols
        invariant
            k <= ncols,
            aligns@.len() == k,
            hi < rows@.len(),
            ncols == rows@[hi as int].cells@.len(),
            nrows == rows@.len(),
            rv == rows@.map_values(|x: TableRow| row_view(x)),
            forall|j: int| 0 <= j < k ==> #[trigger] aligns@[j] == column_align(rv, hi as int, j),
        decreases ncols - k,
    {
        let from_header = rows[hi].cells[k].1;
        assert(rv[hi as int].0[k as int].1 == from_header);
        if from_header != Alignment::Unset {
            aligns.push(from_header);
        } else {
            let mut fallback = Alignment::Unset;
            let mut q = hi + 1;
            while q < rows.len()
                invariant
                    hi < q <= rows@.len(),
                    rv == rows@.map_values(|x: TableRow| row_view(x)),
                    fallback_align(rv, q as int, k as int) == fallback_align(rv, hi + 1, k as int),
                    fallback == Alignment::Unset,
                decreases rows@.len() - q,
            {
                assert(rv[q as int].0.len() == rows@[q as int].cells@.len());
                if k < rows[q].cells.len() {
                    fallback = rows[q].cells[k].1;
                    assert(rv[q as int].0[k as int].1 == fallback);
                    break;
                }
                q += 1;
            }
            aligns.push(fallback);
        }
        k += 1;
    }
    aligns
}

/// The header line's cells.
fn push_header_cells(out: &mut Vec<char>, rows: &Vec<TableRow>, hi: usize, ncols: usize)
    requires
        hi < rows@.len(),
        ncols == rows@[hi as int].cells@.len(),
    ensures
        final(out)@ == old(out)@ + header_cells(
            rows@.map_values(|x: TableRow| row_view(x))[hi as int].0,
            ncols as int,
        ),
{
    let ghost rv = rows@.map_values(|x: TableRow| row_view(x));
    let ghost o = out@;
    let mut k: usize = 0;
    while k < ncols
        invariant
            k <= ncols,
            hi < rows@.len(),
            ncols == rows@[hi as int].cells@.len(),
            rv == rows@.map_values(|x: TableRow| row_view(x)),
            out@ == o + header_cells(rv[hi as int].0, k as int),
        decreases ncols - k,
    {
        if k == 0 {
            push_str(out, "| ");
        } else {
            push_str(out, " | ");
        }
        assert(rv[hi as int].0[k as int].0 == rows@[hi as int].cells@[k as int].0@);
        push_vec(out, &rows[hi].cells[k].0);
        assert(out@ =~= o + header_cells(rv[hi as int].0, k + 1));
        k += 1;
    }
}

/// The body rows: every row but the header, cut or padded to `ncols`.
fn push_body_rows(out: &mut Vec<char>, rows: &Vec<TableRow>, hi: usize, ncols: usize)
    requires
        hi < rows@.len(),
    ensures
        final(out)@ == old(out)@ + body_rows(
            rows@.map_values(|x: TableRow| row_view(x)),
            hi as int,
            ncols as int,
            rows@.len() as int,
        ),
{
    let ghost rv = rows@.map_values(|x: TableRow| row_view(x));
    let ghost o = out@;
    let mut idx: usize = 0;
    while idx < rows.len()
        invariant
            idx <= rows@.len(),
            hi < rows@.len(),
            rv == rows@.map_values(|x: TableRow| row_view(x)),
            out@ == o + body_rows(rv, hi as int, ncols as int, idx as int),
        decreases rows@.len() - idx,
    {
        let ghost before = out@;
        if idx != hi {
            out.push('|');
            let ghost rowstart = out@;
            let mut k: usize = 0;
            while k < ncols
                invariant
                    k <= ncols,
                    idx < rows@.len(),
                    rv == rows@.map_values(|x: TableRow| row_view(x)),
                    out@ == rowstart + body_cells(rv[idx as int].0, k as int),
                decreases ncols - k,
            {
                out.push(' ');
                assert(rv[idx as int].0.len() == rows@[idx as int].cells@.len());
                if k < rows[idx].cells.len() {
                    assert(rv[idx as int].0[k as int].0 == rows@[idx as int].cells@[k as int].0@);
                    push_vec(out, &rows[idx].cells[k].0);
                }
                push_str(out, " |");
                assert(out@ =~= rowstart + body_cells(rv[idx as int].0, k + 1));
                k += 1;
            }
            out.push('\n');
        }
        assert(out@ =~= o + body_rows(rv, hi as int, ncols as int, idx + 1));
        idx += 1;
    }
}

/// A `<table>` (start tag consumed) as a GFM pipe table, through
/// `</table>`.
fn convert_table(t: &Vec<HtmlToken>, pos: usize, f: Flags) -> (r: (Vec<char>, usize))
    requires
        pos <= t@.len(),
    ensures
        r.0@ == table_text(rows_md(toks_view(t@), pos as int, f, 0).0),
        r.1 == rows_md(toks_view(t@), pos as int, f, 0).1,
        pos <= r.1 <= t@.len(),
    decreases t@.len() - pos, 3usize,
{
    let (rows, p) = collect_table_rows(t, pos, f);
    let ghost rv = rows@.map_values(|x: TableRow| row_view(x));
    if rows.len() == 0 {
        return (Vec::new(), p);
    }
    let hi = header_index(&rows);
    let ncols = rows[hi].cells.len();
    assert(rv[hi as int].0.len() == ncols);
    if ncols == 0 {
        return (Vec::new(), p);
    }
    // Per-column alignment: the header cell's, falling back to the first
    // later row that has the column.
    let aligns = table_aligns(&rows, hi, ncols);
    let mut out: Vec<char> = Vec::new();
    push_header_cells(&mut out, &rows, hi, ncols);
    push_str(&mut out, " |\n");
    out.push('|');
    let ghost mid = out@;
    let mut k: usize = 0;
    while k < aligns.len()
        invariant
            k <= aligns@.len(),
            aligns@.len() == ncols,
            forall|j: int| 0 <= j < ncols ==> #[trigger] aligns@[j] == column_align(rv, hi as int, j),
            out@ == mid + delim_cells(rv, hi as int, k as int),
        decreases aligns@.len() - k,
    {
        out.push(' ');
        push_delimiter_marker(&mut out, aligns[k]);
        push_str(&mut out, " |");
        assert(out@ =~= mid + delim_cells(rv, hi as int, k + 1));
        k += 1;
    }
    out.push('\n');
    push_body_rows(&mut out, &rows, hi, ncols);
    assert(out@ =~= table_text(rv));
    (out, p)
}

/// A footnotes footer (start tag consumed) as `[^N]: ...` definitions,
/// through the matching end tag. Backref anchors are swallowed; `<hr>`
/// separators and anything else outside `<li>` are skipped.
fn convert_footnote_section(t: &Vec<HtmlToken>, pos: usize, f: Flags, tag: &Vec<char>) -> (r: (
    Vec<char>,
    usize,
))
    requires
        pos <= t@.len(),
    ensures
        (r.0@, r.1 as int) == footnotes_md(toks_view(t@), pos as int, f, tag@, false),
        pos <= r.1 <= t@.len(),
    decreases t@.len() - pos, 1usize,
{
    proof {
        reveal_strlit("fn-");
        reveal_strlit("\n\n");
    }
    let ghost ts = toks_view(t@);
    let mut out: Vec<char> = Vec::new();
    let mut any = false;
    let mut p = pos;
    let li = tag_of("li");
    while p < t.len()
        invariant
            pos <= p <= t@.len(),
            ts == toks_view(t@),
            li@ == "li"@,
            out@ + footnotes_md(ts, p as int, f, tag@, any).0 == footnotes_md(ts, pos as int, f, tag@, false).0,
            footnotes_md(ts, p as int, f, tag@, any).1 == footnotes_md(ts, pos as int, f, tag@, false).1,
        decreases t@.len() - p,
    {
        let ghost before = out@;
        if is_end_tag(t, p, tag) {
            assert(out@ + Seq::<char>::empty() =~= out@);
            return (out, p + 1);
        }
        let is_li = is_start_tag(t, p, "li");
        if is_li {
            let label = match &t[p] {
                HtmlToken::StartTag { attrs, .. } => {
                    let id = attr_or_empty(attrs, "id");
                    if starts_with_at(&id, 0, "fn-") {
                        let l = slice(&id, 3, id.len());
                        assert(l@ =~= id@.skip(3));
                        l
                    } else {
                        id
                    }
                },
                _ => Vec::new(),
            };
            assert(label@ == fn_item_label(ts[p as int]->Start_attrs));
            let inner = Flags { in_pre: f.in_pre, gfm: f.gfm, in_footnote_li: true };
            let (content, np) = convert_until_end(t, p + 1, inner, &li);
            if label.len() > 0 {
                if any {
                    push_str(&mut out, "\n\n");
                }
                let def = format_reverse_def(&label, &trim(&content));
                push_vec(&mut out, &def);
            }
            assert(before + footnotes_md(ts, p as int, f, tag@, any).0 =~= out@ + footnotes_md(
                ts,
                np as int,
                f,
                tag@,
                any || label@.len() > 0,
            ).0);
            if label.len() > 0 {
                any = true;
            }
            p = np;
        } else {
            p += 1;
        }
    }
    assert(out@ + Seq::<char>::empty() =~= out@);
    (out, p)
}

/// A `<dl>` (start tag consumed) as term / `: description` lines, through
/// `</dl>`.
fn convert_deflist(t: &Vec<HtmlToken>, pos: usize, f: Flags) -> (r: (Vec<char>, usize))
    requires
        pos <= t@.len(),
    ensures
        r.0@ == crate::text::spec_trim_end(deflist_md(toks_view(t@), pos as int, f).0, 0),
        r.1 == deflist_md(toks_view(t@), pos as int, f).1,
        pos <= r.1 <= t@.len(),
    decreases t@.len() - pos, 1usize,
{
    let ghost ts = toks_view(t@);
    let mut out: Vec<char> = Vec::new();
    let mut p = pos;
    let dl = tag_of("dl");
    let dt = tag_of("dt");
    let dd = tag_of("dd");
    while p < t.len()
        invariant
            pos <= p <= t@.len(),
            ts == toks_view(t@),
            dl@ == "dl"@,
            dt@ == "dt"@,
            dd@ == "dd"@,
            out@ + deflist_md(ts, p as int, f).0 == deflist_md(ts, pos as int, f).0,
            deflist_md(ts, p as int, f).1 == deflist_md(ts, pos as int, f).1,
        decreases t@.len() - p,
    {
        let ghost before = out@;
        if is_end_tag(t, p, &dl) {
            assert(out@ + Seq::<char>::empty() =~= out@);
            return (trim_end_class(&out, 0), p + 1);
        }
        if is_start_tag(t, p, "dt") {
            let (content, np) = convert_until_end(t, p + 1, f, &dt);
            let term = collapse_ws(&content);
            if term.len() > 0 {
                push_vec(&mut out, &term);
                out.push('\n');
            }
            assert(before + deflist_md(ts, p as int, f).0 =~= out@ + deflist_md(ts, np as int, f).0);
            p = np;
        } else if is_start_tag(t, p, "dd") {
            let (content, np) = convert_until_end(t, p + 1, f, &dd);
            let desc = format_reverse_desc(&trim(&content));
            push_vec(&mut out, &desc);
            out.push('\n');
            assert(before + deflist_md(ts, p as int, f).0 =~= out@ + deflist_md(ts, np as int, f).0);
            p = np;
        } else {
            p += 1;
        }
    }
    assert(out@ + Seq::<char>::empty() =~= out@);
    (trim_end_class(&out, 0), p)
}

/// Lines each prefixed by `> `, joined by line feeds.
fn quote_lines(c: &Vec<char>) -> (r: Vec<char>)
    ensures
        r@ == quoted_lines(crate::text::spec_lines(c@)),
{
    proof {
        reveal_strlit("> ");
    }
    let lines = crate::text::split_lines(c);
    let ghost ls = crate::text::spec_lines(c@);
    let mut out: Vec<char> = Vec::new();
    let mut k: usize = 0;
    while k < lines.len()
        invariant
            k <= lines@.len(),
            lines@.len() == ls.len(),
            forall|m: int| 0 <= m < lines@.len() ==> #[trigger] lines@[m]@ == ls[m],
            out@ == quoted_lines(ls.take(k as int)),
        decreases lines@.len() - k,
    {
        if k > 0 {
            out.push('\n');
        }
        push_str(&mut out, "> ");
        push_vec(&mut out, &lines[k]);
        proof {
            assert(ls.take(k + 1).drop_last() =~= ls.take(k as int));
        }
        assert(out@ =~= quoted_lines(ls.take(k + 1)));
        k += 1;
    }
    assert(ls.take(lines@.len() as int) =~= ls);
    out
}

/// Convert the node at `pos`; returns its Markdown and the index after it.
#[verifier::spinoff_prover]
#[verifier::rlimit(80)]
fn convert_node(t: &Vec<HtmlToken>, pos: usize, f: Flags) -> (r: (Vec<char>, usize))
    requires
        pos <= t@.len(),
    ensures
        (r.0@, r.1 as int) == node_md(toks_view(t@), pos as int, f),
        pos <= r.1 <= t@.len(),
        pos < t@.len() ==> pos < r.1,
    decreases t@.len() - pos, 0usize,
{
    let ghost ts = toks_view(t@);
    if pos >= t.len() {
        return (Vec::new(), pos);
    }
    let p = pos + 1;
    match &t[pos] {
        HtmlToken::Text(text) => {
            if f.in_pre {
                (copy(text), p)
            } else {
                // Normalize whitespace, then unescape entities.
                let normalized = collapse_ws(text);
                if normalized.len() == 0 {
                    (Vec::new(), p)
                } else {
                    (unescape_chars(&normalized), p)
                }
            }
        },
        HtmlToken::Comment(_) => (Vec::new(), p),
        HtmlToken::Doctype(_) => (Vec::new(), p),
        HtmlToken::EndTag(_) => (Vec::new(), p),
        HtmlToken::StartTag { name, attrs, .. } => {
            let ghost c = until_md(ts, p as int, f, name@);
            let level = heading_level(name);
            if eq_str(name, "p") {
                let (c, np) = convert_until_end(t, p, f, name);
                (wrap("\n", &trim(&c), "\n\n"), np)
            } else if level > 0 {
                let (c, np) = convert_until_end(t, p, f, name);
                let mut out: Vec<char> = Vec::new();
                out.push('\n');
                let mut k: usize = 0;
                while k < level
                    invariant
                        k <= level,
                        out@ == seq!['\n'] + Seq::new(k as nat, |_i: int| '#'),
                    decreases level - k,
                {
                    out.push('#');
                    k += 1;
                    assert(out@ =~= seq!['\n'] + Seq::new(k as nat, |_i: int| '#'));
                }
                out.push(' ');
                push_vec(&mut out, &trim(&c));
                push_str(&mut out, "\n\n");
                (out, np)
            } else if eq_str(name, "strong") || eq_str(name, "b") {
                let (c, np) = convert_until_end(t, p, f, name);
                (wrap("**", &c, "**"), np)
            } else if eq_str(name, "em") || eq_str(name, "i") {
                let (c, np) = convert_until_end(t, p, f, name);
                (wrap("*", &c, "*"), np)
            } else if eq_str(name, "del") || eq_str(name, "s") || eq_str(name, "strike") {
                let (c, np) = convert_until_end(t, p, f, name);
                if f.gfm {
                    (wrap("~~", &c, "~~"), np)
                } else {
                    (c, np)
                }
            } else if eq_str(name, "input") {
                // GFM task checkbox: a sentinel consumed by the list item.
                // Outside lists (or with GFM off) it vanishes.
                let mut out: Vec<char> = Vec::new();
                if f.gfm && is_checkbox(attrs) {
                    if has_attr(attrs, "checked") {
                        push_str(&mut out, "\0CHECKED\0");
                    } else {
                        push_str(&mut out, "\0UNCHECKED\0");
                    }
                }
                (out, p)
            } else if eq_str(name, "code") {
                let (c, np) = convert_until_end(t, p, f, name);
                if f.in_pre {
                    (c, np)
                } else {
                    (wrap("`", &c, "`"), np)
                }
            } else if eq_str(name, "pre") {
                let inner = Flags { in_pre: true, gfm: f.gfm, in_footnote_li: f.in_footnote_li };
                let (c, np) = convert_until_end(t, p, inner, name);
                (wrap("\n```\n", &trim_end_class(&c, 0), "\n```\n"), np)
            } else if eq_str(name, "a") {
                // Footnote backlinks vanish inside footnote bodies.
                if f.gfm && f.in_footnote_li && is_backref_anchor(attrs) {
                    let (_, np) = convert_until_end(t, p, f, name);
                    return (Vec::new(), np);
                }
                let href = attr_or_empty(attrs, "href");
                let (c, np) = convert_until_end(t, p, f, name);
                if href.len() == 0 || (f.gfm && is_bare_anchor(&c, &href)) {
                    (c, np)
                } else {
                    let mut out = wrap("[", &c, "](");
                    push_vec(&mut out, &href);
                    out.push(')');
                    (out, np)
                }
            } else if eq_str(name, "sup") {
                // GFM footnote reference: `<sup><a href="#fn-N">N</a></sup>`
                // becomes `[^N]`; anything else unwraps to its content.
                if f.gfm {
                    match scan_footnote_sup(t, p) {
                        Some((label, np)) => (wrap("[^", &label, "]"), np),
                        None => convert_until_end(t, p, f, name),
                    }
                } else {
                    convert_until_end(t, p, f, name)
                }
            } else if eq_str(name, "span") {
                // GFM dollar math back to `$...$` / `$$...$$`.
                if class_has(attrs, "math-inline") {
                    let (c, np) = convert_until_end(t, p, f, name);
                    if f.gfm {
                        (wrap("$", &trim(&c), "$"), np)
                    } else {
                        (c, np)
                    }
                } else if class_has(attrs, "math-display") {
                    let (c, np) = convert_until_end(t, p, f, name);
                    if f.gfm {
                        (wrap("$$", &trim(&c), "$$"), np)
                    } else {
                        (c, np)
                    }
                } else {
                    convert_until_end(t, p, f, name)
                }
            } else if eq_str(name, "section") || eq_str(name, "div") {
                if class_has(attrs, "math-display") {
                    let (c, np) = convert_until_end(t, p, f, name);
                    if f.gfm {
                        (wrap("\n$$", &trim(&c), "$$\n"), np)
                    } else {
                        (block_wrap_exec(&c), np)
                    }
                } else if f.gfm && class_has(attrs, "footnotes") {
                    let (c, np) = convert_footnote_section(t, p, f, name);
                    (block_wrap_exec(&c), np)
                } else {
                    convert_until_end(t, p, f, name)
                }
            } else if eq_str(name, "dl") {
                if f.gfm {
                    let (c, np) = convert_deflist(t, p, f);
                    (block_wrap_exec(&c), np)
                } else {
                    convert_until_end(t, p, f, name)
                }
            } else if eq_str(name, "dt") || eq_str(name, "dd") || eq_str(name, "ul") {
                let (c, np) = convert_until_end(t, p, f, name);
                (block_wrap_exec(&c), np)
            } else if eq_str(name, "ol") {
                let start = match attr_value(attrs, "start") {
                    Some(v) => match parse_u32(&v) {
                        Some(n) => n,
                        None => 1,
                    },
                    None => 1,
                };
                let (c, np) = convert_ordered_list(t, p, f, start);
                (block_wrap_exec(&c), np)
            } else if eq_str(name, "li") {
                let (c, np) = convert_until_end(t, p, f, name);
                let mut out: Vec<char> = Vec::new();
                push_str(&mut out, "- ");
                push_item(&mut out, &c, f.gfm);
                (out, np)
            } else if eq_str(name, "blockquote") {
                let (c, np) = convert_until_end(t, p, f, name);
                let mut out: Vec<char> = Vec::new();
                out.push('\n');
                push_vec(&mut out, &quote_lines(&c));
                out.push('\n');
                (out, np)
            } else if eq_str(name, "br") {
                let mut out: Vec<char> = Vec::new();
                out.push('\n');
                (out, p)
            } else if eq_str(name, "hr") {
                (chars_of("\n---\n"), p)
            } else if eq_str(name, "table") {
                let (c, np) = convert_table(t, p, f);
                (block_wrap_exec(&c), np)
            } else if eq_str(name, "img") {
                let src = attr_or_empty(attrs, "src");
                let alt = attr_or_empty(attrs, "alt");
                if src.len() == 0 {
                    (Vec::new(), p)
                } else {
                    let mut out = wrap("![", &alt, "](");
                    push_vec(&mut out, &src);
                    out.push(')');
                    (out, p)
                }
            } else if is_void_element(name) {
                // Other void elements are skipped.
                (Vec::new(), p)
            } else {
                // Unknown tag: skipped, children converted.
                convert_until_end(t, p, f, name)
            }
        },
    }
}

/// Convert every node.
fn convert_all(t: &Vec<HtmlToken>, f: Flags) -> (r: Vec<char>)
    ensures
        r@ == all_md(toks_view(t@), 0, f),
{
    let ghost ts = toks_view(t@);
    let mut out: Vec<char> = Vec::new();
    let mut p: usize = 0;
    while p < t.len()
        invariant
            p <= t@.len(),
            ts == toks_view(t@),
            out@ + all_md(ts, p as int, f) == all_md(ts, 0, f),
        decreases t@.len() - p,
    {
        let ghost before = out@;
        let (s, np) = convert_node(t, p, f);
        push_vec(&mut out, &s);
        assert(before + all_md(ts, p as int, f) =~= out@ + all_md(ts, np as int, f));
        p = np;
    }
    assert(out@ + Seq::<char>::empty() =~= out@);
    out
}

// ---------------------------------------------------------------------------
// Blank-line cleanup
// ---------------------------------------------------------------------------

/// A line that is empty after trimming whitespace.
pub open spec fn blank_line(l: Seq<char>) -> bool {
    crate::text::spec_trim(l, 0).len() == 0
}

/// The lines with every blank line that directly follows a kept blank
/// line dropped.
pub open spec fn keep_lines(ls: Seq<Seq<char>>, prev_blank: bool) -> Seq<Seq<char>>
    decreases ls.len(),
{
    if ls.len() == 0 {
        Seq::empty()
    } else if blank_line(ls[0]) && prev_blank {
        keep_lines(ls.drop_first(), true)
    } else {
        seq![ls[0]] + keep_lines(ls.drop_first(), blank_line(ls[0]))
    }
}

/// Lines joined with `\n`.
pub open spec fn join_nl(ls: Seq<Seq<char>>) -> Seq<char>
    decreases ls.len(),
{
    if ls.len() == 0 {
        Seq::empty()
    } else if ls.len() == 1 {
        ls[0]
    } else {
        join_nl(ls.drop_last()) + seq!['\n'] + ls.last()
    }
}

/// The final Markdown: runs of blank lines collapsed to one, surrounding
/// whitespace trimmed, one trailing line feed.
pub open spec fn spec_tidy(md: Seq<char>) -> Seq<char> {
    crate::text::spec_trim(join_nl(keep_lines(crate::text::spec_lines(md), false)), 0) + seq!['\n']
}

/// No two consecutive kept lines are both blank.
pub proof fn law_no_blank_runs(ls: Seq<Seq<char>>, prev_blank: bool)
    ensures
        forall|i: int|
            0 <= i < keep_lines(ls, prev_blank).len() - 1 ==> !(blank_line(
                #[trigger] keep_lines(ls, prev_blank)[i],
            ) && blank_line(keep_lines(ls, prev_blank)[i + 1])),
        keep_lines(ls, prev_blank).len() > 0 && prev_blank ==> !blank_line(keep_lines(ls, prev_blank)[0]),
    decreases ls.len(),
{
    if ls.len() > 0 {
        law_no_blank_runs(ls.drop_first(), true);
        law_no_blank_runs(ls.drop_first(), blank_line(ls[0]));
        let k = keep_lines(ls, prev_blank);
        if !(blank_line(ls[0]) && prev_blank) {
            let rest = keep_lines(ls.drop_first(), blank_line(ls[0]));
            assert forall|i: int| 0 <= i < k.len() - 1 implies !(blank_line(#[trigger] k[i]) && blank_line(k[i + 1])) by {
                if i > 0 {
                    assert(k[i] == rest[i - 1]);
                    assert(k[i + 1] == rest[i]);
                } else {
                    assert(k[0] == ls[0]);
                    assert(k[1] == rest[0]);
                }
            }
        }
    }
}

/// Collapse blank-line runs, trim, and end with one line feed.
fn tidy_markdown(md: &Vec<char>) -> (r: Vec<char>)
    ensures
        r@ == spec_tidy(md@),
{
    let lines = crate::text::split_lines(md);
    let ghost all = crate::text::spec_lines(md@);
    assert(lines@.len() == all.len());
    let mut kept: Vec<Vec<char>> = Vec::new();
    let mut prev_blank = false;
    let mut i: usize = 0;
    assert(all.skip(0) =~= all);
    assert(Seq::new(kept@.len(), |k: int| kept@[k]@) + keep_lines(all, false) =~= keep_lines(all, false));
    while i < lines.len()
        invariant
            i <= lines@.len(),
            lines@.len() == all.len(),
            forall|k: int| 0 <= k < lines@.len() ==> #[trigger] lines@[k]@ == all[k],
            kept@.len() <= i,
            ({
                let kv = Seq::new(kept@.len(), |k: int| kept@[k]@);
                kv + keep_lines(all.skip(i as int), prev_blank) == keep_lines(all, false)
            }),
        decreases lines@.len() - i,
    {
        let ghost kv0 = Seq::new(kept@.len(), |k: int| kept@[k]@);
        let blank = trim(&lines[i]).len() == 0;
        assert(all.skip(i as int).drop_first() =~= all.skip(i + 1));
        assert(all.skip(i as int)[0] == all[i as int]);
        if blank && prev_blank {
        } else {
            kept.push(copy(&lines[i]));
            let ghost kv1 = Seq::new(kept@.len(), |k: int| kept@[k]@);
            assert(kv1 =~= kv0.push(all[i as int]));
            assert(kv0 + keep_lines(all.skip(i as int), prev_blank) =~= kv1 + keep_lines(
                all.skip(i + 1),
                blank,
            ));
            prev_blank = blank;
        }
        i += 1;
    }
    let ghost kv = Seq::new(kept@.len(), |k: int| kept@[k]@);
    assert(all.skip(i as int) =~= Seq::<Seq<char>>::empty());
    assert(kv =~= keep_lines(all, false));
    let mut joined: Vec<char> = Vec::new();
    let mut k: usize = 0;
    while k < kept.len()
        invariant
            k <= kept@.len(),
            kv == Seq::new(kept@.len(), |j: int| kept@[j]@),
            joined@ == join_nl(kv.take(k as int)),
        decreases kept@.len() - k,
    {
        if k > 0 {
            joined.push('\n');
        }
        push_vec(&mut joined, &kept[k]);
        assert(kv.take(k + 1).drop_last() =~= kv.take(k as int));
        k += 1;
    }
    assert(kv.take(kv.len() as int) =~= kv);
    let mut out = trim(&joined);
    out.push('\n');
    out
}

// ---------------------------------------------------------------------------
// Entry points
// ---------------------------------------------------------------------------

/// Conversion options for HTML to Markdown.
///
/// `gfm: false` (the default) keeps CommonMark-compatible output: `<del>` /
/// `<s>` unwrap to plain text, checkbox inputs vanish, every link keeps
/// its `[text](href)` form, footnote sections, definition lists and math
/// spans unwrap to plain content. `gfm: true` renders `<del>`/`<s>`/
/// `<strike>` as `~~`, checkbox inputs as `[ ]`/`[x]` prefixes,
/// already-bare anchors as plain URLs/emails, footnote references as
/// `[^N]` with their footer back as `[^N]: ...` definitions, `<dl>` as
/// term / `: description` lists, and math spans back as `$...$` /
/// `$$...$$`.
#[derive(Debug, Clone, Copy, PartialEq, Eq, Structural)]
pub struct Options {
    /// Enable GFM extensions in the reverse direction.
    pub gfm: bool,
}

impl Options {
    /// Options with GFM extensions enabled.
    pub fn gfm() -> (o: Self)
        ensures
            o.gfm,
    {
        Options { gfm: true }
    }
}

impl Default for Options {
    fn default() -> (o: Self)
        ensures
            !o.gfm,
    {
        Options { gfm: false }
    }
}

/// Convert an HTML string to Markdown (CommonMark-compatible output; see
/// [`Options`] for the GFM boundary). Conversion never fails.
pub fn convert(input: &str) -> (r: Result<String, Error>)
    ensures
        r matches Ok(s) && s@ == spec_html_to_markdown(input@, false),
        r matches Ok(s) ==> s@.len() > 0 && s@.last() == '\n',
{
    convert_with(input, Options { gfm: false })
}

/// Convert HTML to Markdown with explicit [`Options`]. The output has no
/// run of blank lines, no surrounding whitespace, and ends with one line
/// feed.
pub fn convert_with(input: &str, options: Options) -> (r: Result<String, Error>)
    ensures
        r matches Ok(s) && s@ == spec_html_to_markdown(input@, options.gfm),
        r matches Ok(s) ==> s@.len() > 0 && s@.last() == '\n',
{
    let v = chars_of(input);
    let tokens = tokenize(&v);
    let f = Flags { in_pre: false, gfm: options.gfm, in_footnote_li: false };
    let markdown = convert_all(&tokens, f);
    let out = tidy_markdown(&markdown);
    Ok(string_of(&out))
}

/// Convert HTML to Markdown with GFM extensions enabled.
pub fn convert_gfm(input: &str) -> (r: Result<String, Error>)
    ensures
        r matches Ok(s) && s@ == spec_html_to_markdown(input@, true),
        r matches Ok(s) ==> s@.len() > 0 && s@.last() == '\n',
{
    convert_with(input, Options { gfm: true })
}

// ---------------------------------------------------------------------------
// Headings
// ---------------------------------------------------------------------------

/// A word of plain text: no whitespace, tag or entity character.
pub open spec fn plain_word(t: Seq<char>) -> bool {
    &&& t.len() > 0
    &&& forall|k: int| 0 <= k < t.len() ==> !spec_is_whitespace(#[trigger] t[k]) && t[k] != '<' && t[k] != '&'
}

proof fn lemma_tok_run_to(s: Seq<char>, k: int, e: int, cls: u8, q: char)
    requires
        0 <= k <= e < s.len(),
        forall|j: int| k <= j < e ==> tok_class(cls, q, #[trigger] s[j]),
        !tok_class(cls, q, s[e]),
    ensures
        tok_run(s, k, cls, q) == e,
    decreases e - k,
{
    if k < e {
        lemma_tok_run_to(s, k + 1, e, cls, q);
    }
}

proof fn lemma_word_end_to(v: Seq<char>, i: int)
    requires
        0 <= i <= v.len(),
        forall|k: int| 0 <= k < v.len() ==> !spec_is_whitespace(#[trigger] v[k]),
    ensures
        word_end(v, i) == v.len(),
    decreases v.len() - i,
{
    if i < v.len() {
        lemma_word_end_to(v, i + 1);
    }
}

proof fn lemma_unescape_plain(v: Seq<char>, i: int)
    requires
        0 <= i <= v.len(),
        forall|k: int| 0 <= k < v.len() ==> #[trigger] v[k] != '&',
    ensures
        crate::html_escape::unescape_from(v, i) == v.skip(i),
    decreases v.len() - i,
{
    if i < v.len() {
        lemma_unescape_plain(v, i + 1);
        assert(seq![v[i]] + v.skip(i + 1) =~= v.skip(i));
    } else {
        assert(v.skip(i) =~= Seq::<char>::empty());
    }
}

proof fn lemma_plain_word_md(t: Seq<char>)
    requires
        plain_word(t),
    ensures
        spec_collapse(t) == t,
        crate::html_escape::spec_unescape_html(t) == t,
        crate::text::spec_trim(t, 0) == t,
{
    lemma_word_end_to(t, 0);
    assert(Seq::<char>::empty() + Seq::<char>::empty() + t.subrange(0, t.len() as int) =~= t);
    assert(collapse_from(t, t.len() as int, t) == t);
    lemma_unescape_plain(t, 0);
    assert(t.skip(0) =~= t);
    assert(!crate::text::in_class(0, t[0]));
    assert(crate::text::lead_end(t, 0, 0) == 0);
    assert(crate::text::spec_trim_start(t, 0) =~= t);
    assert(!crate::text::in_class(0, t[t.len() - 1]));
    assert(crate::text::trail_start(t, 0, t.len() as int) == t.len());
    assert(t.take(t.len() as int) =~= t);
}

proof fn lemma_next_nl_plain(s: Seq<char>, i: int, e: int)
    requires
        0 <= i <= e < s.len(),
        forall|k: int| i <= k < e ==> #[trigger] s[k] != '\n',
        s[e] == '\n',
    ensures
        crate::text::next_nl(s, i) == e,
    decreases e - i,
{
    if i < e {
        lemma_next_nl_plain(s, i + 1, e);
    }
}

/// The tidied Markdown of a line set off by blank lines is the line
/// alone.
proof fn lemma_tidy_block_line(h: Seq<char>)
    requires
        h.len() > 0,
        !spec_is_whitespace(h[0]),
        forall|k: int| 0 <= k < h.len() ==> #[trigger] h[k] != '\n',
        !spec_is_whitespace(h.last()),
    ensures
        spec_tidy(seq!['\n'] + h + seq!['\n', '\n']) == h + seq!['\n'],
{
    let md = seq!['\n'] + h + seq!['\n', '\n'];
    let n = h.len() as int;
    assert(md.len() == n + 3);
    assert(md[0] == '\n');
    assert(md[n + 1] == '\n');
    assert(md[n + 2] == '\n');
    assert forall|k: int| 1 <= k < n + 1 implies #[trigger] md[k] != '\n' by {
        assert(md[k] == h[k - 1]);
    }
    lemma_next_nl_plain(md, 0, 0);
    lemma_next_nl_plain(md, 1, n + 1);
    lemma_next_nl_plain(md, n + 2, n + 2);
    assert(crate::text::line_text(md, 0) =~= Seq::<char>::empty());
    assert(md[n] == h.last());
    assert(crate::text::line_text(md, 1) =~= h);
    assert(crate::text::line_text(md, n + 2) =~= Seq::<char>::empty());
    assert(crate::text::lines_from(md, n + 3) =~= Seq::<Seq<char>>::empty());
    let e: Seq<char> = Seq::empty();
    assert(crate::text::lines_from(md, n + 2) =~= seq![e]);
    assert(crate::text::lines_from(md, 1) =~= seq![h, e]);
    let ls = seq![e, h, e];
    assert(crate::text::spec_lines(md) =~= ls);
    assert(blank_line(e)) by {
        assert(crate::text::spec_trim(e, 0) =~= e);
    }
    assert(!blank_line(h)) by {
        assert(!crate::text::in_class(0, h[0]));
        assert(crate::text::lead_end(h, 0, 0) == 0);
        assert(crate::text::spec_trim_start(h, 0) =~= h);
        assert(!crate::text::in_class(0, h[n - 1]));
        assert(crate::text::trail_start(h, 0, n) == n);
    }
    assert(ls.drop_first() =~= seq![h, e]);
    assert(seq![h, e].drop_first() =~= seq![e]);
    assert(seq![e].drop_first() =~= Seq::<Seq<char>>::empty());
    assert(keep_lines(Seq::<Seq<char>>::empty(), true) =~= Seq::<Seq<char>>::empty());
    assert(seq![e][0] == e);
    assert(keep_lines(seq![e], false) =~= seq![e]);
    assert(keep_lines(seq![h, e], true) =~= seq![h, e]);
    assert(keep_lines(ls, false) =~= ls);
    assert(ls.drop_last() =~= seq![e, h]);
    assert(seq![e, h].drop_last() =~= seq![e]);
    let j = seq!['\n'] + h + seq!['\n'];
    assert(join_nl(seq![e]) == e);
    assert(seq![e, h].last() == h);
    assert(join_nl(seq![e, h]) =~= seq!['\n'] + h);
    assert(join_nl(ls) =~= j);
    assert(crate::text::in_class(0, '\n'));
    assert(j[0] == '\n' && j[1] == h[0]);
    assert(!crate::text::in_class(0, j[1]));
    assert(crate::text::lead_end(j, 0, 1) == 1);
    assert(crate::text::lead_end(j, 0, 0) == 1);
    let j1 = j.skip(1);
    assert(j1 =~= h + seq!['\n']);
    assert(j1[n] == '\n');
    assert(j1[n - 1] == h.last());
    assert(!crate::text::in_class(0, j1[n - 1]));
    assert(crate::text::trail_start(j1, 0, n) == n);
    assert(crate::text::in_class(0, j1[n]));
    assert(crate::text::trail_start(j1, 0, n + 1) == n);
    assert(j1.take(n) =~= h);
}

/// Every heading level comes through: an `h1` to `h6` element holding a
/// word of plain text converts to a heading line of as many `#` as the
/// digit of its tag, a space and the word, in both modes.
pub proof fn law_heading_level(n: nat, d: char, t: Seq<char>, gfm: bool)
    requires
        1 <= n <= 6,
        d as u32 == 48 + n,
        plain_word(t),
    ensures
        spec_html_to_markdown(seq!['<', 'h', d, '>'] + t + seq!['<', '/', 'h', d, '>'], gfm) == Seq::new(
            n,
            |_i: int| '#',
        ) + seq![' '] + t + seq!['\n'],
{
    reveal_strlit("p");
    reveal_strlit("\n\n");
    let name = seq!['h', d];
    assert(simple_tag_name(name));
    lemma_simple_element_tokens(name, t);
    assert(simple_element(name, t) =~= seq!['<', 'h', d, '>'] + t + seq!['<', '/', 'h', d, '>']);
    let t0 = Tok::Start { name, attrs: Seq::empty(), self_closing: false };
    let ts = seq![t0, Tok::Text(t), Tok::End(name)];
    // the Markdown
    let f = Flags { in_pre: false, gfm, in_footnote_li: false };
    lemma_plain_word_md(t);
    assert(node_md(ts, 1, f) == (t, 2int));
    assert(until_md(ts, 2, f, name) == (Seq::<char>::empty(), 3int));
    assert(t + Seq::<char>::empty() =~= t);
    assert(until_md(ts, 1, f, name) == (t, 3int));
    assert(name != "p"@);
    assert(spec_heading_level(name) == n);
    let h = Seq::new(n, |_i: int| '#') + seq![' '] + t;
    assert(node_md(ts, 0, f).0 =~= seq!['\n'] + h + seq!['\n', '\n']);
    assert(node_md(ts, 0, f).1 == 3);
    assert(all_md(ts, 3, f) =~= Seq::<char>::empty());
    assert(all_md(ts, 0, f) =~= seq!['\n'] + h + seq!['\n', '\n']);
    assert forall|k: int| 0 <= k < h.len() implies #[trigger] h[k] != '\n' by {
        if k > n {
            assert(h[k] == t[k - n - 1]);
        }
    }
    assert(h[0] == '#');
    assert(h.last() == t.last());
    lemma_tidy_block_line(h);
}

/// A tag name the tokenizer reads whole: lowercase ASCII letters and
/// digits.
pub open spec fn simple_tag_name(nm: Seq<char>) -> bool {
    &&& nm.len() > 0
    &&& forall|k: int|
        0 <= k < nm.len() ==> (97 <= (#[trigger] nm[k] as u32) && (nm[k] as u32) <= 122) || crate::text::spec_ascii_digit(nm[k])
}

/// An element without attributes holding a word: `<nm>t</nm>`.
pub open spec fn simple_element(nm: Seq<char>, t: Seq<char>) -> Seq<char> {
    seq!['<'] + nm + seq!['>'] + t + seq!['<', '/'] + nm + seq!['>']
}

proof fn lemma_simple_element_tokens(nm: Seq<char>, t: Seq<char>)
    requires
        simple_tag_name(nm),
        plain_word(t),
    ensures
        tokens_from(simple_element(nm, t), 0) == seq![
            Tok::Start { name: nm, attrs: Seq::empty(), self_closing: false },
            Tok::Text(t),
            Tok::End(nm),
        ],
{
    reveal_strlit("<!--");
    reveal_strlit("<!");
    let s = simple_element(nm, t);
    let a = nm.len() as int;
    let b = a + 2 + t.len();
    assert(s.len() == b + a + 3);
    assert(s[0] == '<' && s[a + 1] == '>' && s[b] == '<' && s[b + 1] == '/' && s[b + a + 2] == '>');
    assert forall|k: int| 1 <= k < a + 1 implies #[trigger] s[k] == nm[k - 1] && tok_class(0, ' ', s[k]) by {
        assert(s[k] == nm[k - 1]);
    }
    assert forall|k: int| b + 2 <= k < b + 2 + a implies #[trigger] s[k] == nm[k - b - 2] && tok_class(0, ' ', s[k]) by {
        assert(s[k] == nm[k - b - 2]);
    }
    assert forall|k: int| a + 2 <= k < b implies #[trigger] s[k] == t[k - a - 2] && tok_class(4, ' ', s[k]) by {
        assert(s[k] == t[k - a - 2]);
    }
    assert forall|k: int| 0 <= k < a implies #[trigger] crate::text::spec_lower_ascii(nm[k]) == nm[k] by {}
    assert(tok_class(0, ' ', s[1]));
    // the start tag
    assert(!matches_at(s, 0, "<!--"@)) by {
        assert(s.subrange(0, 4)[1] != "<!--"@[1]);
    }
    assert(!matches_at(s, 0, "<!"@)) by {
        assert(s.subrange(0, 2)[1] != "<!"@[1]);
    }
    lemma_tok_run_to(s, 1, a + 1, 0, ' ');
    assert(!crate::text::in_class(0, '>'));
    assert(ws_skip(s, a + 1) == a + 1);
    assert(tag_attrs(s, a + 1) == (Seq::<(Seq<char>, Seq<char>)>::empty(), a + 1));
    assert(spec_lower_ascii_seq(s.subrange(1, a + 1)) =~= nm);
    let t0 = Tok::Start { name: nm, attrs: Seq::empty(), self_closing: false };
    assert(next_tok(s, 0) == (t0, a + 2));
    // the text
    lemma_tok_run_to(s, a + 2, b, 4, ' ');
    assert(s.subrange(a + 2, b) =~= t);
    assert(s[a + 2] == t[0]);
    assert(next_tok(s, a + 2) == (Tok::Text(t), b));
    // the end tag
    assert(!matches_at(s, b, "<!--"@)) by {
        assert(s.subrange(b, b + 4)[1] != "<!--"@[1]);
    }
    assert(!matches_at(s, b, "<!"@)) by {
        assert(s.subrange(b, b + 2)[1] != "<!"@[1]);
    }
    lemma_tok_run_to(s, b + 2, b + 2 + a, 0, ' ');
    lemma_tok_run_to(s, b + 2 + a, b + 2 + a, 5, ' ');
    assert(spec_lower_ascii_seq(s.subrange(b + 2, b + 2 + a)) =~= nm);
    assert(next_tok(s, b) == (Tok::End(nm), b + a + 3));
    assert(tokens_from(s, b + a + 3) =~= Seq::<Tok>::empty());
    assert(tokens_from(s, b) =~= seq![Tok::End(nm)]);
    assert(tokens_from(s, a + 2) =~= seq![Tok::Text(t), Tok::End(nm)]);
    assert(tokens_from(s, 0) =~= seq![t0, Tok::Text(t), Tok::End(nm)]);
}

/// The children of the element: the word.
proof fn lemma_simple_element_children(nm: Seq<char>, t: Seq<char>, f: Flags)
    requires
        plain_word(t),
        !f.in_pre,
    ensures
        until_md(
            seq![Tok::Start { name: nm, attrs: Seq::empty(), self_closing: false }, Tok::Text(t), Tok::End(nm)],
            1,
            f,
            nm,
        ) == (t, 3int),
{
    let ts = seq![Tok::Start { name: nm, attrs: Seq::empty(), self_closing: false }, Tok::Text(t), Tok::End(nm)];
    lemma_plain_word_md(t);
    assert(node_md(ts, 1, f) == (t, 2int));
    assert(until_md(ts, 2, f, nm) == (Seq::<char>::empty(), 3int));
    assert(t + Seq::<char>::empty() =~= t);
}

/// The tidied Markdown of one line without blanks at its ends is the line.
proof fn lemma_tidy_line(x: Seq<char>)
    requires
        x.len() > 0,
        forall|k: int| 0 <= k < x.len() ==> #[trigger] x[k] != '\n',
        !spec_is_whitespace(x[0]),
        !spec_is_whitespace(x.last()),
    ensures
        spec_tidy(x) == x + seq!['\n'],
{
    let n = x.len() as int;
    crate::text::lemma_next_nl(x, 0);
    assert(crate::text::next_nl(x, 0) == n) by {
        if crate::text::next_nl(x, 0) < n {
            assert(x[crate::text::next_nl(x, 0)] == '\n');
        }
    }
    assert(crate::text::line_text(x, 0) =~= x);
    assert(crate::text::lines_from(x, n + 1) =~= Seq::<Seq<char>>::empty());
    assert(crate::text::spec_lines(x) =~= seq![x]);
    assert(!crate::text::in_class(0, x[0]));
    assert(crate::text::lead_end(x, 0, 0) == 0);
    assert(x.skip(0) =~= x);
    assert(!crate::text::in_class(0, x[n - 1]));
    assert(crate::text::trail_start(x, 0, n) == n);
    assert(x.take(n) =~= x);
    assert(crate::text::spec_trim(x, 0) == x);
    assert(!blank_line(x));
    assert(seq![x].drop_first() =~= Seq::<Seq<char>>::empty());
    assert(keep_lines(Seq::<Seq<char>>::empty(), false) =~= Seq::<Seq<char>>::empty());
    assert(keep_lines(seq![x], false) =~= seq![x]);
    assert(join_nl(seq![x]) == x);
}

spec fn simple_toks(nm: Seq<char>, t: Seq<char>) -> Seq<Tok> {
    seq![Tok::Start { name: nm, attrs: Seq::empty(), self_closing: false }, Tok::Text(t), Tok::End(nm)]
}

/// The converted element, given the Markdown of its node.
proof fn lemma_simple_element_doc(nm: Seq<char>, t: Seq<char>, gfm: bool, x: Seq<char>)
    requires
        simple_tag_name(nm),
        plain_word(t),
        node_md(simple_toks(nm, t), 0, Flags { in_pre: false, gfm, in_footnote_li: false }) == (x, 3int),
        x.len() > 0,
        forall|k: int| 0 <= k < x.len() ==> #[trigger] x[k] != '\n',
        !spec_is_whitespace(x[0]),
        !spec_is_whitespace(x.last()),
    ensures
        spec_html_to_markdown(simple_element(nm, t), gfm) == x + seq!['\n'],
{
    let f = Flags { in_pre: false, gfm, in_footnote_li: false };
    let ts = simple_toks(nm, t);
    lemma_simple_element_tokens(nm, t);
    assert(all_md(ts, 3, f) =~= Seq::<char>::empty());
    assert(all_md(ts, 0, f) =~= x);
    lemma_tidy_line(x);
}

/// A word between `w` on both sides: one line with no blank at its ends.
proof fn lemma_wrapped_word(w: Seq<char>, t: Seq<char>)
    requires
        plain_word(t),
        w.len() > 0,
        forall|k: int| 0 <= k < w.len() ==> #[trigger] w[k] == '*',
    ensures
        (w + t + w).len() > 0,
        forall|k: int| 0 <= k < (w + t + w).len() ==> #[trigger] (w + t + w)[k] != '\n',
        !spec_is_whitespace((w + t + w)[0]),
        !spec_is_whitespace((w + t + w).last()),
{
    let x = w + t + w;
    assert forall|k: int| 0 <= k < x.len() implies #[trigger] x[k] != '\n' by {
        if k < w.len() {
            assert(x[k] == w[k]);
        } else if k < w.len() + t.len() {
            assert(x[k] == t[k - w.len()]);
        } else {
            assert(x[k] == w[k - w.len() - t.len()]);
        }
    }
    assert(x[0] == w[0]);
    assert(x.last() == w[w.len() - 1]);
}

#[verifier::rlimit(40)]
proof fn lemma_strong_node(nm: Seq<char>, t: Seq<char>, f: Flags)
    requires
        nm == seq!['s', 't', 'r', 'o', 'n', 'g'] || nm == seq!['b'],
        plain_word(t),
        !f.in_pre,
    ensures
        node_md(simple_toks(nm, t), 0, f) == (seq!['*', '*'] + t + seq!['*', '*'], 3int),
{
    reveal_strlit("p");
    reveal_strlit("strong");
    reveal_strlit("b");
    reveal_strlit("**");
    lemma_simple_element_children(nm, t, f);
    assert("p"@.len() == 1 && "p"@[0] == 'p');
    assert(nm[0] != "p"@[0]);
    assert(nm != "p"@);
    assert(spec_heading_level(nm) == 0);
    assert(nm == "strong"@ || nm == "b"@);
}

#[verifier::rlimit(40)]
proof fn lemma_em_node(nm: Seq<char>, t: Seq<char>, f: Flags)
    requires
        nm == seq!['e', 'm'] || nm == seq!['i'],
        plain_word(t),
        !f.in_pre,
    ensures
        node_md(simple_toks(nm, t), 0, f) == (seq!['*'] + t + seq!['*'], 3int),
{
    reveal_strlit("p");
    reveal_strlit("strong");
    reveal_strlit("b");
    reveal_strlit("em");
    reveal_strlit("i");
    reveal_strlit("*");
    lemma_simple_element_children(nm, t, f);
    assert("p"@.len() == 1 && "p"@[0] == 'p');
    assert("b"@.len() == 1 && "b"@[0] == 'b');
    assert("strong"@.len() == 6);
    assert(nm[0] != "p"@[0] && nm[0] != "b"@[0]);
    assert(nm != "p"@);
    assert(spec_heading_level(nm) == 0);
    assert(nm != "strong"@ && nm != "b"@);
    assert(nm == "em"@ || nm == "i"@);
}

/// Emphasis comes through: `strong` and `b` holding a word of plain text
/// convert to the word between `**`, `em` and `i` to the word between
/// `*`, in both modes.
pub proof fn law_emphasis_elements(t: Seq<char>, gfm: bool)
    requires
        plain_word(t),
    ensures
        spec_html_to_markdown(simple_element(seq!['s', 't', 'r', 'o', 'n', 'g'], t), gfm) == seq!['*', '*'] + t
            + seq!['*', '*', '\n'],
        spec_html_to_markdown(simple_element(seq!['b'], t), gfm) == seq!['*', '*'] + t + seq!['*', '*', '\n'],
        spec_html_to_markdown(simple_element(seq!['e', 'm'], t), gfm) == seq!['*'] + t + seq!['*', '\n'],
        spec_html_to_markdown(simple_element(seq!['i'], t), gfm) == seq!['*'] + t + seq!['*', '\n'],
{
    let f = Flags { in_pre: false, gfm, in_footnote_li: false };
    let w2 = seq!['*', '*'];
    let w1 = seq!['*'];
    lemma_wrapped_word(w2, t);
    lemma_wrapped_word(w1, t);
    assert(seq!['*', '*'] + t + seq!['*', '*'] + seq!['\n'] =~= seq!['*', '*'] + t + seq!['*', '*', '\n']);
    assert(seq!['*'] + t + seq!['*'] + seq!['\n'] =~= seq!['*'] + t + seq!['*', '\n']);
    let strong = seq!['s', 't', 'r', 'o', 'n', 'g'];
    assert(simple_tag_name(strong));
    assert(simple_tag_name(seq!['b']));
    assert(simple_tag_name(seq!['e', 'm']));
    assert(simple_tag_name(seq!['i']));
    lemma_strong_node(strong, t, f);
    lemma_simple_element_doc(strong, t, gfm, w2 + t + w2);
    lemma_strong_node(seq!['b'], t, f);
    lemma_simple_element_doc(seq!['b'], t, gfm, w2 + t + w2);
    lemma_em_node(seq!['e', 'm'], t, f);
    lemma_simple_element_doc(seq!['e', 'm'], t, gfm, w1 + t + w1);
    lemma_em_node(seq!['i'], t, f);
    lemma_simple_element_doc(seq!['i'], t, gfm, w1 + t + w1);
}

#[verifier::rlimit(40)]
proof fn lemma_code_node(t: Seq<char>, f: Flags)
    requires
        plain_word(t),
        !f.in_pre,
    ensures
        node_md(simple_toks(seq!['c', 'o', 'd', 'e'], t), 0, f) == (seq!['`'] + t + seq!['`'], 3int),
{
    reveal_strlit("p");
    reveal_strlit("strong");
    reveal_strlit("b");
    reveal_strlit("em");
    reveal_strlit("i");
    reveal_strlit("del");
    reveal_strlit("s");
    reveal_strlit("strike");
    reveal_strlit("input");
    reveal_strlit("code");
    reveal_strlit("`");
    let nm = seq!['c', 'o', 'd', 'e'];
    lemma_simple_element_children(nm, t, f);
    assert(nm != "p"@ && nm != "b"@ && nm != "i"@ && nm != "s"@) by {
        assert(nm.len() == 4);
    }
    assert(nm != "em"@ && nm != "del"@ && nm != "strong"@ && nm != "strike"@) by {
        assert(nm.len() == 4);
    }
    assert(nm != "input"@) by {
        assert(nm.len() == 4);
    }
    assert(spec_heading_level(nm) == 0);
    assert(nm == "code"@);
}

#[verifier::rlimit(40)]
proof fn lemma_p_node(t: Seq<char>, f: Flags)
    requires
        plain_word(t),
        !f.in_pre,
    ensures
        node_md(simple_toks(seq!['p'], t), 0, f) == (seq!['\n'] + t + seq!['\n', '\n'], 3int),
{
    reveal_strlit("p");
    reveal_strlit("\n");
    reveal_strlit("\n\n");
    lemma_simple_element_children(seq!['p'], t, f);
    lemma_plain_word_md(t);
    assert(seq!['p'] == "p"@);
}

/// Code and paragraphs come through: `code` holding a word of plain text
/// converts to the word between backticks, `p` to the word on a line of
/// its own, in both modes.
pub proof fn law_code_and_paragraph_elements(t: Seq<char>, gfm: bool)
    requires
        plain_word(t),
    ensures
        spec_html_to_markdown(simple_element(seq!['c', 'o', 'd', 'e'], t), gfm) == seq!['`'] + t + seq!['`', '\n'],
        spec_html_to_markdown(simple_element(seq!['p'], t), gfm) == t + seq!['\n'],
{
    let f = Flags { in_pre: false, gfm, in_footnote_li: false };
    let code = seq!['c', 'o', 'd', 'e'];
    assert(simple_tag_name(code));
    assert(simple_tag_name(seq!['p']));
    lemma_code_node(t, f);
    let x = seq!['`'] + t + seq!['`'];
    assert forall|k: int| 0 <= k < x.len() implies #[trigger] x[k] != '\n' by {
        if 1 <= k < 1 + t.len() {
            assert(x[k] == t[k - 1]);
        }
    }
    assert(x[0] == '`' && x.last() == '`');
    lemma_simple_element_doc(code, t, gfm, x);
    assert(x + seq!['\n'] =~= seq!['`'] + t + seq!['`', '\n']);
    // the paragraph
    let ts = simple_toks(seq!['p'], t);
    lemma_simple_element_tokens(seq!['p'], t);
    lemma_p_node(t, f);
    assert(all_md(ts, 3, f) =~= Seq::<char>::empty());
    assert(all_md(ts, 0, f) =~= seq!['\n'] + t + seq!['\n', '\n']);
    lemma_tidy_block_line(t);
}

/// An anchor with one quoted `href` holding a word:
/// `<a href="u">w</a>`.
pub open spec fn simple_anchor(u: Seq<char>, w: Seq<char>) -> Seq<char> {
    seq!['<', 'a', ' ', 'h', 'r', 'e', 'f', '=', '"'] + u + seq!['"', '>'] + w + seq!['<', '/', 'a', '>']
}

proof fn lemma_simple_anchor_tokens(u: Seq<char>, w: Seq<char>)
    requires
        plain_word(w),
        forall|k: int| 0 <= k < u.len() ==> #[trigger] u[k] != '"',
    ensures
        tokens_from(simple_anchor(u, w), 0) == seq![
            Tok::Start { name: seq!['a'], attrs: seq![(seq!['h', 'r', 'e', 'f'], u)], self_closing: false },
            Tok::Text(w),
            Tok::End(seq!['a']),
        ],
{
    reveal_strlit("<!--");
    reveal_strlit("<!");
    let s = simple_anchor(u, w);
    let nu = u.len() as int;
    let b = 11 + nu + w.len();
    assert(s.len() == b + 4);
    assert(s[0] == '<' && s[1] == 'a' && s[2] == ' ' && s[3] == 'h' && s[4] == 'r' && s[5] == 'e' && s[6] == 'f'
        && s[7] == '=' && s[8] == '"');
    assert(s[9 + nu] == '"' && s[10 + nu] == '>');
    assert(s[b] == '<' && s[b + 1] == '/' && s[b + 2] == 'a' && s[b + 3] == '>');
    assert forall|k: int| 9 <= k < 9 + nu implies #[trigger] s[k] == u[k - 9] && tok_class(2, '"', s[k]) by {
        assert(s[k] == u[k - 9]);
    }
    assert forall|k: int| 11 + nu <= k < b implies #[trigger] s[k] == w[k - 11 - nu] && tok_class(4, ' ', s[k]) by {
        assert(s[k] == w[k - 11 - nu]);
    }
    // the start tag and its attribute
    assert(!matches_at(s, 0, "<!--"@)) by {
        assert(s.subrange(0, 4)[1] != "<!--"@[1]);
    }
    assert(!matches_at(s, 0, "<!"@)) by {
        assert(s.subrange(0, 2)[1] != "<!"@[1]);
    }
    lemma_tok_run_to(s, 1, 2, 0, ' ');
    assert(crate::text::in_class(0, ' '));
    assert(!crate::text::in_class(0, 'h'));
    assert(crate::text::lead_end(s, 0, 3) == 3);
    assert(ws_skip(s, 2) == 3);
    lemma_tok_run_to(s, 3, 7, 1, ' ');
    assert(ws_skip(s, 7) == 7);
    assert(ws_skip(s, 8) == 8);
    lemma_tok_run_to(s, 9, 9 + nu, 2, '"');
    assert(ws_skip(s, 10 + nu) == 10 + nu);
    assert(tag_attrs(s, 10 + nu) == (Seq::<(Seq<char>, Seq<char>)>::empty(), 10 + nu));
    assert(s.subrange(3, 7) =~= seq!['h', 'r', 'e', 'f']);
    assert(s.subrange(9, 9 + nu) =~= u);
    let at = seq![(seq!['h', 'r', 'e', 'f'], u)];
    assert(seq![(seq!['h', 'r', 'e', 'f'], u)] + Seq::<(Seq<char>, Seq<char>)>::empty() =~= at);
    assert(tag_attrs(s, 2) == (at, 10 + nu));
    assert(spec_lower_ascii_seq(s.subrange(1, 2)) =~= seq!['a']);
    let t0 = Tok::Start { name: seq!['a'], attrs: at, self_closing: false };
    assert(next_tok(s, 0) == (t0, 11 + nu));
    // the text
    lemma_tok_run_to(s, 11 + nu, b, 4, ' ');
    assert(s.subrange(11 + nu, b) =~= w);
    assert(s[11 + nu] == w[0]);
    assert(next_tok(s, 11 + nu) == (Tok::Text(w), b));
    // the end tag
    assert(!matches_at(s, b, "<!--"@)) by {
        assert(s.subrange(b, b + 4)[1] != "<!--"@[1]);
    }
    assert(!matches_at(s, b, "<!"@)) by {
        assert(s.subrange(b, b + 2)[1] != "<!"@[1]);
    }
    lemma_tok_run_to(s, b + 2, b + 3, 0, ' ');
    lemma_tok_run_to(s, b + 3, b + 3, 5, ' ');
    assert(spec_lower_ascii_seq(s.subrange(b + 2, b + 3)) =~= seq!['a']);
    assert(next_tok(s, b) == (Tok::End(seq!['a']), b + 4));
    assert(tokens_from(s, b + 4) =~= Seq::<Tok>::empty());
    assert(tokens_from(s, b) =~= seq![Tok::End(seq!['a'])]);
    assert(tokens_from(s, 11 + nu) =~= seq![Tok::Text(w), Tok::End(seq!['a'])]);
    assert(tokens_from(s, 0) =~= seq![t0, Tok::Text(w), Tok::End(seq!['a'])]);
}

#[verifier::rlimit(60)]
proof fn lemma_anchor_node(u: Seq<char>, w: Seq<char>, f: Flags)
    requires
        plain_word(w),
        u.len() > 0,
        !f.in_pre,
        !f.in_footnote_li,
        !(f.gfm && spec_bare_anchor(w, u)),
    ensures
        node_md(
            seq![
                Tok::Start { name: seq!['a'], attrs: seq![(seq!['h', 'r', 'e', 'f'], u)], self_closing: false },
                Tok::Text(w),
                Tok::End(seq!['a']),
            ],
            0,
            f,
        ) == (seq!['['] + w + seq![']', '('] + u + seq![')'], 3int),
{
    reveal_strlit("p");
    reveal_strlit("strong");
    reveal_strlit("b");
    reveal_strlit("em");
    reveal_strlit("i");
    reveal_strlit("del");
    reveal_strlit("s");
    reveal_strlit("strike");
    reveal_strlit("input");
    reveal_strlit("code");
    reveal_strlit("pre");
    reveal_strlit("a");
    reveal_strlit("href");
    reveal_strlit("[");
    reveal_strlit("](");
    let nm = seq!['a'];
    let at = seq![(seq!['h', 'r', 'e', 'f'], u)];
    let ts = seq![Tok::Start { name: nm, attrs: at, self_closing: false }, Tok::Text(w), Tok::End(nm)];
    lemma_plain_word_md(w);
    assert(node_md(ts, 1, f) == (w, 2int));
    assert(until_md(ts, 2, f, nm) == (Seq::<char>::empty(), 3int));
    assert(w + Seq::<char>::empty() =~= w);
    assert(until_md(ts, 1, f, nm) == (w, 3int));
    assert(nm[0] != "p"@[0] && nm[0] != "b"@[0] && nm[0] != "i"@[0] && nm[0] != "s"@[0]);
    assert(nm != "p"@ && nm != "b"@ && nm != "i"@ && nm != "s"@);
    assert(nm != "em"@ && nm != "del"@ && nm != "strong"@ && nm != "strike"@ && nm != "input"@ && nm != "code"@
        && nm != "pre"@);
    assert(spec_heading_level(nm) == 0);
    assert(nm == "a"@);
    assert(at[0].0 == "href"@);
    assert(attr_lookup(at, "href"@, 0) == Some(u));
    assert(attr_or_none(at, "href"@) == u);
}

/// Links come through: an anchor with a non-empty `href` (without `"` or
/// line feeds) around a word of plain text converts to `[word](href)`,
/// in both modes, except where GFM writes a bare link for it.
pub proof fn law_link_element(u: Seq<char>, w: Seq<char>, gfm: bool)
    requires
        plain_word(w),
        u.len() > 0,
        forall|k: int| 0 <= k < u.len() ==> #[trigger] u[k] != '"' && u[k] != '\n',
        !(gfm && spec_bare_anchor(w, u)),
    ensures
        spec_html_to_markdown(simple_anchor(u, w), gfm) == seq!['['] + w + seq![']', '('] + u + seq![')', '\n'],
{
    let f = Flags { in_pre: false, gfm, in_footnote_li: false };
    lemma_simple_anchor_tokens(u, w);
    let ts = seq![
        Tok::Start { name: seq!['a'], attrs: seq![(seq!['h', 'r', 'e', 'f'], u)], self_closing: false },
        Tok::Text(w),
        Tok::End(seq!['a']),
    ];
    lemma_anchor_node(u, w, f);
    let x = seq!['['] + w + seq![']', '('] + u + seq![')'];
    assert(all_md(ts, 3, f) =~= Seq::<char>::empty());
    assert(all_md(ts, 0, f) =~= x);
    let nw = w.len() as int;
    assert forall|k: int| 0 <= k < x.len() implies #[trigger] x[k] != '\n' by {
        if 1 <= k < 1 + nw {
            assert(x[k] == w[k - 1]);
        } else if 3 + nw <= k < 3 + nw + u.len() {
            assert(x[k] == u[k - 3 - nw]);
        }
    }
    assert(x[0] == '[' && x.last() == ')');
    lemma_tidy_line(x);
    assert(x + seq!['\n'] =~= seq!['['] + w + seq![']', '('] + u + seq![')', '\n']);
}

} // verus!
