#![verifier::loop_isolation(false)]

//! Inline Markdown: tokenizer, delimiter-stack emphasis (CommonMark appendix
//! algorithm), links and images with reference definitions, code spans,
//! autolinks, raw HTML, entities and line breaks.

use vstd::prelude::*;
use crate::html_escape::{
    clean_url_chars, decode_entity_chars, push_escaped, spec_clean_url, spec_decode_entity,
    spec_escape_html, unescape_chars,
};
use crate::text::{
    all_class, back_class, char_in, chars_of, copy, eq_vec, find_from, in_class, is_alphanumeric,
    is_ascii_alnum, is_ascii_alpha, is_ascii_punct, is_control, is_whitespace, matches_at,
    push_str, push_vec, slice, spec_ascii_alnum, spec_ascii_alpha, spec_ascii_punct, spec_is_control, starts_with_at, string_of, to_lowercase,
    trail_start, utf8_len,
};

verus! {

broadcast use vstd::string::group_string_axioms;

// ---------------------------------------------------------------------------
// Reference definitions
// ---------------------------------------------------------------------------

/// One link reference definition: normalized label, destination, title.
pub struct RefDef {
    pub key: Vec<char>,
    pub dest: Vec<char>,
    pub title: Option<Vec<char>>,
}

/// Reference definitions collected by the block layer, in definition
/// order. A label is defined by its first definition: later ones with the
/// same key are never stored.
pub struct RefDefs {
    pub defs: Vec<RefDef>,
}

/// Entry found for `key` among the first `n` definitions.
pub open spec fn ref_lookup_upto(defs: Seq<RefDef>, key: Seq<char>, n: int) -> Option<
    (Seq<char>, Option<Seq<char>>),
>
    decreases n,
{
    if n <= 0 {
        None
    } else if ref_lookup_upto(defs, key, n - 1) is Some {
        ref_lookup_upto(defs, key, n - 1)
    } else if defs[n - 1].key@ == key {
        Some((defs[n - 1].dest@, opt_view(defs[n - 1].title)))
    } else {
        None
    }
}

pub open spec fn opt_view(o: Option<Vec<char>>) -> Option<Seq<char>> {
    match o {
        Some(v) => Some(v@),
        None => None,
    }
}

pub fn copy_opt(o: &Option<Vec<char>>) -> (r: Option<Vec<char>>)
    ensures
        opt_view(r) == opt_view(*o),
{
    match o {
        Some(v) => Some(copy(v)),
        None => None,
    }
}

/// Reference definitions as values: (key, destination, title), in order.
pub type RV = Seq<(Seq<char>, Seq<char>, Option<Seq<char>>)>;

pub open spec fn refs_view(r: RefDefs) -> RV {
    r.defs@.map_values(|d: RefDef| (d.key@, d.dest@, opt_view(d.title)))
}

/// The entry for `key` among the first `n` definitions (the first wins).
pub open spec fn rv_lookup_upto(rv: RV, key: Seq<char>, n: int) -> Option<(Seq<char>, Option<Seq<char>>)>
    decreases n,
{
    if n <= 0 || n > rv.len() {
        None
    } else if rv_lookup_upto(rv, key, n - 1) is Some {
        rv_lookup_upto(rv, key, n - 1)
    } else if rv[n - 1].0 == key {
        Some((rv[n - 1].1, rv[n - 1].2))
    } else {
        None
    }
}

/// The definition of `key`: the first one made.
pub open spec fn rv_lookup(rv: RV, key: Seq<char>) -> Option<(Seq<char>, Option<Seq<char>>)> {
    rv_lookup_upto(rv, key, rv.len() as int)
}

/// Record a definition unless its key is already defined.
pub open spec fn rv_insert(rv: RV, key: Seq<char>, dest: Seq<char>, title: Option<Seq<char>>) -> RV {
    if rv_lookup(rv, key) is Some {
        rv
    } else {
        rv.push((key, dest, title))
    }
}

pub proof fn lemma_lookup_view(r: RefDefs)
    ensures
        forall|key: Seq<char>| #[trigger] r.lookup(key) == rv_lookup(refs_view(r), key),
{
    assert forall|key: Seq<char>| #[trigger] r.lookup(key) == rv_lookup(refs_view(r), key) by {
        lemma_lookup_view_upto(r.defs@, key, r.defs@.len() as int);
    }
}

proof fn lemma_lookup_view_upto(defs: Seq<RefDef>, key: Seq<char>, n: int)
    requires
        n <= defs.len(),
    ensures
        ref_lookup_upto(defs, key, n) == rv_lookup_upto(
            defs.map_values(|d: RefDef| (d.key@, d.dest@, opt_view(d.title))),
            key,
            n,
        ),
    decreases n,
{
    if n > 0 {
        lemma_lookup_view_upto(defs, key, n - 1);
    }
}

impl RefDefs {
    /// The definition of a normalized label (the first one made).
    pub open spec fn lookup(&self, key: Seq<char>) -> Option<(Seq<char>, Option<Seq<char>>)> {
        ref_lookup_upto(self.defs@, key, self.defs@.len() as int)
    }

    pub fn new() -> (r: Self)
        ensures
            r.defs@.len() == 0,
            forall|k: Seq<char>| r.lookup(k) is None,
    {
        RefDefs { defs: Vec::new() }
    }

    /// Destination and title defined for `key`.
    pub fn get(&self, key: &Vec<char>) -> (r: Option<(Vec<char>, Option<Vec<char>>)>)
        ensures
            match r {
                Some(p) => self.lookup(key@) == Some((p.0@, opt_view(p.1))),
                None => self.lookup(key@) is None,
            },
    {
        let mut i: usize = 0;
        while i < self.defs.len()
            invariant
                i <= self.defs@.len(),
                ref_lookup_upto(self.defs@, key@, i as int) is None,
            decreases self.defs@.len() - i,
        {
            if eq_vec(&self.defs[i].key, key) {
                proof {
                    lemma_ref_lookup_found(self.defs@, key@, i as int, self.defs@.len() as int);
                }
                return Some((copy(&self.defs[i].dest), copy_opt(&self.defs[i].title)));
            }
            i += 1;
        }
        None
    }

    /// Record a definition unless the label is already defined (first
    /// definition wins).
    pub fn insert_first(&mut self, key: Vec<char>, dest: Vec<char>, title: Option<Vec<char>>)
        ensures
            old(self).lookup(key@) is Some ==> final(self).lookup(key@) == old(self).lookup(
                key@,
            ),
            old(self).lookup(key@) is None ==> final(self).lookup(key@) == Some(
                (dest@, opt_view(title)),
            ),
            forall|k: Seq<char>| k != key@ ==> final(self).lookup(k) == old(self).lookup(k),
            refs_view(*final(self)) == rv_insert(refs_view(*old(self)), key@, dest@, opt_view(title)),
    {
        proof {
            lemma_lookup_view(*self);
        }
        let ghost kv = key@;
        let ghost entry = (key@, dest@, opt_view(title));
        let found = self.get(&key);
        if found.is_none() {
            let ghost before = self.defs@;
            let ghost rv0 = refs_view(*self);
            self.defs.push(RefDef { key, dest, title });
            assert(refs_view(*self) =~= rv0.push(entry));
            proof {
                assert forall|k: Seq<char>| true implies ref_lookup_upto(
                    self.defs@,
                    k,
                    before.len() as int,
                ) == ref_lookup_upto(before, k, before.len() as int) by {
                    lemma_ref_lookup_prefix(before, self.defs@, k, before.len() as int);
                }
            }
        }
    }
}

proof fn lemma_ref_lookup_prefix(a: Seq<RefDef>, b: Seq<RefDef>, k: Seq<char>, n: int)
    requires
        0 <= n <= a.len(),
        n <= b.len(),
        forall|i: int| 0 <= i < n ==> a[i] == b[i],
    ensures
        ref_lookup_upto(a, k, n) == ref_lookup_upto(b, k, n),
    decreases n,
{
    if n > 0 {
        lemma_ref_lookup_prefix(a, b, k, n - 1);
    }
}

proof fn lemma_ref_lookup_found(defs: Seq<RefDef>, key: Seq<char>, i: int, n: int)
    requires
        0 <= i < n <= defs.len(),
        ref_lookup_upto(defs, key, i) is None,
        defs[i].key@ == key,
    ensures
        ref_lookup_upto(defs, key, n) == Some((defs[i].dest@, opt_view(defs[i].title))),
    decreases n,
{
    if n > i + 1 {
        lemma_ref_lookup_found(defs, key, i, n - 1);
    }
}

/// A lowercased character with `ß` folded to `ss`.
pub open spec fn fold_char(c: char) -> Seq<char> {
    if c == '\u{DF}' {
        seq!['s', 's']
    } else {
        seq![c]
    }
}

/// Whitespace runs collapsed to one space and stripped at both ends,
/// with `ß` folded to `ss`: the words of `s`, joined by single spaces.
pub open spec fn collapse_ws(s: Seq<char>) -> Seq<char>
    decreases s.len(),
{
    if s.len() == 0 {
        Seq::empty()
    } else {
        let prev = s.drop_last();
        let c = s.last();
        if crate::text::spec_is_whitespace(c) {
            collapse_ws(prev)
        } else {
            collapse_ws(prev) + (if collapse_ws(prev).len() > 0 && crate::text::spec_is_whitespace(
                prev.last(),
            ) {
                seq![' ']
            } else {
                Seq::empty()
            }) + fold_char(c)
        }
    }
}

/// The normalized form of a label: Unicode lowercase, then `ß` folded
/// and whitespace collapsed.
pub open spec fn spec_normalize_label(label: Seq<char>) -> Seq<char> {
    collapse_ws(crate::text::unicode_lowercase(label))
}

/// Collapse the whitespace of lowercased label text: runs become one
/// space, both ends are stripped, and `ß` is folded to `ss`.
pub fn collapse_label_ws(low: &Vec<char>) -> (r: Vec<char>)
    ensures
        r@ == collapse_ws(low@),
{
    let mut out: Vec<char> = Vec::new();
    let mut pending = false;
    let mut i: usize = 0;
    while i < low.len()
        invariant
            i <= low@.len(),
            out@ == collapse_ws(low@.take(i as int)),
            pending == (i > 0 && crate::text::spec_is_whitespace(low@[i - 1])),
        decreases low@.len() - i,
    {
        let c = low[i];
        proof {
            assert(low@.take(i + 1).drop_last() =~= low@.take(i as int));
            assert(low@.take(i + 1).last() == c);
        }
        if is_whitespace(c) {
            pending = true;
        } else {
            if pending && out.len() > 0 {
                out.push(' ');
            }
            pending = false;
            if c == '\u{DF}' {
                out.push('s');
                out.push('s');
            } else {
                out.push(c);
            }
        }
        assert(out@ =~= collapse_ws(low@.take(i + 1)));
        i += 1;
    }
    assert(low@.take(low@.len() as int) =~= low@);
    out
}

/// Normalize a link reference label per CommonMark: lowercase with Unicode
/// case folding (`ß` becomes `ss`), strip, and collapse internal
/// whitespace (newlines included) to single spaces.
pub fn normalize_label_chars(label: &Vec<char>) -> (r: Vec<char>)
    ensures
        r@ == spec_normalize_label(label@),
{
    let low = to_lowercase(label);
    collapse_label_ws(&low)
}

/// Normalize a link reference label (see [`normalize_label_chars`]).
pub fn normalize_label(label: &str) -> (r: String)
    ensures
        r@ == spec_normalize_label(label@),
{
    let v = chars_of(label);
    string_of(&normalize_label_chars(&v))
}

// ---------------------------------------------------------------------------
// Inline elements
// ---------------------------------------------------------------------------

/// A parsed inline element.
#[derive(Debug, PartialEq)]
pub enum InlineElement {
    Text(String),
    Bold(Vec<InlineElement>),
    Italic(Vec<InlineElement>),
    Code(String),
    Link { text: Vec<InlineElement>, url: String, title: Option<String> },
    Image { alt: String, url: String, title: Option<String> },
    RawHtml(String),
    HardBreak,
    SoftBreak,
}

// ---------------------------------------------------------------------------
// Character classes
// ---------------------------------------------------------------------------

pub open spec fn spec_is_ws(c: char) -> bool {
    c == '\n' || crate::text::spec_is_whitespace(c)
}

fn is_ws(c: char) -> (r: bool)
    ensures
        r == spec_is_ws(c),
{
    c == '\n' || is_whitespace(c)
}

/// Unicode-aware punctuation approximation: not alphanumeric, not
/// whitespace.
fn is_punct(c: char) -> (r: bool)
    ensures
        r == !(crate::text::spec_is_alphanumeric(c) || spec_is_ws(c)),
{
    !(is_alphanumeric(c) || is_ws(c))
}

// ---------------------------------------------------------------------------
// Values of elements and tokens
// ---------------------------------------------------------------------------

/// An inline element as a mathematical value.
pub ghost enum El {
    Text(Seq<char>),
    Bold(Seq<El>),
    Italic(Seq<El>),
    Code(Seq<char>),
    Link { text: Seq<El>, url: Seq<char>, title: Option<Seq<char>> },
    Image { alt: Seq<char>, url: Seq<char>, title: Option<Seq<char>> },
    RawHtml(Seq<char>),
    HardBreak,
    SoftBreak,
}

pub open spec fn str_opt_view(o: Option<String>) -> Option<Seq<char>> {
    match o {
        Some(s) => Some(s@),
        None => None,
    }
}

pub open spec fn el_view(e: InlineElement) -> El
    decreases e,
{
    match e {
        InlineElement::Text(s) => El::Text(s@),
        InlineElement::Bold(c) => El::Bold(els_view(c@)),
        InlineElement::Italic(c) => El::Italic(els_view(c@)),
        InlineElement::Code(s) => El::Code(s@),
        InlineElement::Link { text, url, title } => El::Link {
            text: els_view(text@),
            url: url@,
            title: str_opt_view(title),
        },
        InlineElement::Image { alt, url, title } => El::Image {
            alt: alt@,
            url: url@,
            title: str_opt_view(title),
        },
        InlineElement::RawHtml(s) => El::RawHtml(s@),
        InlineElement::HardBreak => El::HardBreak,
        InlineElement::SoftBreak => El::SoftBreak,
    }
}

pub open spec fn els_view(s: Seq<InlineElement>) -> Seq<El>
    decreases s,
{
    if s.len() == 0 {
        Seq::empty()
    } else {
        els_view(s.drop_last()).push(el_view(s.last()))
    }
}

/// A token as a mathematical value.
pub ghost enum ITok {
    Text(Seq<char>),
    Delim { ch: char, len: nat, can_open: bool, can_close: bool },
    OpenBracket { image: bool },
    Code(Seq<char>),
    RawHtml(Seq<char>),
    HardBreak,
    SoftBreak,
    Link { children: Seq<El>, url: Seq<char>, title: Option<Seq<char>> },
    Image { alt: Seq<char>, url: Seq<char>, title: Option<Seq<char>> },
    EmOpen,
    EmClose,
    StrongOpen,
    StrongClose,
}

pub open spec fn itok_view(t: Tok) -> ITok {
    match t {
        Tok::Text(s) => ITok::Text(s@),
        Tok::Delim { ch, len, can_open, can_close } => ITok::Delim {
            ch,
            len: len as nat,
            can_open,
            can_close,
        },
        Tok::OpenBracket { image } => ITok::OpenBracket { image },
        Tok::Code(s) => ITok::Code(s@),
        Tok::RawHtml(s) => ITok::RawHtml(s@),
        Tok::HardBreak => ITok::HardBreak,
        Tok::SoftBreak => ITok::SoftBreak,
        Tok::Link { children, url, title } => ITok::Link {
            children: els_view(children@),
            url: url@,
            title: opt_view(title),
        },
        Tok::Image { alt, url, title } => ITok::Image { alt: alt@, url: url@, title: opt_view(title) },
        Tok::EmOpen => ITok::EmOpen,
        Tok::EmClose => ITok::EmClose,
        Tok::StrongOpen => ITok::StrongOpen,
        Tok::StrongClose => ITok::StrongClose,
    }
}

pub open spec fn itoks_view(s: Seq<Tok>) -> Seq<ITok> {
    s.map_values(|t: Tok| itok_view(t))
}

/// Inline-scanner character classes: 0 anything but `:`, 1 a backtick,
/// 2 anything but a backtick, 3 a space, tab or line feed, 4 anything but
/// `>`, a line feed or a carriage return, 5 anything but `>`.
pub open spec fn il_class(cls: u8, c: char) -> bool {
    if cls == 0 {
        c != ':'
    } else if cls == 1 {
        c == '`'
    } else if cls == 2 {
        c != '`'
    } else if cls == 3 {
        c == ' ' || c == '\t' || c == '\n'
    } else if cls == 4 {
        c != '>' && c != '\n' && c != '\r'
    } else {
        c != '>'
    }
}

/// End of the run of class `cls` from `k`.
pub open spec fn il_run(s: Seq<char>, k: int, cls: u8) -> int
    decreases s.len() - k,
{
    if k < 0 || k >= s.len() || !il_class(cls, s[k]) {
        k
    } else {
        il_run(s, k + 1, cls)
    }
}

pub proof fn lemma_il_run(s: Seq<char>, k: int, cls: u8)
    requires
        0 <= k <= s.len(),
    ensures
        k <= il_run(s, k, cls) <= s.len(),
        k < s.len() && il_class(cls, s[k]) ==> k < il_run(s, k, cls),
        forall|j: int| k <= j < il_run(s, k, cls) ==> il_class(cls, #[trigger] s[j]),
        il_run(s, k, cls) < s.len() ==> !il_class(cls, s[il_run(s, k, cls)]),
    decreases s.len() - k,
{
    if k < s.len() && il_class(cls, s[k]) {
        lemma_il_run(s, k + 1, cls);
    }
}

fn in_il_class(cls: u8, c: char) -> (r: bool)
    ensures
        r == il_class(cls, c),
{
    if cls == 0 {
        c != ':'
    } else if cls == 1 {
        c == '`'
    } else if cls == 2 {
        c != '`'
    } else if cls == 3 {
        c == ' ' || c == '\t' || c == '\n'
    } else if cls == 4 {
        c != '>' && c != '\n' && c != '\r'
    } else {
        c != '>'
    }
}

fn il_run_exec(s: &Vec<char>, k: usize, cls: u8) -> (r: usize)
    requires
        k <= s@.len(),
    ensures
        r == il_run(s@, k as int, cls),
        k <= r <= s@.len(),
{
    proof {
        lemma_il_run(s@, k as int, cls);
    }
    let mut j = k;
    while j < s.len() && in_il_class(cls, s[j])
        invariant
            k <= j <= s@.len(),
            il_run(s@, j as int, cls) == il_run(s@, k as int, cls),
        decreases s@.len() - j,
    {
        j += 1;
    }
    j
}

// ---------------------------------------------------------------------------
// Scanners
// ---------------------------------------------------------------------------

/// End of an entity's name from `j` (entity starting at `i`): the first
/// `;`, or where 34 characters have been looked at.
pub open spec fn ent_end(s: Seq<char>, i: int, j: int) -> int
    decreases s.len() - j,
{
    if j < 0 || j >= s.len() || s[j] == ';' || j - i > 33 {
        j
    } else {
        ent_end(s, i, j + 1)
    }
}

/// An entity at `i`: `&`, up to 33 characters, `;`, decodable. Its
/// replacement and the index after it.
pub open spec fn entity_at(s: Seq<char>, i: int) -> Option<(Seq<char>, int)> {
    if !(0 <= i < s.len()) || s[i] != '&' {
        None
    } else {
        let j = ent_end(s, i, i + 1);
        if j < s.len() && s[j] == ';' {
            match spec_decode_entity(s.subrange(i, j + 1)) {
                Some(rep) => Some((rep, j + 1)),
                None => None,
            }
        } else {
            None
        }
    }
}

proof fn lemma_ent_end(s: Seq<char>, i: int, j: int)
    requires
        0 <= i < j <= s.len(),
    ensures
        j <= ent_end(s, i, j) <= s.len(),
    decreases s.len() - j,
{
    if j < s.len() && s[j] != ';' && j - i <= 33 {
        lemma_ent_end(s, i, j + 1);
    }
}

/// Entity at `i`: `&` then up to 33 characters to a `;`, decodable.
fn scan_entity(chars: &Vec<char>, i: usize) -> (r: Option<(Vec<char>, usize)>)
    requires
        i < chars.len(),
    ensures
        match r {
            Some((rep, next)) => entity_at(chars@, i as int) == Some((rep@, next as int)) && i
                < next <= chars.len(),
            None => entity_at(chars@, i as int) is None,
        },
{
    if chars[i] != '&' {
        return None;
    }
    proof {
        lemma_ent_end(chars@, i as int, i + 1);
    }
    let mut j = i + 1;
    while j < chars.len() && chars[j] != ';' && j - i <= 33
        invariant
            i < j <= chars.len(),
            ent_end(chars@, i as int, j as int) == ent_end(chars@, i as int, i + 1),
        decreases chars.len() - j,
    {
        j += 1;
    }
    if j < chars.len() && chars[j] == ';' {
        let token = slice(chars, i, j + 1);
        match decode_entity_chars(&token) {
            Some(rep) => {
                return Some((rep, j + 1));
            },
            None => {},
        }
    }
    None
}

/// Code-span content from `k` to `j`: line endings (`\r\n`, `\r`, `\n`)
/// become spaces.
pub open spec fn code_content(s: Seq<char>, k: int, j: int) -> Seq<char>
    decreases j - k,
{
    if k >= j || k < 0 || k >= s.len() {
        Seq::empty()
    } else if s[k] == '\r' && k + 1 < j && s[k + 1] == '\n' {
        seq![' '] + code_content(s, k + 2, j)
    } else if s[k] == '\r' || s[k] == '\n' {
        seq![' '] + code_content(s, k + 1, j)
    } else {
        seq![s[k]] + code_content(s, k + 1, j)
    }
}

/// One leading and one trailing space stripped, unless the content is
/// all spaces.
pub open spec fn strip_code_space(c: Seq<char>) -> Seq<char> {
    if c.len() > 0 && c[0] == ' ' && c.last() == ' ' && !crate::text::all_in_class(c, 3) {
        c.subrange(1, c.len() - 1)
    } else {
        c
    }
}

/// The closing backtick run of exactly `open_len` from `j`: where it
/// starts.
pub open spec fn code_close_from(s: Seq<char>, j: int, open_len: int) -> Option<int>
    decreases s.len() - j,
{
    if j < 0 || j >= s.len() {
        None
    } else {
        let j1 = il_run(s, j, 2);
        proof {
            lemma_il_run(s, j, 2);
        }
        if j1 >= s.len() {
            None
        } else {
            let cl = il_run(s, j1, 1) - j1;
            proof {
                lemma_il_run(s, j1, 1);
            }
            if cl == open_len {
                Some(j1)
            } else if j1 + cl > j {
                code_close_from(s, j1 + cl, open_len)
            } else {
                None
            }
        }
    }
}

/// A code span at `i`: its content and the index after it.
pub open spec fn code_at(s: Seq<char>, i: int) -> Option<(Seq<char>, int)> {
    if !(0 <= i < s.len()) || s[i] != '`' {
        None
    } else {
        let ol = il_run(s, i, 1) - i;
        match code_close_from(s, i + ol, ol) {
            Some(j) => Some((strip_code_space(code_content(s, i + ol, j)), j + ol)),
            None => None,
        }
    }
}

/// Code span at `i`: a backtick run closed by a run of the same length.
/// Line endings become spaces; one leading and one trailing space are
/// stripped when the content is not all spaces.
fn scan_backtick_code(chars: &Vec<char>, i: usize) -> (r: Option<(Vec<char>, usize)>)
    requires
        i < chars.len(),
    ensures
        match r {
            Some((c, next)) => code_at(chars@, i as int) == Some((c@, next as int)) && i < next
                <= chars.len(),
            None => code_at(chars@, i as int) is None,
        },
{
    if chars[i] != '`' {
        return None;
    }
    let n = chars.len();
    proof {
        lemma_il_run(chars@, i as int, 1);
    }
    let run_end = il_run_exec(chars, i, 1);
    let open_len = run_end - i;
    let mut j = i + open_len;
    assert(open_len >= 1);
    loop
        invariant
            i + open_len <= j <= n,
            open_len >= 1,
            n == chars.len(),
            open_len == il_run(chars@, i as int, 1) - i,
            j < n ==> code_close_from(chars@, j as int, open_len as int) == code_close_from(
                chars@,
                i + open_len,
                open_len as int,
            ),
            j >= n ==> code_close_from(chars@, i + open_len, open_len as int) is None,
        decreases n - j,
    {
        if j >= n {
            return None;
        }
        let j1 = il_run_exec(chars, j, 2);
        proof {
            lemma_il_run(chars@, j as int, 2);
        }
        if j1 >= n {
            return None;
        }
        proof {
            lemma_il_run(chars@, j1 as int, 1);
        }
        let j2 = il_run_exec(chars, j1, 1);
        let close_len = j2 - j1;
        if close_len == open_len {
            let mut content: Vec<char> = Vec::new();
            let mut k = i + open_len;
            while k < j1
                invariant
                    i + open_len <= k <= j1 + 1,
                    j1 < n,
                    n == chars.len(),
                    content@ + code_content(chars@, k as int, j1 as int) == code_content(
                        chars@,
                        i + open_len,
                        j1 as int,
                    ),
                decreases j1 + 1 - k,
            {
                let ghost before = content@;
                let ghost k0 = k;
                let c = chars[k];
                if c == '\r' && k + 1 < j1 && chars[k + 1] == '\n' {
                    content.push(' ');
                    k += 2;
                } else if c == '\r' || c == '\n' {
                    content.push(' ');
                    k += 1;
                } else {
                    content.push(c);
                    k += 1;
                }
                assert(before + code_content(chars@, k0 as int, j1 as int) =~= content@
                    + code_content(chars@, k as int, j1 as int));
            }
            assert(content@ + Seq::<char>::empty() =~= content@);
            let cl = content.len();
            if cl > 0 && content[0] == ' ' && content[cl - 1] == ' ' && !crate::text::all_class(
                &content,
                3,
            ) {
                content = slice(&content, 1, cl - 1);
            }
            return Some((content, j2));
        }
        j = j2;
    }
}

/// A URI scheme character.
pub open spec fn scheme_char(c: char) -> bool {
    spec_ascii_alnum(c) || c == '+' || c == '.' || c == '-'
}

/// A URI autolink body: a scheme of 2 to 32 ASCII letters, digits, `+`,
/// `.` or `-` starting with a letter, `:`, then a non-empty rest without
/// spaces, tabs, line breaks or angle brackets.
pub open spec fn spec_autolink_uri(s: Seq<char>) -> bool {
    let colon = il_run(s, 0, 0);
    &&& colon < s.len()
    &&& 2 <= colon <= 32
    &&& spec_ascii_alpha(s[0])
    &&& forall|k: int| 0 <= k < colon ==> scheme_char(#[trigger] s[k])
    &&& colon + 1 < s.len()
    &&& forall|q: int|
        colon < q < s.len() ==> !(#[trigger] s[q] == ' ' || s[q] == '\t' || s[q] == '\n' || s[q]
            == '\r' || s[q] == '<' || s[q] == '>')
}

/// URI autolink body: scheme of 2-32 ASCII letters/digits/`+.-` starting
/// with a letter, `:`, then a non-empty rest without spaces or angles.
fn is_autolink_uri(s: &Vec<char>) -> (r: bool)
    ensures
        r == spec_autolink_uri(s@),
{
    proof {
        lemma_il_run(s@, 0, 0);
    }
    let colon = il_run_exec(s, 0, 0);
    if colon >= s.len() {
        return false;
    }
    if colon < 2 || colon > 32 {
        return false;
    }
    if !is_ascii_alpha(s[0]) {
        return false;
    }
    let mut k: usize = 0;
    while k < colon
        invariant
            k <= colon < s.len(),
            forall|j: int| 0 <= j < k ==> scheme_char(#[trigger] s@[j]),
        decreases colon - k,
    {
        let c = s[k];
        if !(is_ascii_alnum(c) || c == '+' || c == '.' || c == '-') {
            return false;
        }
        k += 1;
    }
    if colon + 1 >= s.len() {
        return false;
    }
    let mut q = colon + 1;
    while q < s.len()
        invariant
            colon < q <= s.len(),
            forall|j: int|
                colon < j < q ==> !(#[trigger] s@[j] == ' ' || s@[j] == '\t' || s@[j] == '\n'
                    || s@[j] == '\r' || s@[j] == '<' || s@[j] == '>'),
        decreases s.len() - q,
    {
        let c = s[q];
        if c == ' ' || c == '\t' || c == '\n' || c == '\r' || c == '<' || c == '>' {
            return false;
        }
        q += 1;
    }
    true
}

/// Index of the last `@` before `k`, or the length when there is none.
pub open spec fn last_at(s: Seq<char>, k: int) -> int
    decreases k,
{
    if k <= 0 || k > s.len() {
        s.len() as int
    } else if s[k - 1] == '@' {
        k - 1
    } else {
        last_at(s, k - 1)
    }
}

/// Index of the last `.` in `s(at..k)`, or `at` when there is none.
pub open spec fn last_dot(s: Seq<char>, at: int, k: int) -> int
    decreases k - at,
{
    if k <= at + 1 {
        at
    } else if s[k - 1] == '.' {
        k - 1
    } else {
        last_dot(s, at, k - 1)
    }
}

/// A local-part character of an email autolink.
pub open spec fn email_local_char(c: char) -> bool {
    spec_ascii_alnum(c) || ".!#$%&'*+/=?^_`{|}~-"@.contains(c)
}

/// A domain character of an email autolink.
pub open spec fn email_domain_char(c: char) -> bool {
    spec_ascii_alnum(c) || c == '.' || c == '-' || c == '_' || c == '+'
}

/// An email autolink body (a simplified CommonMark grammar): a non-empty
/// local part before the last `@`, a domain of letters, digits and
/// `.-_+` with a dot, whose last label is two or more letters or else
/// non-empty alphanumerics; no spaces, tabs or angle brackets anywhere.
pub open spec fn spec_autolink_email(s: Seq<char>) -> bool {
    let n = s.len() as int;
    let at = last_at(s, n);
    let ld = last_dot(s, at, n);
    let lstart = ld + 1;
    let llen = n - lstart;
    let all_alpha = forall|q: int| lstart <= q < n ==> spec_ascii_alpha(#[trigger] s[q]);
    let all_alnum = forall|q: int| lstart <= q < n ==> spec_ascii_alnum(#[trigger] s[q]);
    &&& at < n
    &&& at != 0
    &&& at + 1 < n
    &&& forall|q: int| 0 <= q < at ==> email_local_char(#[trigger] s[q])
    &&& forall|q: int| at < q < n ==> email_domain_char(#[trigger] s[q])
    &&& exists|q: int| at < q < n && #[trigger] s[q] == '.'
    &&& !((llen < 2 || !all_alpha) && (!all_alnum || llen == 0))
    &&& forall|q: int| 0 <= q < n ==> !(#[trigger] s[q] == ' ' || s[q] == '\t' || s[q] == '<' || s[q] == '>')
}

proof fn lemma_last_dot(s: Seq<char>, at: int, k: int)
    requires
        0 <= at < k <= s.len(),
    ensures
        at <= last_dot(s, at, k) < k,
        last_dot(s, at, k) > at ==> s[last_dot(s, at, k)] == '.',
        forall|q: int| last_dot(s, at, k) < q < k ==> #[trigger] s[q] != '.',
        (exists|q: int| at < q < k && #[trigger] s[q] == '.') ==> last_dot(s, at, k) > at,
    decreases k - at,
{
    if k > at + 1 && s[k - 1] != '.' {
        lemma_last_dot(s, at, k - 1);
    }
}

proof fn lemma_last_at(s: Seq<char>, k: int)
    requires
        0 <= k <= s.len(),
    ensures
        last_at(s, k) == s.len() || (0 <= last_at(s, k) < k && s[last_at(s, k)] == '@'),
    decreases k,
{
    if k > 0 && s[k - 1] != '@' {
        lemma_last_at(s, k - 1);
    }
}

/// Email autolink body (simplified CommonMark email grammar).
fn is_autolink_email(s: &Vec<char>) -> (r: bool)
    ensures
        r == spec_autolink_email(s@),
{
    proof {
        reveal_strlit(".!#$%&'*+/=?^_`{|}~-");
    }
    let n = s.len();
    let mut at: usize = n;
    let mut k: usize = n;
    while k > 0
        invariant
            k <= n,
            n == s@.len(),
            last_at(s@, k as int) == last_at(s@, n as int),
        decreases k,
    {
        if s[k - 1] == '@' {
            break;
        }
        k -= 1;
    }
    if k > 0 {
        at = k - 1;
    }
    assert(at == last_at(s@, n as int));
    proof {
        lemma_last_at(s@, n as int);
    }
    if at >= n {
        return false;
    }
    if at == 0 || at + 1 >= n {
        return false;
    }
    let mut q: usize = 0;
    while q < at
        invariant
            q <= at < n,
            n == s@.len(),
            forall|j: int| 0 <= j < q ==> email_local_char(#[trigger] s@[j]),
        decreases at - q,
    {
        let c = s[q];
        if !(is_ascii_alnum(c) || char_in(c, ".!#$%&'*+/=?^_`{|}~-")) {
            return false;
        }
        q += 1;
    }
    let mut has_dot = false;
    let mut ld: usize = at;
    let mut q = at + 1;
    while q < n
        invariant
            at < q <= n,
            at <= ld < n,
            n == s@.len(),
            forall|j: int| at < j < q ==> email_domain_char(#[trigger] s@[j]),
            has_dot == (exists|j: int| at < j < q && #[trigger] s@[j] == '.'),
            ld == last_dot(s@, at as int, q as int),
        decreases n - q,
    {
        let c = s[q];
        if !(is_ascii_alnum(c) || c == '.' || c == '-' || c == '_' || c == '+') {
            return false;
        }
        if c == '.' {
            has_dot = true;
            ld = q;
        }
        q += 1;
    }
    if !has_dot {
        return false;
    }
    proof {
        lemma_last_dot(s@, at as int, n as int);
    }
    // Last label: after the last dot.
    let lstart = ld + 1;
    let llen = n - lstart;
    let mut all_alpha = true;
    let mut all_alnum = true;
    let mut q = lstart;
    while q < n
        invariant
            lstart <= q <= n,
            n == s@.len(),
            all_alpha == (forall|j: int| lstart <= j < q ==> spec_ascii_alpha(#[trigger] s@[j])),
            all_alnum == (forall|j: int| lstart <= j < q ==> spec_ascii_alnum(#[trigger] s@[j])),
        decreases n - q,
    {
        if !is_ascii_alpha(s[q]) {
            all_alpha = false;
        }
        if !is_ascii_alnum(s[q]) {
            all_alnum = false;
        }
        q += 1;
    }
    if llen < 2 || !all_alpha {
        if !all_alnum || llen == 0 {
            return false;
        }
    }
    let mut q: usize = 0;
    while q < n
        invariant
            q <= n,
            n == s@.len(),
            forall|j: int| 0 <= j < q ==> !(#[trigger] s@[j] == ' ' || s@[j] == '\t' || s@[j] == '<' || s@[j] == '>'),
        decreases n - q,
    {
        let c = s[q];
        if c == ' ' || c == '\t' || c == '<' || c == '>' {
            return false;
        }
        q += 1;
    }
    true
}

/// Character classes of the tag scanner: 0 space or tab, 1 tag-name
/// characters after the first, 2 attribute-name characters after the
/// first, 3 anything but the quote `q`, 4 unquoted attribute-value
/// characters.
pub open spec fn tag_class(cls: u8, q: char, c: char) -> bool {
    if cls == 0 {
        c == ' ' || c == '\t'
    } else if cls == 1 {
        spec_ascii_alnum(c) || c == '-'
    } else if cls == 2 {
        spec_ascii_alnum(c) || c == '_' || c == '.' || c == ':' || c == '-'
    } else if cls == 3 {
        c != q
    } else {
        !(c == ' ' || c == '\t' || c == '\n' || c == '\r' || c == '"' || c == '\'' || c == '='
            || c == '<' || c == '>' || c == '`')
    }
}

/// End of the run of class `cls` from `k`.
pub open spec fn tag_run_end(b: Seq<char>, k: int, cls: u8, q: char) -> int
    decreases b.len() - k,
{
    if k < 0 || k >= b.len() || !tag_class(cls, q, b[k]) {
        k
    } else {
        tag_run_end(b, k + 1, cls, q)
    }
}

pub proof fn lemma_tag_run_end(b: Seq<char>, k: int, cls: u8, q: char)
    requires
        0 <= k <= b.len(),
    ensures
        k <= tag_run_end(b, k, cls, q) <= b.len(),
        k < b.len() && tag_class(cls, q, b[k]) ==> k < tag_run_end(b, k, cls, q),
    decreases b.len() - k,
{
    if k < b.len() && tag_class(cls, q, b[k]) {
        lemma_tag_run_end(b, k + 1, cls, q);
    }
}

fn in_tag_class(cls: u8, q: char, c: char) -> (r: bool)
    ensures
        r == tag_class(cls, q, c),
{
    if cls == 0 {
        c == ' ' || c == '\t'
    } else if cls == 1 {
        is_ascii_alnum(c) || c == '-'
    } else if cls == 2 {
        is_ascii_alnum(c) || c == '_' || c == '.' || c == ':' || c == '-'
    } else if cls == 3 {
        c != q
    } else {
        !(c == ' ' || c == '\t' || c == '\n' || c == '\r' || c == '"' || c == '\'' || c == '='
            || c == '<' || c == '>' || c == '`')
    }
}

fn tag_run(b: &Vec<char>, k: usize, cls: u8, q: char) -> (r: usize)
    requires
        k <= b@.len(),
    ensures
        r == tag_run_end(b@, k as int, cls, q),
        k <= r <= b@.len(),
{
    proof {
        lemma_tag_run_end(b@, k as int, cls, q);
    }
    let mut j = k;
    while j < b.len() && in_tag_class(cls, q, b[j])
        invariant
            k <= j <= b@.len(),
            tag_run_end(b@, j as int, cls, q) == tag_run_end(b@, k as int, cls, q),
        decreases b@.len() - j,
    {
        j += 1;
    }
    j
}

/// Past one optional line ending at `j`.
pub open spec fn line_end_skip(b: Seq<char>, j: int) -> int {
    if 0 <= j < b.len() && b[j] == '\r' {
        if j + 1 < b.len() && b[j + 1] == '\n' {
            j + 2
        } else {
            j + 1
        }
    } else if 0 <= j < b.len() && b[j] == '\n' {
        j + 1
    } else {
        j
    }
}

/// Tag whitespace from `k`: spaces and tabs with at most one line ending.
pub open spec fn tag_ws_end(b: Seq<char>, k: int) -> int {
    tag_run_end(b, line_end_skip(b, tag_run_end(b, k, 0, ' ')), 0, ' ')
}

pub proof fn lemma_tag_ws_end(b: Seq<char>, k: int)
    requires
        0 <= k <= b.len(),
    ensures
        k <= tag_ws_end(b, k) <= b.len(),
{
    lemma_tag_run_end(b, k, 0, ' ');
    let j = tag_run_end(b, k, 0, ' ');
    lemma_tag_run_end(b, line_end_skip(b, j), 0, ' ');
}

/// The end (one past `>`) of an open tag whose name or last attribute
/// ends at `k`: attributes separated by whitespace, each a name with an
/// optional `=` and a quoted or unquoted value, then `>` or `/>`.
pub open spec fn tag_attrs_end(b: Seq<char>, k: int) -> Option<int>
    decreases b.len() - k,
{
    if k < 0 || k > b.len() {
        None
    } else {
        let nk = tag_ws_end(b, k);
        proof {
            lemma_tag_ws_end(b, k);
        }
        if nk >= b.len() {
            None
        } else if b[nk] == '>' {
            Some(nk + 1)
        } else if b[nk] == '/' {
            if nk + 1 < b.len() && b[nk + 1] == '>' {
                Some(nk + 2)
            } else {
                None
            }
        } else if nk == k {
            None
        } else if !(spec_ascii_alpha(b[nk]) || b[nk] == '_' || b[nk] == ':') {
            None
        } else {
            let a = tag_run_end(b, nk + 1, 2, ' ');
            let nk2 = tag_ws_end(b, a);
            proof {
                lemma_tag_run_end(b, nk + 1, 2, ' ');
                lemma_tag_ws_end(b, a);
            }
            if nk2 < b.len() && b[nk2] == '=' {
                let v = tag_ws_end(b, nk2 + 1);
                proof {
                    lemma_tag_ws_end(b, nk2 + 1);
                }
                if v >= b.len() {
                    None
                } else if b[v] == '"' || b[v] == '\'' {
                    let e = tag_run_end(b, v + 1, 3, b[v]);
                    proof {
                        lemma_tag_run_end(b, v + 1, 3, b[v]);
                    }
                    if e >= b.len() {
                        None
                    } else {
                        tag_attrs_end(b, e + 1)
                    }
                } else {
                    let e = tag_run_end(b, v, 4, ' ');
                    proof {
                        lemma_tag_run_end(b, v, 4, ' ');
                    }
                    if e == v {
                        None
                    } else {
                        tag_attrs_end(b, e)
                    }
                }
            } else {
                tag_attrs_end(b, a)
            }
        }
    }
}

/// The end (one past `>`) of a CommonMark open or closing tag starting
/// at `i`: `<`, an optional `/`, a name (an ASCII letter, then letters,
/// digits and `-`), then for a closing tag optional whitespace and `>`,
/// for an open tag its attributes (see [`tag_attrs_end`]).
pub open spec fn spec_tag_end_at(b: Seq<char>, i: int) -> Option<int> {
    if i < 0 || i >= b.len() || b[i] != '<' {
        None
    } else {
        let closing = i + 1 < b.len() && b[i + 1] == '/';
        let k = if closing {
            i + 2
        } else {
            i + 1
        };
        if k >= b.len() || !spec_ascii_alpha(b[k]) {
            None
        } else {
            let ne = tag_run_end(b, k + 1, 1, ' ');
            if closing {
                let nk = tag_ws_end(b, ne);
                if nk < b.len() && b[nk] == '>' {
                    Some(nk + 1)
                } else {
                    None
                }
            } else {
                tag_attrs_end(b, ne)
            }
        }
    }
}

/// `c` agrees with `b` before `n`.
pub open spec fn agree_before(b: Seq<char>, c: Seq<char>, n: int) -> bool {
    &&& n <= b.len()
    &&& n <= c.len()
    &&& forall|x: int| 0 <= x < n ==> #[trigger] c[x] == b[x]
}

proof fn lemma_run_local(b: Seq<char>, c: Seq<char>, n: int, k: int, cls: u8, q: char)
    requires
        agree_before(b, c, n),
        0 <= k,
        tag_run_end(b, k, cls, q) < n,
    ensures
        tag_run_end(c, k, cls, q) == tag_run_end(b, k, cls, q),
    decreases b.len() - k,
{
    if k < b.len() && tag_class(cls, q, b[k]) {
        lemma_tag_run_end(b, k, cls, q);
        assert(c[k] == b[k]);
        lemma_run_local(b, c, n, k + 1, cls, q);
    } else if k < b.len() {
        assert(tag_run_end(b, k, cls, q) == k);
        assert(c[k] == b[k]);
    }
}

proof fn lemma_ws_local(b: Seq<char>, c: Seq<char>, n: int, k: int)
    requires
        agree_before(b, c, n),
        0 <= k <= b.len(),
        tag_ws_end(b, k) < n,
    ensures
        tag_ws_end(c, k) == tag_ws_end(b, k),
{
    lemma_tag_run_end(b, k, 0, ' ');
    let j = tag_run_end(b, k, 0, ' ');
    let les = line_end_skip(b, j);
    assert(j <= les);
    lemma_tag_run_end(b, les, 0, ' ');
    lemma_run_local(b, c, n, k, 0, ' ');
    if j < n {
        assert(c[j] == b[j]);
    }
    if 0 <= j < b.len() && b[j] == '\r' && j + 1 < b.len() {
        assert(c[j + 1] == b[j + 1]);
    }
    assert(line_end_skip(c, j) == les);
    lemma_run_local(b, c, n, les, 0, ' ');
}

proof fn lemma_attrs_end_after(b: Seq<char>, k: int)
    requires
        tag_attrs_end(b, k) is Some,
    ensures
        k < tag_attrs_end(b, k)->0 <= b.len(),
        tag_ws_end(b, k) < tag_attrs_end(b, k)->0,
    decreases b.len() - k,
{
    lemma_tag_ws_end(b, k);
    let nk = tag_ws_end(b, k);
    if nk < b.len() && b[nk] != '>' && b[nk] != '/' && nk != k && (spec_ascii_alpha(b[nk]) || b[nk] == '_' || b[nk] == ':') {
        lemma_tag_run_end(b, nk + 1, 2, ' ');
        let a = tag_run_end(b, nk + 1, 2, ' ');
        lemma_tag_ws_end(b, a);
        let nk2 = tag_ws_end(b, a);
        if nk2 < b.len() && b[nk2] == '=' {
            lemma_tag_ws_end(b, nk2 + 1);
            let v = tag_ws_end(b, nk2 + 1);
            if b[v] == '"' || b[v] == '\'' {
                lemma_tag_run_end(b, v + 1, 3, b[v]);
                let e = tag_run_end(b, v + 1, 3, b[v]);
                lemma_attrs_end_after(b, e + 1);
            } else {
                lemma_tag_run_end(b, v, 4, ' ');
                let e = tag_run_end(b, v, 4, ' ');
                lemma_attrs_end_after(b, e);
            }
        } else {
            lemma_attrs_end_after(b, a);
        }
    }
}

proof fn lemma_attrs_local(b: Seq<char>, c: Seq<char>, n: int, k: int)
    requires
        agree_before(b, c, n),
        0 <= k,
        tag_attrs_end(b, k) == Some(n),
    ensures
        tag_attrs_end(c, k) == Some(n),
    decreases b.len() - k,
{
    lemma_tag_ws_end(b, k);
    let nk = tag_ws_end(b, k);
    if b[nk] == '>' {
        lemma_ws_local(b, c, n, k);
        assert(c[nk] == b[nk]);
    } else if b[nk] == '/' {
        lemma_ws_local(b, c, n, k);
        assert(c[nk] == b[nk]);
        assert(c[nk + 1] == b[nk + 1]);
    } else {
        lemma_tag_run_end(b, nk + 1, 2, ' ');
        let a = tag_run_end(b, nk + 1, 2, ' ');
        lemma_tag_ws_end(b, a);
        let nk2 = tag_ws_end(b, a);
        if nk2 < b.len() && b[nk2] == '=' {
            lemma_tag_ws_end(b, nk2 + 1);
            let v = tag_ws_end(b, nk2 + 1);
            if b[v] == '"' || b[v] == '\'' {
                lemma_tag_run_end(b, v + 1, 3, b[v]);
                let e = tag_run_end(b, v + 1, 3, b[v]);
                lemma_attrs_end_after(b, e + 1);
                lemma_attrs_local(b, c, n, e + 1);
                lemma_run_local(b, c, n, v + 1, 3, b[v]);
                assert(c[v] == b[v]);
                assert(c[e] == b[e]);
            } else {
                lemma_tag_run_end(b, v, 4, ' ');
                let e = tag_run_end(b, v, 4, ' ');
                lemma_attrs_end_after(b, e);
                lemma_attrs_local(b, c, n, e);
                lemma_run_local(b, c, n, v, 4, ' ');
                assert(c[v] == b[v]);
            }
            lemma_ws_local(b, c, n, nk2 + 1);
            assert(c[nk2] == b[nk2]);
        } else {
            lemma_attrs_end_after(b, a);
            lemma_attrs_local(b, c, n, a);
            if nk2 < b.len() {
                assert(c[nk2] == b[nk2]);
            }
        }
        lemma_ws_local(b, c, n, a);
        lemma_run_local(b, c, n, nk + 1, 2, ' ');
        lemma_ws_local(b, c, n, k);
        assert(c[nk] == b[nk]);
    }
}

/// A tag's extent depends only on the tag: whatever follows the closing
/// `>` of a tag at the start of `s`, the tag found there is the same, in
/// characters and in UTF-8 bytes (as [`tag_end_len`] counts them).
pub proof fn law_tag_end_prefix(s: Seq<char>, t: Seq<char>)
    requires
        spec_tag_end_at(s, 0) is Some,
    ensures
        ({
            let n = spec_tag_end_at(s, 0)->0;
            &&& 3 <= n <= s.len()
            &&& s[0] == '<'
            &&& s[n - 1] == '>'
            &&& spec_tag_end_at(s.take(n) + t, 0) == Some(n)
            &&& vstd::utf8::encode_utf8((s.take(n) + t).take(n)).len() == vstd::utf8::encode_utf8(s.take(n)).len()
            &&& vstd::utf8::encode_utf8(s.take(n)).last() == 62u8
        }),
{
    let n = spec_tag_end_at(s, 0)->0;
    let c = s.take(n) + t;
    let closing = 1 < s.len() && s[1] == '/';
    let k: int = if closing {
        2
    } else {
        1
    };
    lemma_tag_run_end(s, k + 1, 1, ' ');
    let ne = tag_run_end(s, k + 1, 1, ' ');
    if closing {
        lemma_tag_ws_end(s, ne);
        let nk = tag_ws_end(s, ne);
        assert(n == nk + 1);
    } else {
        lemma_attrs_end_after(s, ne);
    }
    assert(agree_before(s, c, n)) by {
        assert forall|x: int| 0 <= x < n implies #[trigger] c[x] == s[x] by {
            assert(c[x] == s.take(n)[x]);
        }
    }
    assert(c[0] == s[0]);
    assert(c[k] == s[k]);
    if closing {
        assert(c[1] == s[1]);
        lemma_run_local(s, c, n, k + 1, 1, ' ');
        lemma_ws_local(s, c, n, ne);
        let nk = tag_ws_end(s, ne);
        assert(c[nk] == s[nk]);
    } else {
        if 1 < c.len() {
            assert(c[1] == s[1]);
        }
        lemma_run_local(s, c, n, k + 1, 1, ' ');
        lemma_attrs_local(s, c, n, ne);
    }
    if !closing {
        let r = tag_attrs_end(s, ne)->0;
        lemma_tag_ws_end(s, ne);
    }
    assert(s[n - 1] == '>') by {
        if closing {
        } else {
            lemma_attrs_gt(s, ne);
        }
    }
    assert(c.take(n) =~= s.take(n));
    assert(s.take(n) =~= s.take(n - 1) + seq!['>']);
    lemma_encode_concat(s.take(n - 1), seq!['>']);
    crate::html_escape::lemma_low7('>' as u32);
    assert(seq!['>'].drop_first() =~= Seq::<char>::empty());
    assert(('>' as u32) == 62);
    assert(vstd::utf8::has_width_1_encoding(62));
    assert(vstd::utf8::encode_scalar(62) =~= seq![62u8]);
    assert(seq!['>'][0] as u32 == 62);
    assert(vstd::utf8::encode_utf8(Seq::<char>::empty()) =~= Seq::<u8>::empty());
    assert(vstd::utf8::encode_utf8(seq!['>']) =~= seq![62u8]);
}

proof fn lemma_encode_concat(a: Seq<char>, b: Seq<char>)
    ensures
        vstd::utf8::encode_utf8(a + b) == vstd::utf8::encode_utf8(a) + vstd::utf8::encode_utf8(b),
    decreases a.len(),
{
    if a.len() == 0 {
        assert(a + b =~= b);
        assert(vstd::utf8::encode_utf8(a) =~= Seq::<u8>::empty());
        assert(Seq::<u8>::empty() + vstd::utf8::encode_utf8(b) =~= vstd::utf8::encode_utf8(b));
    } else {
        lemma_encode_concat(a.drop_first(), b);
        assert((a + b).drop_first() =~= a.drop_first() + b);
        assert((a + b)[0] == a[0]);
        let h = vstd::utf8::encode_scalar(a[0] as u32);
        assert(h + (vstd::utf8::encode_utf8(a.drop_first()) + vstd::utf8::encode_utf8(b))
            =~= (h + vstd::utf8::encode_utf8(a.drop_first())) + vstd::utf8::encode_utf8(b));
    }
}

/// An attribute list ends right after a `>`.
proof fn lemma_attrs_gt(b: Seq<char>, k: int)
    requires
        tag_attrs_end(b, k) is Some,
    ensures
        b[tag_attrs_end(b, k)->0 - 1] == '>',
    decreases b.len() - k,
{
    lemma_tag_ws_end(b, k);
    let nk = tag_ws_end(b, k);
    if nk < b.len() && b[nk] != '>' && b[nk] != '/' && nk != k && (spec_ascii_alpha(b[nk]) || b[nk] == '_' || b[nk] == ':') {
        lemma_tag_run_end(b, nk + 1, 2, ' ');
        let a = tag_run_end(b, nk + 1, 2, ' ');
        lemma_tag_ws_end(b, a);
        let nk2 = tag_ws_end(b, a);
        if nk2 < b.len() && b[nk2] == '=' {
            lemma_tag_ws_end(b, nk2 + 1);
            let v = tag_ws_end(b, nk2 + 1);
            if b[v] == '"' || b[v] == '\'' {
                lemma_tag_run_end(b, v + 1, 3, b[v]);
                let e = tag_run_end(b, v + 1, 3, b[v]);
                lemma_attrs_gt(b, e + 1);
            } else {
                lemma_tag_run_end(b, v, 4, ' ');
                let e = tag_run_end(b, v, 4, ' ');
                lemma_attrs_gt(b, e);
            }
        } else {
            lemma_attrs_gt(b, a);
        }
    }
}

/// Skip tag whitespace: spaces/tabs plus at most one line ending.
fn skip_tag_ws(b: &Vec<char>, k0: usize) -> (r: usize)
    requires
        k0 <= b.len(),
    ensures
        r == tag_ws_end(b@, k0 as int),
        k0 <= r <= b.len(),
{
    proof {
        lemma_tag_ws_end(b@, k0 as int);
    }
    let mut k = tag_run(b, k0, 0, ' ');
    if k < b.len() && b[k] == '\r' {
        k += 1;
        if k < b.len() && b[k] == '\n' {
            k += 1;
        }
    } else if k < b.len() && b[k] == '\n' {
        k += 1;
    }
    tag_run(b, k, 0, ' ')
}

/// Strict CommonMark open/closing-tag scanner on the characters from `i`
/// (which must be `<`). Returns the length in characters through the
/// closing `>`. Tag name: ASCII letter then letters/digits/`-`;
/// attributes are whitespace-separated with XML-style names; `/` must be
/// immediately followed by `>`; closing tags take no attributes.
pub fn tag_end_at(b: &Vec<char>, i: usize) -> (r: Option<usize>)
    requires
        i <= b.len(),
    ensures
        match r {
            Some(len) => spec_tag_end_at(b@, i as int) == Some(i + len) && 0 < len && i + len
                <= b.len(),
            None => spec_tag_end_at(b@, i as int) is None,
        },
{
    let n = b.len();
    if i >= n || b[i] != '<' {
        return None;
    }
    let mut k = i + 1;
    let closing = if k < n && b[k] == '/' {
        k += 1;
        true
    } else {
        false
    };
    if k >= n || !is_ascii_alpha(b[k]) {
        return None;
    }
    k = tag_run(b, k + 1, 1, ' ');
    if closing {
        let nk = skip_tag_ws(b, k);
        if nk < n && b[nk] == '>' {
            return Some(nk + 1 - i);
        }
        return None;
    }
    loop
        invariant
            i < k <= n,
            n == b.len(),
            spec_tag_end_at(b@, i as int) == tag_attrs_end(b@, k as int),
        decreases n - k,
    {
        let nk = skip_tag_ws(b, k);
        if nk >= n {
            return None;
        }
        if b[nk] == '>' {
            return Some(nk + 1 - i);
        }
        if b[nk] == '/' {
            if nk + 1 < n && b[nk + 1] == '>' {
                return Some(nk + 2 - i);
            }
            return None;
        }
        if nk == k {
            return None;
        }
        if !(is_ascii_alpha(b[nk]) || b[nk] == '_' || b[nk] == ':') {
            return None;
        }
        let a = tag_run(b, nk + 1, 2, ' ');
        let nk2 = skip_tag_ws(b, a);
        if nk2 < n && b[nk2] == '=' {
            let v = skip_tag_ws(b, nk2 + 1);
            if v >= n {
                return None;
            }
            if b[v] == '"' || b[v] == '\'' {
                let e = tag_run(b, v + 1, 3, b[v]);
                if e >= n {
                    return None;
                }
                k = e + 1;
            } else {
                let e = tag_run(b, v, 4, ' ');
                if e == v {
                    return None;
                }
                k = e;
            }
        } else {
            k = a;
        }
    }
}

/// Strict CommonMark open/closing-tag scanner. `s` starts at `<`.
/// Returns the byte length through the closing `>`.
pub fn tag_end_len(s: &str) -> (r: Option<usize>)
    ensures
        match r {
            Some(len) => spec_tag_end_at(s@, 0) is Some && len == vstd::utf8::encode_utf8(
                s@.take(spec_tag_end_at(s@, 0)->0),
            ).len() as usize,
            None => spec_tag_end_at(s@, 0) is None,
        },
{
    let v = chars_of(s);
    match tag_end_at(&v, 0) {
        Some(n) => {
            let prefix = string_of(&slice(&v, 0, n));
            assert(prefix@ =~= s@.take(n as int));
            Some(prefix.as_str().len())
        },
        None => None,
    }
}

/// Raw HTML at `i` (a `<` there): a comment (through the first `-->`
/// after `i`), a processing instruction (through `?>`), CDATA (through
/// `]]>`), a declaration (`<!` and a letter, through `>`), or an open or
/// closing tag. The index after it.
pub open spec fn raw_tag_end(s: Seq<char>, i: int) -> Option<int> {
    if matches_at(s, i + 1, "!--"@) {
        match crate::sanitize::spec_find(s, i, "-->"@) {
            Some(p) => Some(p + 3),
            None => None,
        }
    } else if matches_at(s, i + 1, "?"@) {
        match crate::sanitize::spec_find(s, i, "?>"@) {
            Some(p) => Some(p + 2),
            None => None,
        }
    } else if matches_at(s, i + 1, "!"@) {
        if matches_at(s, i + 1, "![CDATA["@) {
            match crate::sanitize::spec_find(s, i, "]]>"@) {
                Some(p) => Some(p + 3),
                None => None,
            }
        } else if s.len() - i <= 2 {
            None
        } else if spec_ascii_alpha(s[i + 2]) {
            let k = il_run(s, i + 1, 5);
            if k < s.len() {
                Some(k + 1)
            } else {
                None
            }
        } else {
            None
        }
    } else {
        spec_tag_end_at(s, i)
    }
}

/// Raw HTML at `i` (`chars[i] == '<'`): comment, processing instruction,
/// declaration, CDATA, or an open/closing tag. Returns the end index.
fn scan_raw_tag(chars: &Vec<char>, i: usize) -> (r: Option<usize>)
    requires
        i < chars.len(),
    ensures
        match r {
            Some(end) => raw_tag_end(chars@, i as int) == Some(end as int) && i < end <= chars.len(),
            None => raw_tag_end(chars@, i as int) is None,
        },
{
    let n = chars.len();
    proof {
        reveal_strlit("-->");
        reveal_strlit("?>");
        reveal_strlit("]]>");
        reveal_strlit("!--");
        reveal_strlit("?");
        reveal_strlit("!");
        reveal_strlit("![CDATA[");
    }
    if starts_with_at(chars, i + 1, "!--") {
        match crate::sanitize::find(chars, i, "-->") {
            Some(p) => {
                proof {
                    crate::sanitize::lemma_find_bounds(chars@, i as int, "-->"@);
                }
                return Some(p + 3);
            },
            None => {
                return None;
            },
        }
    }
    if starts_with_at(chars, i + 1, "?") {
        match crate::sanitize::find(chars, i, "?>") {
            Some(p) => {
                proof {
                    crate::sanitize::lemma_find_bounds(chars@, i as int, "?>"@);
                }
                return Some(p + 2);
            },
            None => {
                return None;
            },
        }
    }
    if starts_with_at(chars, i + 1, "!") {
        if starts_with_at(chars, i + 1, "![CDATA[") {
            match crate::sanitize::find(chars, i, "]]>") {
                Some(p) => {
                    proof {
                        crate::sanitize::lemma_find_bounds(chars@, i as int, "]]>"@);
                    }
                    return Some(p + 3);
                },
                None => {
                    return None;
                },
            }
        }
        if n - i <= 2 {
            return None;
        }
        if is_ascii_alpha(chars[i + 2]) {
            let k = il_run_exec(chars, i + 1, 5);
            if k < n {
                return Some(k + 1);
            }
            return None;
        }
        return None;
    }
    match tag_end_at(chars, i) {
        Some(len) => Some(i + len),
        None => None,
    }
}

/// An autolink or raw HTML at `i` (a `<` there): a URI or email between
/// `<` and the first `>` on the line becomes a link; otherwise raw HTML.
pub open spec fn angle_at(s: Seq<char>, i: int) -> Option<(ITok, int)> {
    if !(0 <= i < s.len()) || s[i] != '<' {
        None
    } else {
        let j = il_run(s, i + 1, 4);
        let inner = s.subrange(i + 1, j);
        if j < s.len() && s[j] == '>' && spec_autolink_uri(inner) {
            Some((ITok::Link { children: seq![El::Text(inner)], url: inner, title: None }, j + 1))
        } else if j < s.len() && s[j] == '>' && spec_autolink_email(inner) {
            Some(
                (
                    ITok::Link {
                        children: seq![El::Text(inner)],
                        url: "mailto:"@ + inner,
                        title: None,
                    },
                    j + 1,
                ),
            )
        } else {
            match raw_tag_end(s, i) {
                Some(end) => Some((ITok::RawHtml(s.subrange(i, end)), end)),
                None => None,
            }
        }
    }
}

/// Autolink or raw HTML at `i` (`chars[i] == '<'`). Returns the token and
/// the next index.
fn scan_angle(chars: &Vec<char>, i: usize) -> (r: Option<(Tok, usize)>)
    requires
        i < chars.len(),
    ensures
        match r {
            Some((t, next)) => angle_at(chars@, i as int) == Some((itok_view(t), next as int)) && i
                < next <= chars.len(),
            None => angle_at(chars@, i as int) is None,
        },
{
    if chars[i] != '<' {
        return None;
    }
    let n = chars.len();
    proof {
        lemma_il_run(chars@, i + 1, 4);
    }
    let j = il_run_exec(chars, i + 1, 4);
    if j < n && chars[j] == '>' {
        let inner = slice(chars, i + 1, j);
        if is_autolink_uri(&inner) {
            let mut children: Vec<InlineElement> = Vec::new();
            let text = string_of(&inner);
            children.push(InlineElement::Text(text));
            assert(els_view(children@) =~= seq![El::Text(inner@)]) by {
                reveal_with_fuel(els_view, 2);
                assert(children@.drop_last() =~= Seq::<InlineElement>::empty());
            }
            let tok = Tok::Link { children, url: inner, title: None };
            return Some((tok, j + 1));
        }
        if is_autolink_email(&inner) {
            let mut url: Vec<char> = Vec::new();
            push_str(&mut url, "mailto:");
            push_vec(&mut url, &inner);
            let mut children: Vec<InlineElement> = Vec::new();
            let text = string_of(&inner);
            children.push(InlineElement::Text(text));
            assert(els_view(children@) =~= seq![El::Text(inner@)]) by {
                reveal_with_fuel(els_view, 2);
                assert(children@.drop_last() =~= Seq::<InlineElement>::empty());
            }
            let tok = Tok::Link { children, url, title: None };
            return Some((tok, j + 1));
        }
    }
    match scan_raw_tag(chars, i) {
        Some(end) => {
            let raw = slice(chars, i, end);
            Some((Tok::RawHtml(raw), end))
        },
        None => None,
    }
}

/// A link title's characters from `j` up to `closing`, backslash-escaped
/// punctuation unescaped; a line feed ends a parenthesized title without
/// success.
pub open spec fn title_from(s: Seq<char>, j: int, closing: char, acc: Seq<char>) -> Option<
    (Seq<char>, int),
>
    decreases s.len() - j,
{
    if j < 0 || j >= s.len() {
        None
    } else if s[j] == closing {
        Some((acc, j + 1))
    } else if s[j] == '\n' && closing == ')' {
        None
    } else if s[j] == '\\' && j + 1 < s.len() && spec_ascii_punct(s[j + 1]) {
        title_from(s, j + 2, closing, acc.push(s[j + 1]))
    } else {
        title_from(s, j + 1, closing, acc.push(s[j]))
    }
}

/// A link title at `i`: `"..."`, `'...'` or `(...)`.
pub open spec fn title_at(s: Seq<char>, i: int) -> Option<(Seq<char>, int)> {
    if !(0 <= i < s.len()) {
        None
    } else if s[i] == '"' {
        title_from(s, i + 1, '"', Seq::empty())
    } else if s[i] == '\'' {
        title_from(s, i + 1, '\'', Seq::empty())
    } else if s[i] == '(' {
        title_from(s, i + 1, ')', Seq::empty())
    } else {
        None
    }
}

proof fn lemma_title_from(s: Seq<char>, j: int, closing: char, acc: Seq<char>)
    requires
        0 <= j,
    ensures
        title_from(s, j, closing, acc) is Some ==> j < (title_from(s, j, closing, acc)->0).1 <= s.len(),
    decreases s.len() - j,
{
    if 0 <= j < s.len() && s[j] != closing && !(s[j] == '\n' && closing == ')') {
        if s[j] == '\\' && j + 1 < s.len() && spec_ascii_punct(s[j + 1]) {
            lemma_title_from(s, j + 2, closing, acc.push(s[j + 1]));
        } else {
            lemma_title_from(s, j + 1, closing, acc.push(s[j]));
        }
    }
}

/// Link title at `i`: `"…"`, `'…'` or `(…)` with backslash escapes.
fn parse_link_title(chars: &Vec<char>, i: usize) -> (r: Option<(Vec<char>, usize)>)
    ensures
        match r {
            Some((t, next)) => title_at(chars@, i as int) == Some((t@, next as int)) && i < next
                <= chars.len(),
            None => title_at(chars@, i as int) is None,
        },
{
    let n = chars.len();
    if i >= n {
        return None;
    }
    let q = chars[i];
    let closing = if q == '"' {
        '"'
    } else if q == '\'' {
        '\''
    } else if q == '(' {
        ')'
    } else {
        return None;
    };
    let mut j = i + 1;
    let mut title: Vec<char> = Vec::new();
    assert(title_at(chars@, i as int) == title_from(chars@, i + 1, closing, Seq::empty()));
    while j < n
        invariant
            i < j <= n,
            n == chars@.len(),
            title_from(chars@, j as int, closing, title@) == title_at(chars@, i as int),
        decreases n - j,
    {
        let c = chars[j];
        if c == closing {
            return Some((title, j + 1));
        }
        if c == '\n' && closing == ')' {
            return None;
        }
        if c == '\\' && j + 1 < n && is_ascii_punct(chars[j + 1]) {
            title.push(chars[j + 1]);
            j += 2;
        } else {
            title.push(c);
            j += 1;
        }
    }
    None
}

/// Skip spaces, tabs and newlines.
fn skip_link_ws(chars: &Vec<char>, j0: usize) -> (k: usize)
    requires
        j0 <= chars.len(),
    ensures
        k == il_run(chars@, j0 as int, 3),
        j0 <= k <= chars.len(),
{
    il_run_exec(chars, j0, 3)
}

/// A destination inside `<...>` from `j`: no line breaks or `<`,
/// backslash-escaped punctuation unescaped.
pub open spec fn angle_dest_from(s: Seq<char>, j: int, acc: Seq<char>) -> Option<(Seq<char>, int)>
    decreases s.len() - j,
{
    if j < 0 || j >= s.len() {
        None
    } else if s[j] == '>' {
        Some((acc, j + 1))
    } else if s[j] == '\n' || s[j] == '\r' || s[j] == '<' {
        None
    } else if s[j] == '\\' && j + 1 < s.len() && spec_ascii_punct(s[j + 1]) {
        angle_dest_from(s, j + 2, acc.push(s[j + 1]))
    } else {
        angle_dest_from(s, j + 1, acc.push(s[j]))
    }
}

/// A bare destination from `j` (`depth` parentheses open): up to
/// whitespace or an unbalanced `)`, no control characters, backslash
/// escapes of punctuation unescaped; non-empty (`any`).
pub open spec fn plain_dest_from(s: Seq<char>, j: int, depth: nat, any: bool, acc: Seq<char>) -> Option<
    (Seq<char>, int),
>
    decreases s.len() - j,
{
    if j < 0 || j >= s.len() || s[j] == ' ' || s[j] == '\t' || s[j] == '\n' || s[j] == '\r' || (
    s[j] == ')' && depth == 0) {
        if any {
            Some((acc, j))
        } else {
            None
        }
    } else if s[j] == '(' {
        plain_dest_from(s, j + 1, depth + 1, true, acc.push(s[j]))
    } else if s[j] == ')' {
        plain_dest_from(s, j + 1, (depth - 1) as nat, true, acc.push(s[j]))
    } else if s[j] == '\\' && j + 1 < s.len() && spec_ascii_punct(s[j + 1]) {
        plain_dest_from(s, j + 2, depth, true, acc.push(s[j + 1]))
    } else if spec_is_control(s[j]) {
        None
    } else {
        plain_dest_from(s, j + 1, depth, true, acc.push(s[j]))
    }
}

/// The tail of an inline link at `i` (a `(` there): destination, optional
/// title, `)`; the index after it.
pub open spec fn tail_at(s: Seq<char>, i: int) -> Option<(Seq<char>, Option<Seq<char>>, int)> {
    let j = il_run(s, i + 1, 3);
    if j < s.len() && s[j] == ')' {
        Some((Seq::empty(), None, j + 1))
    } else {
        let d = if j < s.len() && s[j] == '<' {
            angle_dest_from(s, j + 1, Seq::empty())
        } else {
            plain_dest_from(s, j, 0, false, Seq::empty())
        };
        match d {
            None => None,
            Some((dest, j2)) => {
                let k = il_run(s, j2, 3);
                if k < s.len() && s[k] == ')' {
                    Some((dest, None, k + 1))
                } else if k == j2 {
                    None
                } else {
                    match title_at(s, k) {
                        Some((title, after)) => {
                            let k2 = il_run(s, after, 3);
                            if k2 < s.len() && s[k2] == ')' {
                                Some((dest, Some(title), k2 + 1))
                            } else {
                                None
                            }
                        },
                        None => None,
                    }
                }
            },
        }
    }
}

/// Tail of an inline link starting at `(`: destination, optional title,
/// next index.
fn parse_link_tail(chars: &Vec<char>, i: usize) -> (r: Option<(Vec<char>, Option<Vec<char>>, usize)>)
    requires
        i < chars.len(),
    ensures
        match r {
            Some((d, t, next)) => tail_at(chars@, i as int) == Some((d@, opt_view(t), next as int))
                && i < next <= chars.len(),
            None => tail_at(chars@, i as int) is None,
        },
{
    let n = chars.len();
    let mut j = skip_link_ws(chars, i + 1);
    if j < n && chars[j] == ')' {
        return Some((Vec::new(), None, j + 1));
    }
    let ghost j1 = j;
    let mut dest: Vec<char> = Vec::new();
    if j < n && chars[j] == '<' {
        j += 1;
        while j < n && chars[j] != '>'
            invariant
                i < j <= n,
                n == chars@.len(),
                angle_dest_from(chars@, j as int, dest@) == angle_dest_from(chars@, j1 + 1, Seq::empty()),
            decreases n - j,
        {
            if chars[j] == '\n' || chars[j] == '\r' || chars[j] == '<' {
                return None;
            }
            if chars[j] == '\\' && j + 1 < n && is_ascii_punct(chars[j + 1]) {
                dest.push(chars[j + 1]);
                j += 2;
            } else {
                dest.push(chars[j]);
                j += 1;
            }
        }
        if j >= n || chars[j] != '>' {
            return None;
        }
        j += 1;
    } else {
        let mut depth: usize = 0;
        let mut any = false;
        while j < n
            invariant
                i < j <= n,
                j1 <= j,
                depth <= j - j1,
                n == chars@.len(),
                plain_dest_from(chars@, j as int, depth as nat, any, dest@) == plain_dest_from(
                    chars@,
                    j1 as int,
                    0,
                    false,
                    Seq::empty(),
                ),
            decreases n - j,
        {
            let c = chars[j];
            if c == ' ' || c == '\t' || c == '\n' || c == '\r' {
                break;
            }
            if c == '(' {
                if depth < usize::MAX {
                    depth += 1;
                }
                dest.push(c);
                any = true;
                j += 1;
            } else if c == ')' {
                if depth == 0 {
                    break;
                }
                depth -= 1;
                dest.push(c);
                any = true;
                j += 1;
            } else if c == '\\' && j + 1 < n && is_ascii_punct(chars[j + 1]) {
                dest.push(chars[j + 1]);
                any = true;
                j += 2;
            } else if is_control(c) {
                return None;
            } else {
                dest.push(c);
                any = true;
                j += 1;
            }
        }
        if !any {
            return None;
        }
    }
    let mut k = skip_link_ws(chars, j);
    if k < n && chars[k] == ')' {
        return Some((dest, None, k + 1));
    }
    if k == j {
        return None;
    }
    match parse_link_title(chars, k) {
        Some((title, after)) => {
            k = skip_link_ws(chars, after);
            if k < n && chars[k] == ')' {
                return Some((dest, Some(title), k + 1));
            }
            None
        },
        None => None,
    }
}

/// A link label's characters from `j` to `]`: escapes kept, no `[`, at
/// most 999 bytes (an escape caps the count instead of failing).
pub open spec fn label_from(s: Seq<char>, j: int, bytes: nat, acc: Seq<char>) -> Option<(Seq<char>, int)>
    decreases s.len() - j,
{
    if j < 0 || j >= s.len() {
        None
    } else if s[j] == ']' {
        Some((acc, j + 1))
    } else if s[j] == '\\' && j + 1 < s.len() {
        let b = bytes + 1 + crate::text::spec_utf8_len(s[j + 1]);
        label_from(
            s,
            j + 2,
            if b > 999 {
                1000
            } else {
                b
            },
            acc.push(s[j]).push(s[j + 1]),
        )
    } else if s[j] == '[' {
        None
    } else {
        let b = bytes + crate::text::spec_utf8_len(s[j]);
        if b > 999 {
            None
        } else {
            label_from(s, j + 1, b, acc.push(s[j]))
        }
    }
}

/// A `[label]` at `i`: the raw label and the index after it.
pub open spec fn bracket_label_at(s: Seq<char>, i: int) -> Option<(Seq<char>, int)> {
    if !(0 <= i < s.len()) || s[i] != '[' {
        None
    } else {
        label_from(s, i + 1, 0, Seq::empty())
    }
}

proof fn lemma_label_from(s: Seq<char>, j: int, bytes: nat, acc: Seq<char>)
    requires
        0 <= j,
    ensures
        label_from(s, j, bytes, acc) is Some ==> j < (label_from(s, j, bytes, acc)->0).1 <= s.len(),
    decreases s.len() - j,
{
    if 0 <= j < s.len() && s[j] != ']' {
        if s[j] == '\\' && j + 1 < s.len() {
            let b = bytes + 1 + crate::text::spec_utf8_len(s[j + 1]);
            lemma_label_from(s, j + 2, if b > 999 { 1000 } else { b }, acc.push(s[j]).push(s[j + 1]));
        } else if s[j] != '[' {
            let b = bytes + crate::text::spec_utf8_len(s[j]);
            if b <= 999 {
                lemma_label_from(s, j + 1, b, acc.push(s[j]));
            }
        }
    }
}

/// `[label]` at `i`: the raw label (escapes kept) and the next index.
fn parse_bracket_label(chars: &Vec<char>, i: usize) -> (r: Option<(Vec<char>, usize)>)
    requires
        i < chars.len(),
    ensures
        match r {
            Some((l, next)) => bracket_label_at(chars@, i as int) == Some((l@, next as int)) && i
                < next <= chars.len(),
            None => bracket_label_at(chars@, i as int) is None,
        },
{
    if chars[i] != '[' {
        return None;
    }
    let n = chars.len();
    let mut j = i + 1;
    let mut label: Vec<char> = Vec::new();
    let mut label_bytes: usize = 0;
    while j < n && chars[j] != ']'
        invariant
            i < j <= n,
            n == chars@.len(),
            label_bytes <= 1000,
            label_from(chars@, j as int, label_bytes as nat, label@) == bracket_label_at(
                chars@,
                i as int,
            ),
        decreases n - j,
    {
        if chars[j] == '\\' && j + 1 < n {
            label.push(chars[j]);
            label.push(chars[j + 1]);
            label_bytes = label_bytes + 1 + utf8_len(chars[j + 1]);
            if label_bytes > 999 {
                label_bytes = 1000;
            }
            j += 2;
            continue;
        }
        if chars[j] == '[' {
            return None;
        }
        label.push(chars[j]);
        label_bytes = label_bytes + utf8_len(chars[j]);
        if label_bytes > 999 {
            return None;
        }
        j += 1;
    }
    if j >= n || chars[j] != ']' {
        return None;
    }
    Some((label, j + 1))
}

// ---------------------------------------------------------------------------
// Tokens
// ---------------------------------------------------------------------------

/// Intermediate token. Emphasis markers left by the delimiter algorithm
/// are explicit open/close tokens; links and images carry their already
/// resolved contents.
pub enum Tok {
    Text(Vec<char>),
    Delim { ch: char, len: usize, can_open: bool, can_close: bool },
    OpenBracket { image: bool },
    Code(Vec<char>),
    RawHtml(Vec<char>),
    HardBreak,
    SoftBreak,
    Link { children: Vec<InlineElement>, url: Vec<char>, title: Option<Vec<char>> },
    Image { alt: Vec<char>, url: Vec<char>, title: Option<Vec<char>> },
    EmOpen,
    EmClose,
    StrongOpen,
    StrongClose,
}

/// An open `[` or `![` on the bracket stack.
struct Bracket {
    tok_idx: usize,
    image: bool,
    active: bool,
    /// Char index just after the opening `[` (raw label starts here).
    content_start: usize,
}

pub open spec fn tok_dlen(t: ITok) -> nat {
    match t {
        ITok::Delim { len, .. } => len,
        _ => 0,
    }
}

/// Total length of the delimiter runs still unmatched.
pub open spec fn dsum(s: Seq<ITok>) -> nat
    decreases s.len(),
{
    if s.len() == 0 {
        0
    } else {
        dsum(s.drop_last()) + tok_dlen(s.last())
    }
}

pub proof fn lemma_dsum_concat(a: Seq<ITok>, b: Seq<ITok>)
    ensures
        dsum(a + b) == dsum(a) + dsum(b),
    decreases b.len(),
{
    if b.len() == 0 {
        assert(a + b =~= a);
    } else {
        lemma_dsum_concat(a, b.drop_last());
        assert((a + b).drop_last() =~= a + b.drop_last());
    }
}

pub proof fn lemma_dsum5(a: Seq<ITok>, b: Seq<ITok>, c: Seq<ITok>, d: Seq<ITok>, e: Seq<ITok>)
    ensures
        dsum(a + b + c + d + e) == dsum(a) + dsum(b) + dsum(c) + dsum(d) + dsum(e),
{
    lemma_dsum_concat(a + b + c + d, e);
    lemma_dsum_concat(a + b + c, d);
    lemma_dsum_concat(a + b, c);
    lemma_dsum_concat(a, b);
}

pub proof fn lemma_dsum_one(t: ITok)
    ensures
        dsum(seq![t]) == tok_dlen(t),
{
    reveal_with_fuel(dsum, 2);
    assert(seq![t].drop_last() =~= Seq::<ITok>::empty());
}

/// Move pending text into a text token.
fn flush_text(toks: &mut Vec<Tok>, buf: &mut Vec<char>)
    ensures
        itoks_view(final(toks)@) == itoks_view(old(toks)@) + (if old(buf)@.len() > 0 {
            seq![ITok::Text(old(buf)@)]
        } else {
            Seq::empty()
        }),
        final(toks)@.len() >= old(toks)@.len(),
        final(toks)@.len() <= old(toks)@.len() + 1,
        forall|k: int| 0 <= k < old(toks)@.len() ==> final(toks)@[k] == old(toks)@[k],
        final(buf)@.len() == 0,
{
    let ghost before = itoks_view(toks@);
    if buf.len() > 0 {
        let mut t: Vec<char> = Vec::new();
        std::mem::swap(&mut t, buf);
        toks.push(Tok::Text(t));
        assert(itoks_view(toks@) =~= before + seq![ITok::Text(old(buf)@)]);
    } else {
        assert(itoks_view(toks@) =~= before + Seq::<ITok>::empty());
    }
}

/// Positions below `k` of the delimiter runs, in order.
pub open spec fn delims_upto(ts: Seq<ITok>, k: int) -> Seq<int>
    decreases k,
{
    if k <= 0 || k > ts.len() {
        Seq::empty()
    } else if ts[k - 1] is Delim {
        delims_upto(ts, k - 1).push(k - 1)
    } else {
        delims_upto(ts, k - 1)
    }
}

pub open spec fn delim_positions(ts: Seq<ITok>) -> Seq<int> {
    delims_upto(ts, ts.len() as int)
}

pub proof fn lemma_delims_upto(ts: Seq<ITok>, k: int)
    requires
        0 <= k <= ts.len(),
    ensures
        forall|j: int| 0 <= j < delims_upto(ts, k).len() ==> 0 <= #[trigger] delims_upto(ts, k)[j] < k,
        forall|j: int| 0 <= j < delims_upto(ts, k).len() ==> ts[#[trigger] delims_upto(ts, k)[j]] is Delim,
    decreases k,
{
    if k > 0 {
        lemma_delims_upto(ts, k - 1);
    }
}

/// Positions of the delimiter tokens, in order.
fn collect_delims(toks: &Vec<Tok>) -> (d: Vec<usize>)
    ensures
        d@.map_values(|x: usize| x as int) == delim_positions(itoks_view(toks@)),
        forall|k: int| 0 <= k < d@.len() ==> #[trigger] d@[k] < toks@.len(),
{
    let ghost ts = itoks_view(toks@);
    let mut d: Vec<usize> = Vec::new();
    let mut i: usize = 0;
    while i < toks.len()
        invariant
            i <= toks@.len(),
            ts == itoks_view(toks@),
            d@.map_values(|x: usize| x as int) == delims_upto(ts, i as int),
            forall|k: int| 0 <= k < d@.len() ==> #[trigger] d@[k] < i,
        decreases toks@.len() - i,
    {
        let ghost before = d@.map_values(|x: usize| x as int);
        match &toks[i] {
            Tok::Delim { .. } => {
                d.push(i);
                assert(d@.map_values(|x: usize| x as int) =~= before.push(i as int));
            },
            _ => {},
        }
        i += 1;
    }
    d
}

/// Emphasis markers opened in `ts[from..to]`.
pub open spec fn opens_in(ts: Seq<ITok>, from: int, to: int) -> nat
    decreases to - from,
{
    if to <= from {
        0
    } else {
        opens_in(ts, from, to - 1) + (if ts[to - 1] is EmOpen || ts[to - 1] is StrongOpen {
            1nat
        } else {
            0nat
        })
    }
}

/// Emphasis markers closed in `ts[from..to]`.
pub open spec fn closes_in(ts: Seq<ITok>, from: int, to: int) -> nat
    decreases to - from,
{
    if to <= from {
        0
    } else {
        closes_in(ts, from, to - 1) + (if ts[to - 1] is EmClose || ts[to - 1] is StrongClose {
            1nat
        } else {
            0nat
        })
    }
}

/// True when the emphasis markers in `toks[from..to]` open and close the
/// same number of times (the two positions sit at the same nesting depth).
fn same_depth(toks: &Vec<Tok>, from: usize, to: usize) -> (r: bool)
    requires
        from <= to <= toks.len(),
    ensures
        r == (opens_in(itoks_view(toks@), from as int, to as int) == closes_in(
            itoks_view(toks@),
            from as int,
            to as int,
        )),
{
    let ghost ts = itoks_view(toks@);
    let mut opens: usize = 0;
    let mut closes: usize = 0;
    let mut k = from;
    while k < to
        invariant
            from <= k <= to <= toks@.len(),
            ts == itoks_view(toks@),
            opens == opens_in(ts, from as int, k as int),
            closes == closes_in(ts, from as int, k as int),
            opens <= k - from,
            closes <= k - from,
        decreases to - k,
    {
        match &toks[k] {
            Tok::EmOpen | Tok::StrongOpen => {
                opens += 1;
            },
            Tok::EmClose | Tok::StrongClose => {
                closes += 1;
            },
            _ => {},
        }
        k += 1;
    }
    opens == closes
}

/// The opener run at `o_idx` may close with the closer run described:
/// same character, can open, both non-empty, not excluded by the rule of
/// three, at the same nesting depth.
pub open spec fn opener_ok(ts: Seq<ITok>, o_idx: int, c_idx: int, ch: char, c_len: nat, c_open: bool) -> bool {
    match ts[o_idx] {
        ITok::Delim { ch: o_ch, len: o_len, can_open: o_open, can_close: o_close } => {
            &&& o_ch == ch
            &&& o_open
            &&& o_len != 0
            &&& c_len != 0
            &&& !((c_open || o_close) && ((o_len % 3 + c_len % 3) % 3 == 0) && (o_len % 3 != 0
                || c_len % 3 != 0))
            &&& opens_in(ts, o_idx, c_idx) == closes_in(ts, o_idx, c_idx)
        },
        _ => false,
    }
}

/// The nearest delimiter entry below `oi` whose run can open for the
/// closer.
pub open spec fn opener_below(
    ts: Seq<ITok>,
    ds: Seq<int>,
    oi: int,
    c_idx: int,
    ch: char,
    c_len: nat,
    c_open: bool,
) -> Option<int>
    decreases oi,
{
    if oi <= 0 {
        None
    } else if opener_ok(ts, ds[oi - 1], c_idx, ch, c_len, c_open) {
        Some(oi - 1)
    } else {
        opener_below(ts, ds, oi - 1, c_idx, ch, c_len, c_open)
    }
}

/// The tokens after matching the opener run at `o_idx` with the closer run
/// at `c_idx` over `use_len` characters: the unused parts of both runs
/// stay, emphasis markers go around the tokens between.
pub open spec fn spliced(ts: Seq<ITok>, o_idx: int, c_idx: int, use_len: nat) -> Seq<ITok> {
    let o = ts[o_idx];
    let c = ts[c_idx];
    let mid = (if o->Delim_len > use_len {
        seq![ITok::Delim { ch: o->Delim_ch, len: (o->Delim_len - use_len) as nat, can_open: o->Delim_can_open, can_close: o->Delim_can_close }]
    } else {
        Seq::empty()
    }) + seq![
        if use_len == 2 {
            ITok::StrongOpen
        } else {
            ITok::EmOpen
        },
    ];
    let end = seq![
        if use_len == 2 {
            ITok::StrongClose
        } else {
            ITok::EmClose
        },
    ] + (if c->Delim_len > use_len {
        seq![ITok::Delim { ch: c->Delim_ch, len: (c->Delim_len - use_len) as nat, can_open: c->Delim_can_open, can_close: c->Delim_can_close }]
    } else {
        Seq::empty()
    });
    ts.take(o_idx) + mid + ts.subrange(o_idx + 1, c_idx) + end + ts.skip(c_idx + 1)
}

pub proof fn lemma_spliced_dsum(ts: Seq<ITok>, o_idx: int, c_idx: int, use_len: nat)
    requires
        0 <= o_idx < c_idx < ts.len(),
        ts[o_idx] is Delim,
        ts[c_idx] is Delim,
        1 <= use_len <= ts[o_idx]->Delim_len,
        use_len <= ts[c_idx]->Delim_len,
    ensures
        dsum(spliced(ts, o_idx, c_idx, use_len)) < dsum(ts),
{
    let o = ts[o_idx];
    let c = ts[c_idx];
    let mid = (if o->Delim_len > use_len {
        seq![ITok::Delim { ch: o->Delim_ch, len: (o->Delim_len - use_len) as nat, can_open: o->Delim_can_open, can_close: o->Delim_can_close }]
    } else {
        Seq::empty()
    }) + seq![
        if use_len == 2 {
            ITok::StrongOpen
        } else {
            ITok::EmOpen
        },
    ];
    let end = seq![
        if use_len == 2 {
            ITok::StrongClose
        } else {
            ITok::EmClose
        },
    ] + (if c->Delim_len > use_len {
        seq![ITok::Delim { ch: c->Delim_ch, len: (c->Delim_len - use_len) as nat, can_open: c->Delim_can_open, can_close: c->Delim_can_close }]
    } else {
        Seq::empty()
    });
    reveal_with_fuel(dsum, 3);
    assert(ts =~= ts.take(o_idx) + seq![o] + ts.subrange(o_idx + 1, c_idx) + seq![c] + ts.skip(c_idx + 1));
    lemma_dsum5(ts.take(o_idx), seq![o], ts.subrange(o_idx + 1, c_idx), seq![c], ts.skip(c_idx + 1));
    lemma_dsum_one(o);
    lemma_dsum_one(c);
    lemma_dsum5(ts.take(o_idx), mid, ts.subrange(o_idx + 1, c_idx), end, ts.skip(c_idx + 1));
    if o->Delim_len > use_len {
        assert(mid.drop_last() =~= seq![ITok::Delim { ch: o->Delim_ch, len: (o->Delim_len - use_len) as nat, can_open: o->Delim_can_open, can_close: o->Delim_can_close }]);
        lemma_dsum_one(ITok::Delim { ch: o->Delim_ch, len: (o->Delim_len - use_len) as nat, can_open: o->Delim_can_open, can_close: o->Delim_can_close });
    } else {
        assert(mid.drop_last() =~= Seq::<ITok>::empty());
    }
    if c->Delim_len > use_len {
        assert(end.drop_last() =~= seq![if use_len == 2 { ITok::StrongClose } else { ITok::EmClose }]);
        lemma_dsum_one(if use_len == 2 { ITok::StrongClose } else { ITok::EmClose });
    } else {
        assert(end =~= seq![if use_len == 2 { ITok::StrongClose } else { ITok::EmClose }]);
        lemma_dsum_one(if use_len == 2 { ITok::StrongClose } else { ITok::EmClose });
    }
}

/// Emphasis resolution from delimiter entry `ci` on: the first closer run
/// with a fitting opener below it is matched (two characters when both
/// runs have two, else one), and the scan restarts; a closer without an
/// opener is passed over.
pub open spec fn emph_from(ts: Seq<ITok>, ci: int) -> Seq<ITok>
    decreases dsum(ts), delim_positions(ts).len() - ci,
{
    let ds = delim_positions(ts);
    if ci < 0 || ci >= ds.len() {
        ts
    } else {
        let c_idx = ds[ci];
        proof {
            lemma_delims_upto(ts, ts.len() as int);
        }
        match ts[c_idx] {
            ITok::Delim { ch, len: c_len, can_open: c_open, can_close: c_close } => if !c_close {
                emph_from(ts, ci + 1)
            } else {
                match opener_below(ts, ds, ci, c_idx, ch, c_len, c_open) {
                    Some(oi) => {
                        let o_idx = ds[oi];
                        let o_len = ts[o_idx]->Delim_len;
                        let use_len: nat = if o_len >= 2 && c_len >= 2 {
                            2
                        } else {
                            1
                        };
                        if o_len == 0 || c_len == 0 || !(0 <= oi < ci) || !(ts[o_idx] is Delim) || !(o_idx < c_idx) {
                            emph_from(ts, ci + 1)
                        } else {
                            proof {
                                lemma_spliced_dsum(ts, o_idx, c_idx, use_len);
                            }
                            emph_from(spliced(ts, o_idx, c_idx, use_len), 0)
                        }
                    },
                    None => emph_from(ts, ci + 1),
                }
            },
            _ => emph_from(ts, ci + 1),
        }
    }
}

/// Emphasis resolution over a token list.
pub open spec fn spec_emph(ts: Seq<ITok>) -> Seq<ITok> {
    emph_from(ts, 0)
}

proof fn lemma_delims_increasing(ts: Seq<ITok>, k: int)
    requires
        0 <= k <= ts.len(),
    ensures
        forall|a: int, b: int|
            0 <= a < b < delims_upto(ts, k).len() ==> #[trigger] delims_upto(ts, k)[a] < #[trigger] delims_upto(ts, k)[b],
    decreases k,
{
    if k > 0 {
        lemma_delims_increasing(ts, k - 1);
        lemma_delims_upto(ts, k - 1);
    }
}

proof fn lemma_opener_below(
    ts: Seq<ITok>,
    ds: Seq<int>,
    oi: int,
    c_idx: int,
    ch: char,
    c_len: nat,
    c_open: bool,
)
    ensures
        opener_below(ts, ds, oi, c_idx, ch, c_len, c_open) matches Some(k) ==> 0 <= k < oi && opener_ok(
            ts,
            ds[k],
            c_idx,
            ch,
            c_len,
            c_open,
        ),
    decreases oi,
{
    if oi > 0 && !opener_ok(ts, ds[oi - 1], c_idx, ch, c_len, c_open) {
        lemma_opener_below(ts, ds, oi - 1, c_idx, ch, c_len, c_open);
    }
}

proof fn lemma_delims_vec(d: Seq<usize>, ts: Seq<ITok>)
    requires
        d.map_values(|x: usize| x as int) == delim_positions(ts),
    ensures
        forall|a: int, b: int| 0 <= a < b < d.len() ==> #[trigger] d[a] < #[trigger] d[b],
        forall|k: int| 0 <= k < d.len() ==> #[trigger] d[k] < ts.len(),
        forall|k: int| 0 <= k < d.len() ==> ts[#[trigger] d[k] as int] is Delim,
{
    lemma_delims_upto(ts, ts.len() as int);
    lemma_delims_increasing(ts, ts.len() as int);
    assert forall|a: int, b: int| 0 <= a < b < d.len() implies #[trigger] d[a] < #[trigger] d[b] by {
        assert(d.map_values(|x: usize| x as int)[a] == d[a] as int);
        assert(d.map_values(|x: usize| x as int)[b] == d[b] as int);
    }
    assert forall|k: int| 0 <= k < d.len() implies #[trigger] d[k] < ts.len() && ts[d[k] as int] is Delim by {
        assert(d.map_values(|x: usize| x as int)[k] == d[k] as int);
    }
}

/// CommonMark delimiter-stack emphasis resolution (in place). Matched runs
/// become `EmOpen`/`EmClose` (one character) or `StrongOpen`/`StrongClose`
/// (two characters) around their contents; unmatched remainders stay
/// delimiter runs.
#[verifier::spinoff_prover]
#[verifier::rlimit(60)]
fn process_emphasis(toks: &mut Vec<Tok>)
    ensures
        itoks_view(final(toks)@) == spec_emph(itoks_view(old(toks)@)),
{
    let mut delims = collect_delims(toks);
    let mut ci: usize = 0;
    proof {
        lemma_delims_vec(delims@, itoks_view(toks@));
    }
    while ci < delims.len()
        invariant
            delims@.map_values(|x: usize| x as int) == delim_positions(itoks_view(toks@)),
            forall|k: int| 0 <= k < delims@.len() ==> #[trigger] delims@[k] < toks@.len(),
            forall|a: int, b: int| 0 <= a < b < delims@.len() ==> #[trigger] delims@[a] < #[trigger] delims@[b],
            emph_from(itoks_view(toks@), ci as int) == spec_emph(itoks_view(old(toks)@)),
        decreases dsum(itoks_view(toks@)), delims@.len() - ci,
    {
        let ghost ts = itoks_view(toks@);
        let ghost ds = delim_positions(ts);
        assert(ds[ci as int] == delims@[ci as int] as int);
        let c_idx = delims[ci];
        let (ch, c_len, c_open, c_close) = match &toks[c_idx] {
            Tok::Delim { ch, len, can_open, can_close } => (*ch, *len, *can_open, *can_close),
            _ => {
                assert(emph_from(ts, ci as int) == emph_from(ts, ci + 1));
                ci += 1;
                continue;
            },
        };
        assert(ts[c_idx as int] == (ITok::Delim { ch, len: c_len as nat, can_open: c_open, can_close: c_close }));
        if !c_close {
            assert(emph_from(ts, ci as int) == emph_from(ts, ci + 1));
            ci += 1;
            continue;
        }
        let mut found: Option<usize> = None;
        let mut oi = ci;
        while oi > 0 && found.is_none()
            invariant
                oi <= ci < delims@.len(),
                ts == itoks_view(toks@),
                ds == delim_positions(ts),
                delims@.map_values(|x: usize| x as int) == ds,
                forall|k: int| 0 <= k < delims@.len() ==> #[trigger] delims@[k] < toks@.len(),
                c_idx == delims@[ci as int],
                ts[c_idx as int] == (ITok::Delim { ch, len: c_len as nat, can_open: c_open, can_close: c_close }),
                found is None ==> opener_below(ts, ds, oi as int, c_idx as int, ch, c_len as nat, c_open)
                    == opener_below(ts, ds, ci as int, c_idx as int, ch, c_len as nat, c_open),
                found matches Some(f) ==> f < ci && opener_below(ts, ds, ci as int, c_idx as int, ch, c_len as nat, c_open) == Some(f as int),
                forall|a: int, b: int| 0 <= a < b < delims@.len() ==> #[trigger] delims@[a] < #[trigger] delims@[b],
            decreases oi,
        {
            oi -= 1;
            let o_idx = delims[oi];
            assert(ds[oi as int] == o_idx as int);
            assert(o_idx < c_idx);
            let (o_ch, o_len, o_open, o_close) = match &toks[o_idx] {
                Tok::Delim { ch, len, can_open, can_close } => (*ch, *len, *can_open, *can_close),
                _ => {
                    continue;
                },
            };
            assert(ts[o_idx as int] == (ITok::Delim { ch: o_ch, len: o_len as nat, can_open: o_open, can_close: o_close }));
            if o_ch != ch || !o_open || o_len == 0 || c_len == 0 {
                continue;
            }
            if (c_open || o_close) && ((o_len % 3 + c_len % 3) % 3 == 0) && (o_len % 3 != 0 || c_len
                % 3 != 0) {
                continue;
            }
            if o_idx > c_idx || !same_depth(toks, o_idx, c_idx) {
                continue;
            }
            assert(opener_ok(ts, o_idx as int, c_idx as int, ch, c_len as nat, c_open));
            assert(opener_below(ts, ds, oi + 1, c_idx as int, ch, c_len as nat, c_open) == Some(oi as int));
            found = Some(oi);
        }
        match found {
            Some(oi_found) => {
                let o_idx = delims[oi_found];
                assert(ds[oi_found as int] == o_idx as int);
                assert(o_idx < c_idx);
                let (och, o_len, oo, oc) = match &toks[o_idx] {
                    Tok::Delim { ch, len, can_open, can_close } => (*ch, *len, *can_open, *can_close),
                    _ => (ch, 0, true, false),
                };
                assert(opener_ok(ts, o_idx as int, c_idx as int, ch, c_len as nat, c_open)) by {
                    let ob = opener_below(ts, ds, ci as int, c_idx as int, ch, c_len as nat, c_open);
                    lemma_opener_below(ts, ds, ci as int, c_idx as int, ch, c_len as nat, c_open);
                }
                assert(ts[o_idx as int] == (ITok::Delim { ch: och, len: o_len as nat, can_open: oo, can_close: oc }));
                if o_len == 0 || c_len == 0 {
                    ci += 1;
                    continue;
                }
                let use_len: usize = if o_len >= 2 && c_len >= 2 {
                    2
                } else {
                    1
                };
                proof {
                    lemma_spliced_dsum(ts, o_idx as int, c_idx as int, use_len as nat);
                }
                assert(ci < ds.len());
                assert(ds[ci as int] == c_idx as int);
                assert(opener_below(ts, ds, ci as int, c_idx as int, ch, c_len as nat, c_open) == Some(oi_found as int));
                assert(ds[oi_found as int] == o_idx as int);
                assert(oi_found < ci);
                assert(ts[o_idx as int]->Delim_len == o_len as nat);
                assert(emph_from(ts, ci as int) == emph_from(spliced(ts, o_idx as int, c_idx as int, use_len as nat), 0));
                splice_match(toks, o_idx, c_idx, use_len, och, o_len, oo, oc, ch, c_len, c_open, c_close);
                delims = collect_delims(toks);
                proof {
                    lemma_delims_vec(delims@, itoks_view(toks@));
                }
                ci = 0;
            },
            None => {
                assert(emph_from(ts, ci as int) == emph_from(ts, ci + 1));
                ci += 1;
            },
        }
    }
}

/// Replace the matched opener at `o_idx` and closer at `c_idx` by the
/// emphasis markers around the tokens between them, keeping the unused
/// parts of both runs.
#[verifier::spinoff_prover]
#[verifier::rlimit(60)]
fn splice_match(
    toks: &mut Vec<Tok>,
    o_idx: usize,
    c_idx: usize,
    use_len: usize,
    och: char,
    o_len: usize,
    oo: bool,
    oc: bool,
    cch: char,
    c_len: usize,
    co: bool,
    cc: bool,
)
    requires
        o_idx < c_idx < old(toks)@.len(),
        1 <= use_len <= 2,
        use_len <= o_len,
        use_len <= c_len,
        itoks_view(old(toks)@)[o_idx as int] == (ITok::Delim { ch: och, len: o_len as nat, can_open: oo, can_close: oc }),
        itoks_view(old(toks)@)[c_idx as int] == (ITok::Delim { ch: cch, len: c_len as nat, can_open: co, can_close: cc }),
    ensures
        itoks_view(final(toks)@) == spliced(itoks_view(old(toks)@), o_idx as int, c_idx as int, use_len as nat),
{
    let ghost old_v = itoks_view(toks@);
    let n = toks.len();
    let mut tail = toks.split_off(c_idx + 1);
    let _closer = toks.pop();
    let mut inner = toks.split_off(o_idx + 1);
    let _opener = toks.pop();
    let ghost prefix = itoks_view(toks@);
    let ghost inner_v = itoks_view(inner@);
    let ghost tail_v = itoks_view(tail@);
    let mut mid: Vec<Tok> = Vec::new();
    if o_len > use_len {
        mid.push(Tok::Delim { ch: och, len: o_len - use_len, can_open: oo, can_close: oc });
    }
    if use_len == 2 {
        mid.push(Tok::StrongOpen);
    } else {
        mid.push(Tok::EmOpen);
    }
    let mut end: Vec<Tok> = Vec::new();
    if use_len == 2 {
        end.push(Tok::StrongClose);
    } else {
        end.push(Tok::EmClose);
    }
    if c_len > use_len {
        end.push(Tok::Delim { ch: cch, len: c_len - use_len, can_open: co, can_close: cc });
    }
    let ghost mid_v = itoks_view(mid@);
    let ghost end_v = itoks_view(end@);
    toks.append(&mut mid);
    toks.append(&mut inner);
    toks.append(&mut end);
    toks.append(&mut tail);
    proof {
        assert(prefix =~= old_v.take(o_idx as int));
        assert(inner_v =~= old_v.subrange(o_idx + 1, c_idx as int));
        assert(tail_v =~= old_v.skip(c_idx + 1));
        assert(itoks_view(toks@) =~= prefix + mid_v + inner_v + end_v + tail_v);
        let o = old_v[o_idx as int];
        let c = old_v[c_idx as int];
        assert(mid_v =~= (if o->Delim_len > use_len {
            seq![ITok::Delim { ch: o->Delim_ch, len: (o->Delim_len - use_len) as nat, can_open: o->Delim_can_open, can_close: o->Delim_can_close }]
        } else {
            Seq::empty()
        }) + seq![
            if use_len == 2 {
                ITok::StrongOpen
            } else {
                ITok::EmOpen
            },
        ]);
        assert(end_v =~= seq![
            if use_len == 2 {
                ITok::StrongClose
            } else {
                ITok::EmClose
            },
        ] + (if c->Delim_len > use_len {
            seq![ITok::Delim { ch: c->Delim_ch, len: (c->Delim_len - use_len) as nat, can_open: c->Delim_can_open, can_close: c->Delim_can_close }]
        } else {
            Seq::empty()
        }));
    }
}

/// A bracket-stack entry as values.
pub ghost struct BrV {
    pub tok_idx: int,
    pub image: bool,
    pub active: bool,
    pub content_start: int,
}

spec fn brs_view(b: Seq<Bracket>) -> Seq<BrV> {
    b.map_values(
        |x: Bracket|
            BrV {
                tok_idx: x.tok_idx as int,
                image: x.image,
                active: x.active,
                content_start: x.content_start as int,
            },
    )
}

/// The tokenizer's state: tokens so far, the bracket stack, the scan
/// position, pending text and the character before the position.
pub ghost struct TState {
    pub toks: Seq<ITok>,
    pub brs: Seq<BrV>,
    pub i: int,
    pub buf: Seq<char>,
    pub prev: Option<char>,
}

/// Pending text moved into a text token.
pub open spec fn flush_toks(toks: Seq<ITok>, buf: Seq<char>) -> Seq<ITok> {
    if buf.len() > 0 {
        toks.push(ITok::Text(buf))
    } else {
        toks
    }
}

/// End of the run of the character `c` from `k`.
pub open spec fn ch_run(s: Seq<char>, k: int, c: char) -> int
    decreases s.len() - k,
{
    if k < 0 || k >= s.len() || s[k] != c {
        k
    } else {
        ch_run(s, k + 1, c)
    }
}

pub proof fn lemma_ch_run(s: Seq<char>, k: int, c: char)
    requires
        0 <= k <= s.len(),
    ensures
        k <= ch_run(s, k, c) <= s.len(),
        k < s.len() && s[k] == c ==> k < ch_run(s, k, c),
    decreases s.len() - k,
{
    if k < s.len() && s[k] == c {
        lemma_ch_run(s, k + 1, c);
    }
}

/// Punctuation for flanking: neither alphanumeric nor whitespace.
pub open spec fn spec_is_punct(c: char) -> bool {
    !(crate::text::spec_is_alphanumeric(c) || spec_is_ws(c))
}

/// Whether a delimiter run of `c` between `before` and `after` can open
/// and close emphasis (`_` is stricter inside words).
pub open spec fn flanking(c: char, before: Option<char>, after: Option<char>) -> (bool, bool) {
    let before_ws = match before {
        Some(b) => spec_is_ws(b),
        None => true,
    };
    let after_ws = match after {
        Some(a) => spec_is_ws(a),
        None => true,
    };
    let before_punct = match before {
        Some(b) => spec_is_punct(b),
        None => false,
    };
    let after_punct = match after {
        Some(a) => spec_is_punct(a),
        None => false,
    };
    let left = !after_ws && (!after_punct || before_ws || before_punct);
    let right = !before_ws && (!before_punct || after_ws || after_punct);
    if c == '*' {
        (left, right)
    } else {
        (left && (!right || before_punct), right && (!left || after_punct))
    }
}

/// The topmost active bracket below `k`.
pub open spec fn last_active(brs: Seq<BrV>, k: int) -> Option<int>
    decreases k,
{
    if k <= 0 || k > brs.len() {
        None
    } else if brs[k - 1].active {
        Some(k - 1)
    } else {
        last_active(brs, k - 1)
    }
}

/// The topmost active image bracket below `k`.
pub open spec fn last_active_image(brs: Seq<BrV>, k: int) -> Option<int>
    decreases k,
{
    if k <= 0 || k > brs.len() {
        None
    } else if brs[k - 1].active && brs[k - 1].image {
        Some(k - 1)
    } else {
        last_active_image(brs, k - 1)
    }
}

/// Link brackets below `until` deactivated.
pub open spec fn kill_links(brs: Seq<BrV>, until: int) -> Seq<BrV> {
    Seq::new(
        brs.len(),
        |q: int|
            if q < until && !brs[q].image {
                BrV { active: false, ..brs[q] }
            } else {
                brs[q]
            },
    )
}

/// The reference definition for a label, looked up by its normalized form.
pub open spec fn ref_target(refs: RV, label: Seq<char>) -> Option<(Seq<char>, Option<Seq<char>>)> {
    rv_lookup(refs, spec_normalize_label(label))
}

/// What a `]` at `i` closing a bracket whose label is `raw_label` links
/// to: an inline tail, a full or collapsed reference, or the label itself
/// as a shortcut reference; the index after the link.
pub open spec fn link_target(s: Seq<char>, refs: RV, i: int, raw_label: Seq<char>) -> Option<
    (Seq<char>, Option<Seq<char>>, int),
> {
    let after = i + 1;
    if after < s.len() && s[after] == '(' {
        match tail_at(s, after) {
            Some(t) => Some(t),
            None => match ref_target(refs, raw_label) {
                Some((d, t)) => Some((d, t, after)),
                None => None,
            },
        }
    } else if after < s.len() && s[after] == '[' {
        match bracket_label_at(s, after) {
            Some((label, next)) => match ref_target(
                refs,
                if label.len() == 0 {
                    raw_label
                } else {
                    label
                },
            ) {
                Some((d, t)) => Some((d, t, next)),
                None => None,
            },
            None => None,
        }
    } else {
        match ref_target(refs, raw_label) {
            Some((d, t)) => Some((d, t, after)),
            None => None,
        }
    }
}

pub open spec fn unescape_opt(t: Option<Seq<char>>) -> Option<Seq<char>> {
    match t {
        Some(v) => Some(crate::html_escape::spec_unescape_html(v)),
        None => None,
    }
}

/// The state after a `]` at `st.i`.
pub open spec fn close_bracket_step(s: Seq<char>, refs: RV, st: TState) -> TState {
    let i = st.i;
    let toks = st.toks;
    match last_active(st.brs, st.brs.len() as int) {
        None => TState { toks, buf: seq![']'], prev: Some(']'), i: i + 1, ..st },
        Some(bi) => {
            let b = st.brs[bi];
            match link_target(s, refs, i, s.subrange(b.content_start, i)) {
                Some((dest, title, next)) => {
                    let children = spec_emph(toks.skip(b.tok_idx + 1));
                    let elems = spec_elems(children, 0, children.len() as int);
                    let kept = toks.take(b.tok_idx);
                    let brs = st.brs.take(bi);
                    if b.image {
                        TState {
                            toks: kept.push(
                                ITok::Image {
                                    alt: els_plain(elems),
                                    url: crate::html_escape::spec_unescape_html(dest),
                                    title: unescape_opt(title),
                                },
                            ),
                            brs,
                            i: next,
                            buf: Seq::empty(),
                            prev: Some('x'),
                        }
                    } else {
                        let until = match last_active_image(brs, bi) {
                            Some(p) => p,
                            None => bi,
                        };
                        TState {
                            toks: kept.push(
                                ITok::Link {
                                    children: elems,
                                    url: crate::html_escape::spec_unescape_html(dest),
                                    title: unescape_opt(title),
                                },
                            ),
                            brs: kill_links(brs, until),
                            i: next,
                            buf: Seq::empty(),
                            prev: Some('x'),
                        }
                    }
                },
                None => TState {
                    toks: toks.push(ITok::Text(seq![']'])),
                    brs: st.brs.update(bi, BrV { active: false, ..b }),
                    i: i + 1,
                    buf: Seq::empty(),
                    prev: Some(']'),
                },
            }
        },
    }
}

/// One step of the tokenizer at `st.i` (within the input).
pub open spec fn tok_step(s: Seq<char>, refs: RV, st: TState) -> TState {
    let i = st.i;
    let n = s.len() as int;
    let c = s[i];
    let flushed = flush_toks(st.toks, st.buf);
    if c == '\n' || c == '\r' {
        let keep = trail_start(st.buf, 1, st.buf.len() as int);
        let trailing = st.buf.len() - keep;
        TState {
            toks: flush_toks(st.toks, st.buf.take(keep)).push(
                if trailing >= 2 {
                    ITok::HardBreak
                } else {
                    ITok::SoftBreak
                },
            ),
            i: if c == '\r' && i + 1 < n && s[i + 1] == '\n' {
                i + 2
            } else {
                i + 1
            },
            buf: Seq::empty(),
            prev: Some('\n'),
            ..st
        }
    } else if c == '`' {
        match code_at(s, i) {
            Some((content, next)) => TState {
                toks: flushed.push(ITok::Code(content)),
                i: next,
                buf: Seq::empty(),
                prev: Some('x'),
                ..st
            },
            None => {
                let e = il_run(s, i, 1);
                TState { buf: st.buf + s.subrange(i, e), prev: Some('`'), i: e, ..st }
            },
        }
    } else if c == '\\' && i + 1 < n && (s[i + 1] == '\n' || s[i + 1] == '\r') {
        TState {
            toks: flushed.push(ITok::HardBreak),
            i: if s[i + 1] == '\r' && i + 2 < n && s[i + 2] == '\n' {
                i + 3
            } else {
                i + 2
            },
            buf: Seq::empty(),
            prev: Some('\n'),
            ..st
        }
    } else if c == '\\' && i + 1 < n && spec_ascii_punct(s[i + 1]) {
        TState { buf: st.buf.push(s[i + 1]), prev: Some(s[i + 1]), i: i + 2, ..st }
    } else if c == '&' && entity_at(s, i) is Some {
        let (rep, next) = entity_at(s, i)->0;
        TState {
            buf: st.buf + rep,
            prev: if rep.len() > 0 {
                Some(rep.last())
            } else {
                None
            },
            i: next,
            ..st
        }
    } else if c == '<' && angle_at(s, i) is Some {
        let (t, next) = angle_at(s, i)->0;
        TState { toks: flushed.push(t), i: next, buf: Seq::empty(), prev: Some('x'), ..st }
    } else if c == '!' && i + 1 < n && s[i + 1] == '[' {
        TState {
            toks: flushed.push(ITok::OpenBracket { image: true }),
            brs: st.brs.push(
                BrV { tok_idx: flushed.len() as int, image: true, active: true, content_start: i + 2 },
            ),
            i: i + 2,
            buf: Seq::empty(),
            prev: Some('['),
        }
    } else if c == '[' {
        TState {
            toks: flushed.push(ITok::OpenBracket { image: false }),
            brs: st.brs.push(
                BrV { tok_idx: flushed.len() as int, image: false, active: true, content_start: i + 1 },
            ),
            i: i + 1,
            buf: Seq::empty(),
            prev: Some('['),
        }
    } else if c == ']' {
        close_bracket_step(s, refs, TState { toks: flushed, buf: Seq::empty(), ..st })
    } else if c == '*' || c == '_' {
        let e = ch_run(s, i, c);
        let after = if e < n {
            Some(s[e])
        } else {
            None
        };
        let (can_open, can_close) = flanking(c, st.prev, after);
        TState {
            toks: flushed.push(ITok::Delim { ch: c, len: (e - i) as nat, can_open, can_close }),
            i: e,
            buf: Seq::empty(),
            prev: Some(c),
            ..st
        }
    } else {
        TState { buf: st.buf.push(c), prev: Some(c), i: i + 1, ..st }
    }
}

/// The tokens of `s` from state `st` on: every step to the end, pending
/// text flushed, then emphasis resolved.
pub open spec fn tok_from(s: Seq<char>, refs: RV, st: TState) -> Seq<ITok>
    decreases s.len() - st.i,
{
    if st.i < 0 || st.i >= s.len() {
        spec_emph(flush_toks(st.toks, st.buf))
    } else {
        let st2 = tok_step(s, refs, st);
        if st.i < st2.i <= s.len() {
            tok_from(s, refs, st2)
        } else {
            spec_emph(flush_toks(st.toks, st.buf))
        }
    }
}

/// Inline tokens of `s`, links resolved with `refs`, emphasis resolved.
pub open spec fn spec_tokenize(s: Seq<char>, refs: RV) -> Seq<ITok> {
    tok_from(
        s,
        refs,
        TState { toks: Seq::empty(), brs: Seq::empty(), i: 0, buf: Seq::empty(), prev: None },
    )
}

/// The inline elements of a text, spaces and tabs at its very end
/// dropped, links resolved with `refs`.
pub open spec fn spec_parse_inline_text(s: Seq<char>, refs: RV) -> Seq<El> {
    spec_parse_inline(s.take(trail_start(s, 1, s.len() as int)), refs)
}

/// The inline elements of `s`, links resolved with `refs`.
pub open spec fn spec_parse_inline(s: Seq<char>, refs: RV) -> Seq<El> {
    let ts = spec_tokenize(s, refs);
    spec_elems(ts, 0, ts.len() as int)
}

/// Bracket-stack well-formedness: openers in token order, each pointing at
/// an existing token, with raw label starts not past the scan position.
spec fn brackets_wf(brackets: Seq<Bracket>, ntoks: int, pos: int) -> bool {
    &&& forall|k: int| 0 <= k < brackets.len() ==> #[trigger] brackets[k].tok_idx < ntoks
    &&& forall|k: int| 0 <= k < brackets.len() ==> #[trigger] brackets[k].content_start <= pos
    &&& forall|k: int, q: int|
        0 <= k < q < brackets.len() ==> brackets[k].tok_idx < brackets[q].tok_idx
}

/// Where a `]` at `i` closing a bracket whose label is `raw_label` links
/// to (see [`link_target`]).
fn find_link_target(chars: &Vec<char>, refs: &RefDefs, i: usize, raw_label: &Vec<char>) -> (r: Option<
    (Vec<char>, Option<Vec<char>>, usize),
>)
    requires
        i < chars@.len(),
    ensures
        match r {
            Some((d, t, next)) => link_target(chars@, refs_view(*refs), i as int, raw_label@) == Some(
                (d@, opt_view(t), next as int),
            ) && i < next <= chars@.len(),
            None => link_target(chars@, refs_view(*refs), i as int, raw_label@) is None,
        },
{
    proof {
        lemma_lookup_view(*refs);
    }
    let n = chars.len();
    let after = i + 1;
    if after < n && chars[after] == '(' {
        match parse_link_tail(chars, after) {
            Some((dest, title, next)) => {
                return Some((dest, title, next));
            },
            None => {},
        }
        let key = normalize_label_chars(raw_label);
        match refs.get(&key) {
            Some((d, t)) => Some((d, t, after)),
            None => None,
        }
    } else if after < n && chars[after] == '[' {
        match parse_bracket_label(chars, after) {
            Some((label, next)) => {
                let key = if label.len() == 0 {
                    normalize_label_chars(raw_label)
                } else {
                    normalize_label_chars(&label)
                };
                match refs.get(&key) {
                    Some((d, t)) => Some((d, t, next)),
                    None => None,
                }
            },
            None => None,
        }
    } else {
        let key = normalize_label_chars(raw_label);
        match refs.get(&key) {
            Some((d, t)) => Some((d, t, after)),
            None => None,
        }
    }
}

/// A `]` at `i`: a link or image from the topmost active bracket when a
/// target follows, else literal text. Returns the next position, the new
/// pending text and the character before it.
#[verifier::spinoff_prover]
#[verifier::rlimit(80)]
fn close_bracket(
    chars: &Vec<char>,
    refs: &RefDefs,
    toks: &mut Vec<Tok>,
    brackets: &mut Vec<Bracket>,
    i: usize,
) -> (r: (usize, Vec<char>, char))
    requires
        i < chars@.len(),
        brackets_wf(old(brackets)@, old(toks)@.len() as int, i as int),
    ensures
        ({
            let st2 = close_bracket_step(
                chars@,
                refs_view(*refs),
                TState {
                    toks: itoks_view(old(toks)@),
                    brs: brs_view(old(brackets)@),
                    i: i as int,
                    buf: Seq::empty(),
                    prev: None,
                },
            );
            &&& itoks_view(final(toks)@) == st2.toks
            &&& brs_view(final(brackets)@) == st2.brs
            &&& r.0 == st2.i
            &&& r.1@ == st2.buf
            &&& Some(r.2) == st2.prev
        }),
        i < r.0 <= chars@.len(),
        brackets_wf(final(brackets)@, final(toks)@.len() as int, r.0 as int),
{
    let n = chars.len();
    let ghost ts0 = itoks_view(toks@);
    let ghost bs0 = brs_view(brackets@);
    let mut opener_pos: Option<usize> = None;
    let mut bk = brackets.len();
    while bk > 0 && opener_pos.is_none()
        invariant
            bk <= brackets@.len(),
            brackets@ == old(brackets)@,
            bs0 == brs_view(brackets@),
            opener_pos is None ==> last_active(bs0, bk as int) == last_active(bs0, bs0.len() as int),
            opener_pos matches Some(p) ==> last_active(bs0, bs0.len() as int) == Some(p as int) && p < brackets@.len(),
        decreases bk,
    {
        bk -= 1;
        assert(bs0[bk as int].active == brackets@[bk as int].active);
        if brackets[bk].active {
            opener_pos = Some(bk);
        }
    }
    match opener_pos {
        None => {
            let mut t: Vec<char> = Vec::new();
            t.push(']');
            assert(t@ =~= seq![']']);
            (i + 1, t, ']')
        },
        Some(bi) => {
            assert(bs0[bi as int].tok_idx == brackets@[bi as int].tok_idx as int);
            assert(bs0[bi as int].content_start == brackets@[bi as int].content_start as int);
            assert(bs0[bi as int].image == brackets@[bi as int].image);
            let is_image = brackets[bi].image;
            let open_tok = brackets[bi].tok_idx;
            let cs = brackets[bi].content_start;
            let raw_label = slice(chars, cs, i);
            match find_link_target(chars, refs, i, &raw_label) {
                Some((dest0, title0, next)) => {
                    let dest = unescape_chars(&dest0);
                    let title = match title0 {
                        Some(t) => Some(unescape_chars(&t)),
                        None => None,
                    };
                    assert(opt_view(title) == unescape_opt(opt_view(title0)));
                    let tn = toks.len();
                    let mut children = toks.split_off(open_tok + 1);
                    toks.pop();
                    assert(itoks_view(children@) =~= ts0.skip(open_tok + 1));
                    assert(itoks_view(toks@) =~= ts0.take(open_tok as int));
                    process_emphasis(&mut children);
                    let cn = children.len();
                    let elems = toks_to_elements(&children, 0, cn);
                    brackets.truncate(bi);
                    assert(brs_view(brackets@) =~= bs0.take(bi as int));
                    let ghost kept = itoks_view(toks@);
                    if is_image {
                        let alt = elements_to_plain(&elems);
                        toks.push(Tok::Image { alt, url: dest, title });
                        assert(itoks_view(toks@) =~= kept.push(itoks_view(toks@).last()));
                    } else {
                        toks.push(Tok::Link { children: elems, url: dest, title });
                        assert(itoks_view(toks@) =~= kept.push(itoks_view(toks@).last()));
                        let ghost bt = brs_view(brackets@);
                        let mut kill_until = bi;
                        let mut found = false;
                        let mut p = bi;
                        while p > 0 && !found
                            invariant
                                p <= bi == brackets@.len(),
                                bt == brs_view(brackets@),
                                !found ==> last_active_image(bt, p as int) == last_active_image(bt, bi as int) && kill_until == bi,
                                found ==> last_active_image(bt, bi as int) == Some(kill_until as int),
                                kill_until <= bi,
                            decreases p,
                        {
                            p -= 1;
                            assert(bt[p as int].active == brackets@[p as int].active);
                            assert(bt[p as int].image == brackets@[p as int].image);
                            if brackets[p].active && brackets[p].image {
                                kill_until = p;
                                found = true;
                            }
                        }
                        let mut q: usize = 0;
                        while q < kill_until
                            invariant
                                kill_until <= bi == brackets@.len(),
                                q <= kill_until,
                                brackets_wf(brackets@, toks@.len() as int, i as int),
                                brs_view(brackets@) == Seq::new(
                                    bt.len(),
                                    |k: int|
                                        if k < q && !bt[k].image {
                                            BrV { active: false, ..bt[k] }
                                        } else {
                                            bt[k]
                                        },
                                ),
                                bt.len() == brackets@.len(),
                            decreases kill_until - q,
                        {
                            assert(brs_view(brackets@)[q as int] == bt[q as int]);
                            let ghost before_v = brs_view(brackets@);
                            if !brackets[q].image {
                                let b = Bracket {
                                    tok_idx: brackets[q].tok_idx,
                                    image: brackets[q].image,
                                    active: false,
                                    content_start: brackets[q].content_start,
                                };
                                brackets.set(q, b);
                            }
                            proof {
                                assert forall|k: int| 0 <= k < bt.len() implies #[trigger] brs_view(brackets@)[k] == (if k < q + 1 && !bt[k].image {
                                    BrV { active: false, ..bt[k] }
                                } else {
                                    bt[k]
                                }) by {
                                    if k != q {
                                        assert(brs_view(brackets@)[k] == before_v[k]);
                                    }
                                }
                            }
                            q += 1;
                            assert(brs_view(brackets@) =~= Seq::new(
                                bt.len(),
                                |k: int|
                                    if k < q && !bt[k].image {
                                        BrV { active: false, ..bt[k] }
                                    } else {
                                        bt[k]
                                    },
                            ));
                        }
                        assert(brs_view(brackets@) =~= kill_links(bt, kill_until as int));
                    }
                    (next, Vec::new(), 'x')
                },
                None => {
                    let b = Bracket {
                        tok_idx: brackets[bi].tok_idx,
                        image: brackets[bi].image,
                        active: false,
                        content_start: brackets[bi].content_start,
                    };
                    brackets.set(bi, b);
                    assert(brs_view(brackets@) =~= bs0.update(bi as int, BrV { active: false, ..bs0[bi as int] }));
                    let mut t: Vec<char> = Vec::new();
                    t.push(']');
                    toks.push(Tok::Text(t));
                    assert(itoks_view(toks@) =~= ts0.push(ITok::Text(seq![']'])));
                    (i + 1, Vec::new(), ']')
                },
            }
        },
    }
}

/// Tokenize inline Markdown, resolving links/images (with `refs`) and then
/// emphasis.
#[verifier::spinoff_prover]
#[verifier::rlimit(100)]
fn tokenize(chars: &Vec<char>, refs: &RefDefs) -> (r: Vec<Tok>)
    ensures
        itoks_view(r@) == spec_tokenize(chars@, refs_view(*refs)),
{
    let n = chars.len();
    let mut toks: Vec<Tok> = Vec::new();
    let mut brackets: Vec<Bracket> = Vec::new();
    let mut i: usize = 0;
    let mut text_buf: Vec<char> = Vec::new();
    let mut prev_char: Option<char> = None;
    assert(itoks_view(toks@) =~= Seq::<ITok>::empty());
    assert(brs_view(brackets@) =~= Seq::<BrV>::empty());
    while i < n
        invariant
            i <= n,
            n == chars@.len(),
            brackets_wf(brackets@, toks@.len() as int, i as int),
            tok_from(
                chars@,
                refs_view(*refs),
                TState {
                    toks: itoks_view(toks@),
                    brs: brs_view(brackets@),
                    i: i as int,
                    buf: text_buf@,
                    prev: prev_char,
                },
            ) == spec_tokenize(chars@, refs_view(*refs)),
        decreases n - i,
    {
        let ghost st0 = TState {
            toks: itoks_view(toks@),
            brs: brs_view(brackets@),
            i: i as int,
            buf: text_buf@,
            prev: prev_char,
        };
        let ghost flushed = flush_toks(st0.toks, st0.buf);
        let c = chars[i];
        if c == '\n' || c == '\r' {
            // Newline: soft or hard break.
            let tl = text_buf.len();
            let keep = back_class(&text_buf, 1, tl);
            let trailing = tl - keep;
            text_buf.truncate(keep);
            assert(text_buf@ =~= st0.buf.take(keep as int));
            flush_text(&mut toks, &mut text_buf);
            let ghost f1 = itoks_view(toks@);
            if trailing >= 2 {
                toks.push(Tok::HardBreak);
            } else {
                toks.push(Tok::SoftBreak);
            }
            assert(itoks_view(toks@) =~= f1.push(if trailing >= 2 {
                ITok::HardBreak
            } else {
                ITok::SoftBreak
            }));
            if c == '\r' && i + 1 < n && chars[i + 1] == '\n' {
                i += 1;
            }
            i += 1;
            prev_char = Some('\n');
        } else if c == '`' {
            // Code span.
            match scan_backtick_code(chars, i) {
                Some((content, next)) => {
                    flush_text(&mut toks, &mut text_buf);
                    assert(itoks_view(toks@) =~= flushed);
                    let ghost cv = content@;
                    toks.push(Tok::Code(content));
                    assert(itoks_view(toks@) =~= flushed.push(ITok::Code(cv)));
                    prev_char = Some('x');
                    i = next;
                },
                None => {
                    // No matching closer: the whole run is literal text.
                    proof {
                        lemma_il_run(chars@, i as int, 1);
                    }
                    let e = il_run_exec(chars, i, 1);
                    let mut k = i;
                    while k < e
                        invariant
                            i <= k <= e <= n,
                            n == chars@.len(),
                            forall|j: int| i <= j < e ==> chars@[j] == '`',
                            text_buf@ == st0.buf + chars@.subrange(i as int, k as int),
                        decreases e - k,
                    {
                        text_buf.push('`');
                        k += 1;
                        assert(text_buf@ =~= st0.buf + chars@.subrange(i as int, k as int));
                    }
                    prev_char = Some('`');
                    i = e;
                },
            }
        } else if c == '\\' && i + 1 < n && (chars[i + 1] == '\n' || chars[i + 1] == '\r') {
            flush_text(&mut toks, &mut text_buf);
            assert(itoks_view(toks@) =~= flushed);
            toks.push(Tok::HardBreak);
            assert(itoks_view(toks@) =~= flushed.push(ITok::HardBreak));
            let cr = chars[i + 1] == '\r';
            i += 2;
            if cr && i < n && chars[i] == '\n' {
                i += 1;
            }
            prev_char = Some('\n');
        } else if c == '\\' && i + 1 < n && is_ascii_punct(chars[i + 1]) {
            text_buf.push(chars[i + 1]);
            prev_char = Some(chars[i + 1]);
            i += 2;
        } else if c == '&' && scan_entity(chars, i).is_some() {
            match scan_entity(chars, i) {
                Some((rep, next)) => {
                    let rl = rep.len();
                    if rl > 0 {
                        prev_char = Some(rep[rl - 1]);
                    } else {
                        prev_char = None;
                    }
                    push_vec(&mut text_buf, &rep);
                    i = next;
                },
                None => {},
            }
        } else if c == '<' && scan_angle(chars, i).is_some() {
            match scan_angle(chars, i) {
                Some((tok, next)) => {
                    flush_text(&mut toks, &mut text_buf);
                    assert(itoks_view(toks@) =~= flushed);
                    prev_char = Some('x');
                    let ghost tv = itok_view(tok);
                    toks.push(tok);
                    assert(itoks_view(toks@) =~= flushed.push(tv));
                    i = next;
                },
                None => {},
            }
        } else if c == '!' && i + 1 < n && chars[i + 1] == '[' {
            // Image opener.
            flush_text(&mut toks, &mut text_buf);
            assert(itoks_view(toks@) =~= flushed);
            toks.push(Tok::OpenBracket { image: true });
            assert(itoks_view(toks@) =~= flushed.push(ITok::OpenBracket { image: true }));
            let ghost bv = brs_view(brackets@);
            brackets.push(
                Bracket { tok_idx: toks.len() - 1, image: true, active: true, content_start: i + 2 },
            );
            assert(brs_view(brackets@) =~= bv.push(BrV { tok_idx: flushed.len() as int, image: true, active: true, content_start: (i + 2) as int }));
            prev_char = Some('[');
            i += 2;
        } else if c == '[' {
            flush_text(&mut toks, &mut text_buf);
            assert(itoks_view(toks@) =~= flushed);
            toks.push(Tok::OpenBracket { image: false });
            assert(itoks_view(toks@) =~= flushed.push(ITok::OpenBracket { image: false }));
            let ghost bv = brs_view(brackets@);
            brackets.push(
                Bracket { tok_idx: toks.len() - 1, image: false, active: true, content_start: i + 1 },
            );
            assert(brs_view(brackets@) =~= bv.push(BrV { tok_idx: flushed.len() as int, image: false, active: true, content_start: (i + 1) as int }));
            prev_char = Some('[');
            i += 1;
        } else if c == ']' {
            // Bracket close: try to form a link or image.
            flush_text(&mut toks, &mut text_buf);
            assert(itoks_view(toks@) =~= flushed);
            let (next, buf, pc) = close_bracket(chars, refs, &mut toks, &mut brackets, i);
            text_buf = buf;
            prev_char = Some(pc);
            i = next;
        } else if c == '*' || c == '_' {
            // Emphasis runs.
            proof {
                lemma_ch_run(chars@, i as int, c);
            }
            let mut e = i;
            while e < n && chars[e] == c
                invariant
                    i <= e <= n,
                    n == chars@.len(),
                    ch_run(chars@, e as int, c) == ch_run(chars@, i as int, c),
                decreases n - e,
            {
                e += 1;
            }
            let len = e - i;
            let after: Option<char> = if e < n {
                Some(chars[e])
            } else {
                None
            };
            let before = prev_char;
            let before_ws = match before {
                Some(b) => is_ws(b),
                None => true,
            };
            let after_ws = match after {
                Some(a) => is_ws(a),
                None => true,
            };
            let before_punct = match before {
                Some(b) => is_punct(b),
                None => false,
            };
            let after_punct = match after {
                Some(a) => is_punct(a),
                None => false,
            };
            let left = !after_ws && (!after_punct || before_ws || before_punct);
            let right = !before_ws && (!before_punct || after_ws || after_punct);
            let (can_open, can_close) = if c == '*' {
                (left, right)
            } else {
                (left && (!right || before_punct), right && (!left || after_punct))
            };
            assert((can_open, can_close) == flanking(c, before, after));
            flush_text(&mut toks, &mut text_buf);
            assert(itoks_view(toks@) =~= flushed);
            toks.push(Tok::Delim { ch: c, len, can_open, can_close });
            assert(itoks_view(toks@) =~= flushed.push(ITok::Delim { ch: c, len: len as nat, can_open, can_close }));
            prev_char = Some(c);
            i = e;
        } else {
            text_buf.push(c);
            prev_char = Some(c);
            i += 1;
        }
        let ghost st1 = TState {
            toks: itoks_view(toks@),
            brs: brs_view(brackets@),
            i: i as int,
            buf: text_buf@,
            prev: prev_char,
        };
        assert(st1.i == tok_step(chars@, refs_view(*refs), st0).i);
        assert(st1.prev == tok_step(chars@, refs_view(*refs), st0).prev);
        assert(st1.buf =~= tok_step(chars@, refs_view(*refs), st0).buf);
        assert(st1.brs =~= tok_step(chars@, refs_view(*refs), st0).brs);
        assert(st1.toks =~= tok_step(chars@, refs_view(*refs), st0).toks);
        assert(st1 == tok_step(chars@, refs_view(*refs), st0));
    }
    let ghost fin = TState {
        toks: itoks_view(toks@),
        brs: brs_view(brackets@),
        i: i as int,
        buf: text_buf@,
        prev: prev_char,
    };
    assert(tok_from(chars@, refs_view(*refs), fin) == spec_emph(flush_toks(fin.toks, fin.buf)));
    flush_text(&mut toks, &mut text_buf);
    assert(itoks_view(toks@) =~= flush_toks(fin.toks, fin.buf));
    process_emphasis(&mut toks);
    toks
}

pub proof fn lemma_els_push(s: Seq<InlineElement>, x: InlineElement)
    ensures
        els_view(s.push(x)) == els_view(s).push(el_view(x)),
{
    assert(s.push(x).drop_last() =~= s);
    assert(s.push(x).last() == x);
}

/// Append pending text as a text element.
fn push_text_elem(out: &mut Vec<InlineElement>, buf: &mut Vec<char>)
    ensures
        els_view(final(out)@) == flush_els(els_view(old(out)@), old(buf)@),
        final(buf)@.len() == 0,
{
    if buf.len() > 0 {
        let ghost before = out@;
        let t = string_of(buf);
        proof {
            lemma_els_push(before, InlineElement::Text(t));
        }
        out.push(InlineElement::Text(t));
        buf.clear();
    }
}

/// Pending text, when there is any, appended as a text element.
pub open spec fn flush_els(out: Seq<El>, buf: Seq<char>) -> Seq<El> {
    if buf.len() > 0 {
        out.push(El::Text(buf))
    } else {
        out
    }
}

/// The close marker matching an open marker, scanning from `j` with
/// `depth` markers of the kind open: its index, or `to`.
pub open spec fn close_from(ts: Seq<ITok>, j: int, to: int, strong: bool, depth: nat) -> int
    decreases to - j,
{
    if j >= to || j < 0 || j >= ts.len() {
        to
    } else {
        let is_open = if strong {
            ts[j] is StrongOpen
        } else {
            ts[j] is EmOpen
        };
        let is_close = if strong {
            ts[j] is StrongClose
        } else {
            ts[j] is EmClose
        };
        if is_open {
            close_from(ts, j + 1, to, strong, depth + 1)
        } else if is_close {
            if depth <= 1 {
                j
            } else {
                close_from(ts, j + 1, to, strong, (depth - 1) as nat)
            }
        } else {
            close_from(ts, j + 1, to, strong, depth)
        }
    }
}

pub proof fn lemma_close_from(ts: Seq<ITok>, j: int, to: int, strong: bool, depth: nat)
    requires
        0 <= j,
        to <= ts.len(),
    ensures
        j <= to ==> j <= close_from(ts, j, to, strong, depth) <= to,
        j > to ==> close_from(ts, j, to, strong, depth) == to,
    decreases to - j,
{
    if j < to {
        lemma_close_from(ts, j + 1, to, strong, depth + 1);
        lemma_close_from(ts, j + 1, to, strong, depth);
        if depth > 1 {
            lemma_close_from(ts, j + 1, to, strong, (depth - 1) as nat);
        }
    }
}

/// Index of the close marker matching the open marker at `i` (counting
/// only markers of the same kind), or `to` when there is none.
fn find_close(toks: &Vec<Tok>, i: usize, to: usize, strong: bool) -> (j: usize)
    requires
        i < to <= toks.len(),
    ensures
        j == close_from(itoks_view(toks@), i + 1, to as int, strong, 1),
        i < j <= to,
{
    let ghost ts = itoks_view(toks@);
    proof {
        lemma_close_from(ts, i + 1, to as int, strong, 1);
    }
    let mut j = i + 1;
    let mut depth: usize = 1;
    while j < to
        invariant
            i < j <= to <= toks@.len(),
            ts == itoks_view(toks@),
            depth >= 1,
            depth <= j - i,
            close_from(ts, j as int, to as int, strong, depth as nat) == close_from(ts, i + 1, to as int, strong, 1),
        decreases to - j,
    {
        let (is_open, is_close) = match &toks[j] {
            Tok::EmOpen => (!strong, false),
            Tok::EmClose => (false, !strong),
            Tok::StrongOpen => (strong, false),
            Tok::StrongClose => (false, strong),
            _ => (false, false),
        };
        if is_open {
            depth += 1;
        } else if is_close {
            if depth == 1 {
                return j;
            }
            depth -= 1;
        }
        j += 1;
    }
    to
}

/// Elements for `ts[i..to]` appended to `out`, with `buf` the pending
/// text: adjacent text merges, emphasis markers become `Italic`/`Bold`
/// around their contents, an unmatched marker falls back to its literal
/// characters, a stray close marker is dropped.
pub open spec fn elems_from(ts: Seq<ITok>, i: int, to: int, out: Seq<El>, buf: Seq<char>) -> Seq<El>
    decreases to - i,
{
    if i < 0 || i >= to || to > ts.len() {
        flush_els(out, buf)
    } else {
        match ts[i] {
            ITok::Text(s) => elems_from(ts, i + 1, to, out, buf + s),
            ITok::Delim { ch, len, .. } => elems_from(
                ts,
                i + 1,
                to,
                out,
                buf + Seq::new(len, |_k: int| ch),
            ),
            ITok::OpenBracket { image } => elems_from(
                ts,
                i + 1,
                to,
                out,
                buf + (if image {
                    seq!['!', '[']
                } else {
                    seq!['[']
                }),
            ),
            ITok::EmOpen => {
                let j = close_from(ts, i + 1, to, false, 1);
                proof {
                    lemma_close_from(ts, i + 1, to, false, 1);
                }
                if j < to {
                    let inner = elems_from(ts, i + 1, j, Seq::empty(), Seq::empty());
                    elems_from(ts, j + 1, to, flush_els(out, buf).push(El::Italic(inner)), Seq::empty())
                } else {
                    elems_from(ts, i + 1, to, out, buf.push('*'))
                }
            },
            ITok::StrongOpen => {
                let j = close_from(ts, i + 1, to, true, 1);
                proof {
                    lemma_close_from(ts, i + 1, to, true, 1);
                }
                if j < to {
                    let inner = elems_from(ts, i + 1, j, Seq::empty(), Seq::empty());
                    elems_from(ts, j + 1, to, flush_els(out, buf).push(El::Bold(inner)), Seq::empty())
                } else {
                    elems_from(ts, i + 1, to, out, buf + seq!['*', '*'])
                }
            },
            ITok::EmClose => elems_from(ts, i + 1, to, out, buf),
            ITok::StrongClose => elems_from(ts, i + 1, to, out, buf),
            ITok::Code(s) => elems_from(ts, i + 1, to, flush_els(out, buf).push(El::Code(s)), Seq::empty()),
            ITok::RawHtml(s) => elems_from(
                ts,
                i + 1,
                to,
                flush_els(out, buf).push(El::RawHtml(s)),
                Seq::empty(),
            ),
            ITok::HardBreak => elems_from(ts, i + 1, to, flush_els(out, buf).push(El::HardBreak), Seq::empty()),
            ITok::SoftBreak => elems_from(ts, i + 1, to, flush_els(out, buf).push(El::SoftBreak), Seq::empty()),
            ITok::Link { children, url, title } => elems_from(
                ts,
                i + 1,
                to,
                flush_els(out, buf).push(El::Link { text: children, url, title }),
                Seq::empty(),
            ),
            ITok::Image { alt, url, title } => elems_from(
                ts,
                i + 1,
                to,
                flush_els(out, buf).push(El::Image { alt, url, title }),
                Seq::empty(),
            ),
        }
    }
}

/// Final inline elements for `ts[from..to]`.
pub open spec fn spec_elems(ts: Seq<ITok>, from: int, to: int) -> Seq<El> {
    elems_from(ts, from, to, Seq::empty(), Seq::empty())
}

/// Final inline elements for `toks[from..to]`: adjacent text merges,
/// emphasis markers become `Italic`/`Bold` around their contents, and an
/// unmatched marker falls back to its literal characters.
#[verifier::spinoff_prover]
#[verifier::rlimit(60)]
fn toks_to_elements(toks: &Vec<Tok>, from: usize, to: usize) -> (r: Vec<InlineElement>)
    requires
        from <= to <= toks.len(),
    ensures
        els_view(r@) == spec_elems(itoks_view(toks@), from as int, to as int),
    decreases to - from,
{
    let ghost ts = itoks_view(toks@);
    let mut out: Vec<InlineElement> = Vec::new();
    let mut buf: Vec<char> = Vec::new();
    let mut i = from;
    while i < to
        invariant
            from <= i <= to <= toks.len(),
            ts == itoks_view(toks@),
            elems_from(ts, i as int, to as int, els_view(out@), buf@) == spec_elems(ts, from as int, to as int),
        decreases to - i,
    {
        let ghost o = els_view(out@);
        let ghost b = buf@;
        match &toks[i] {
            Tok::Text(s) => {
                push_vec(&mut buf, s);
                assert(elems_from(ts, i as int, to as int, o, b) == elems_from(ts, i + 1, to as int, els_view(out@), buf@));
                i += 1;
            },
            Tok::Delim { ch, len, .. } => {
                let mut k: usize = 0;
                while k < *len
                    invariant
                        k <= *len,
                        buf@ == b + Seq::new(k as nat, |_q: int| *ch),
                    decreases *len - k,
                {
                    buf.push(*ch);
                    k += 1;
                    assert(buf@ =~= b + Seq::new(k as nat, |_q: int| *ch));
                }
                assert(elems_from(ts, i as int, to as int, o, b) == elems_from(ts, i + 1, to as int, els_view(out@), buf@));
                i += 1;
            },
            Tok::OpenBracket { image } => {
                if *image {
                    buf.push('!');
                }
                buf.push('[');
                assert(buf@ =~= b + (if *image {
                    seq!['!', '[']
                } else {
                    seq!['[']
                }));
                assert(elems_from(ts, i as int, to as int, o, b) == elems_from(ts, i + 1, to as int, els_view(out@), buf@));
                i += 1;
            },
            Tok::EmOpen | Tok::StrongOpen => {
                let strong = match &toks[i] {
                    Tok::StrongOpen => true,
                    _ => false,
                };
                assert(strong <==> ts[i as int] is StrongOpen);
                assert(!strong ==> ts[i as int] is EmOpen);
                let j = find_close(toks, i, to, strong);
                if j < to {
                    push_text_elem(&mut out, &mut buf);
                    let inner = toks_to_elements(toks, i + 1, j);
                    assert(els_view(out@) == flush_els(o, b));
                    let ghost before = out@;
                    let el = if strong {
                        InlineElement::Bold(inner)
                    } else {
                        InlineElement::Italic(inner)
                    };
                    proof {
                        lemma_els_push(before, el);
                    }
                    out.push(el);
                    assert(buf@ =~= Seq::<char>::empty());
                    assert(elems_from(ts, i as int, to as int, o, b) == elems_from(ts, j + 1, to as int, els_view(out@), buf@));
                    i = j + 1;
                } else {
                    buf.push('*');
                    if strong {
                        buf.push('*');
                    }
                    assert(strong ==> buf@ =~= b + seq!['*', '*']);
                    i += 1;
                }
            },
            Tok::EmClose | Tok::StrongClose => {
                // A close marker without its open marker in range: the
                // markers always come in pairs, so this is unreachable in
                // practice; it contributes nothing.
                assert(elems_from(ts, i as int, to as int, o, b) == elems_from(ts, i + 1, to as int, els_view(out@), buf@));
                i += 1;
            },
            Tok::Code(s) => {
                push_text_elem(&mut out, &mut buf);
                assert(buf@ =~= Seq::<char>::empty());
                let ghost before = out@;
                let el = InlineElement::Code(string_of(s));
                proof {
                    lemma_els_push(before, el);
                }
                out.push(el);
                assert(elems_from(ts, i as int, to as int, o, b) == elems_from(ts, i + 1, to as int, els_view(out@), buf@));
                i += 1;
            },
            Tok::RawHtml(s) => {
                push_text_elem(&mut out, &mut buf);
                assert(buf@ =~= Seq::<char>::empty());
                let ghost before = out@;
                let el = InlineElement::RawHtml(string_of(s));
                proof {
                    lemma_els_push(before, el);
                }
                out.push(el);
                assert(elems_from(ts, i as int, to as int, o, b) == elems_from(ts, i + 1, to as int, els_view(out@), buf@));
                i += 1;
            },
            Tok::HardBreak => {
                push_text_elem(&mut out, &mut buf);
                assert(buf@ =~= Seq::<char>::empty());
                let ghost before = out@;
                let el = InlineElement::HardBreak;
                proof {
                    lemma_els_push(before, el);
                }
                out.push(el);
                assert(elems_from(ts, i as int, to as int, o, b) == elems_from(ts, i + 1, to as int, els_view(out@), buf@));
                i += 1;
            },
            Tok::SoftBreak => {
                push_text_elem(&mut out, &mut buf);
                assert(buf@ =~= Seq::<char>::empty());
                let ghost before = out@;
                let el = InlineElement::SoftBreak;
                proof {
                    lemma_els_push(before, el);
                }
                out.push(el);
                assert(elems_from(ts, i as int, to as int, o, b) == elems_from(ts, i + 1, to as int, els_view(out@), buf@));
                i += 1;
            },
            Tok::Link { children, url, title } => {
                push_text_elem(&mut out, &mut buf);
                let t = match title {
                    Some(t) => Some(string_of(t)),
                    None => None,
                };
                assert(str_opt_view(t) == opt_view(*title));
                assert(buf@ =~= Seq::<char>::empty());
                let ghost before = out@;
                let el = InlineElement::Link { text: clone_elements(children), url: string_of(url), title: t };
                proof {
                    lemma_els_push(before, el);
                }
                out.push(el);
                assert(elems_from(ts, i as int, to as int, o, b) == elems_from(ts, i + 1, to as int, els_view(out@), buf@));
                i += 1;
            },
            Tok::Image { alt, url, title } => {
                push_text_elem(&mut out, &mut buf);
                let t = match title {
                    Some(t) => Some(string_of(t)),
                    None => None,
                };
                assert(str_opt_view(t) == opt_view(*title));
                assert(buf@ =~= Seq::<char>::empty());
                let ghost before = out@;
                let el = InlineElement::Image { alt: string_of(alt), url: string_of(url), title: t };
                proof {
                    lemma_els_push(before, el);
                }
                out.push(el);
                assert(elems_from(ts, i as int, to as int, o, b) == elems_from(ts, i + 1, to as int, els_view(out@), buf@));
                i += 1;
            },
        }
    }
    push_text_elem(&mut out, &mut buf);
    out
}

/// A copy of a string.
pub fn clone_string(s: &String) -> (r: String)
    ensures
        r@ == s@,
{
    let v = chars_of(s.as_str());
    string_of(&v)
}

fn clone_opt_string(s: &Option<String>) -> (r: Option<String>)
    ensures
        str_opt_view(r) == str_opt_view(*s),
{
    match s {
        Some(t) => Some(clone_string(t)),
        None => None,
    }
}

/// A copy of an element list.
fn clone_elements(elems: &Vec<InlineElement>) -> (r: Vec<InlineElement>)
    ensures
        els_view(r@) == els_view(elems@),
    decreases elems,
{
    let mut out: Vec<InlineElement> = Vec::new();
    let mut i: usize = 0;
    while i < elems.len()
        invariant
            i <= elems@.len(),
            els_view(out@) == els_view(elems@.take(i as int)),
        decreases elems@.len() - i,
    {
        proof {
            assert(decreases_to!(elems => elems@));
            assert(decreases_to!(elems@ => elems@[i as int]));
        }
        let e = match &elems[i] {
            InlineElement::Text(s) => InlineElement::Text(clone_string(s)),
            InlineElement::Bold(c) => InlineElement::Bold(clone_elements(c)),
            InlineElement::Italic(c) => InlineElement::Italic(clone_elements(c)),
            InlineElement::Code(s) => InlineElement::Code(clone_string(s)),
            InlineElement::Link { text, url, title } => InlineElement::Link {
                text: clone_elements(text),
                url: clone_string(url),
                title: clone_opt_string(title),
            },
            InlineElement::Image { alt, url, title } => InlineElement::Image {
                alt: clone_string(alt),
                url: clone_string(url),
                title: clone_opt_string(title),
            },
            InlineElement::RawHtml(s) => InlineElement::RawHtml(clone_string(s)),
            InlineElement::HardBreak => InlineElement::HardBreak,
            InlineElement::SoftBreak => InlineElement::SoftBreak,
        };
        assert(el_view(e) == el_view(elems@[i as int]));
        proof {
            lemma_els_push(out@, e);
            lemma_els_push(elems@.take(i as int), elems@[i as int]);
            assert(elems@.take(i + 1) =~= elems@.take(i as int).push(elems@[i as int]));
        }
        out.push(e);
        i += 1;
    }
    assert(elems@.take(elems@.len() as int) =~= elems@);
    out
}

/// The element holds a link or an image, at any depth of emphasis.
pub open spec fn el_has_link(e: El) -> bool
    decreases e,
{
    match e {
        El::Link { .. } => true,
        El::Image { .. } => true,
        El::Bold(c) => els_have_link(c),
        El::Italic(c) => els_have_link(c),
        _ => false,
    }
}

pub open spec fn els_have_link(s: Seq<El>) -> bool
    decreases s,
{
    if s.len() == 0 {
        false
    } else {
        els_have_link(s.drop_last()) || el_has_link(s.last())
    }
}

/// Plain text of an element (an image's alt text): a link around
/// another link keeps its own markup.
pub open spec fn el_plain(e: El) -> Seq<char>
    decreases e,
{
    match e {
        El::Text(t) => t,
        El::Bold(c) => els_plain(c),
        El::Italic(c) => els_plain(c),
        El::Code(c) => c,
        El::Link { text, url, .. } => if els_have_link(text) {
            seq!['['] + els_plain(text) + seq![']', '('] + url + seq![')']
        } else {
            els_plain(text)
        },
        El::Image { alt, .. } => alt,
        El::RawHtml(h) => h,
        El::HardBreak => seq!['\n'],
        El::SoftBreak => seq!['\n'],
    }
}

pub open spec fn els_plain(s: Seq<El>) -> Seq<char>
    decreases s,
{
    if s.len() == 0 {
        Seq::empty()
    } else {
        els_plain(s.drop_last()) + el_plain(s.last())
    }
}

pub proof fn lemma_el_seq_push(s: Seq<El>, x: El)
    ensures
        els_have_link(s.push(x)) == (els_have_link(s) || el_has_link(x)),
        els_plain(s.push(x)) == els_plain(s) + el_plain(x),
{
    assert(s.push(x).drop_last() =~= s);
    assert(s.push(x).last() == x);
}

/// True when the elements contain a nested link or image.
fn contains_link(elems: &Vec<InlineElement>) -> (r: bool)
    ensures
        r == els_have_link(els_view(elems@)),
    decreases elems,
{
    let mut i: usize = 0;
    while i < elems.len()
        invariant
            i <= elems@.len(),
            !els_have_link(els_view(elems@.take(i as int))),
        decreases elems@.len() - i,
    {
        proof {
            assert(decreases_to!(elems => elems@));
            assert(decreases_to!(elems@ => elems@[i as int]));
            lemma_els_push(elems@.take(i as int), elems@[i as int]);
            assert(elems@.take(i + 1) =~= elems@.take(i as int).push(elems@[i as int]));
            lemma_el_seq_push(els_view(elems@.take(i as int)), el_view(elems@[i as int]));
        }
        let hit = match &elems[i] {
            InlineElement::Link { .. } | InlineElement::Image { .. } => true,
            InlineElement::Bold(c) | InlineElement::Italic(c) => contains_link(c),
            _ => false,
        };
        assert(hit == el_has_link(el_view(elems@[i as int])));
        if hit {
            proof {
                lemma_els_have_link_prefix(elems@, i + 1);
            }
            return true;
        }
        i += 1;
    }
    assert(elems@.take(elems@.len() as int) =~= elems@);
    false
}

proof fn lemma_els_have_link_prefix(s: Seq<InlineElement>, k: int)
    requires
        0 <= k <= s.len(),
        els_have_link(els_view(s.take(k))),
    ensures
        els_have_link(els_view(s)),
    decreases s.len() - k,
{
    if k < s.len() {
        lemma_els_push(s.take(k), s[k]);
        assert(s.take(k + 1) =~= s.take(k).push(s[k]));
        lemma_el_seq_push(els_view(s.take(k)), el_view(s[k]));
        lemma_els_have_link_prefix(s, k + 1);
    } else {
        assert(s.take(k) =~= s);
    }
}

/// Plain text of elements (for image alt text).
fn elements_to_plain(elems: &Vec<InlineElement>) -> (r: Vec<char>)
    ensures
        r@ == els_plain(els_view(elems@)),
    decreases elems,
{
    let mut s: Vec<char> = Vec::new();
    let mut i: usize = 0;
    while i < elems.len()
        invariant
            i <= elems@.len(),
            s@ == els_plain(els_view(elems@.take(i as int))),
        decreases elems@.len() - i,
    {
        proof {
            assert(decreases_to!(elems => elems@));
            assert(decreases_to!(elems@ => elems@[i as int]));
            lemma_els_push(elems@.take(i as int), elems@[i as int]);
            assert(elems@.take(i + 1) =~= elems@.take(i as int).push(elems@[i as int]));
            lemma_el_seq_push(els_view(elems@.take(i as int)), el_view(elems@[i as int]));
        }
        let ghost before = s@;
        match &elems[i] {
            InlineElement::Text(t) => push_str(&mut s, t.as_str()),
            InlineElement::Bold(c) | InlineElement::Italic(c) => {
                let p = elements_to_plain(c);
                push_vec(&mut s, &p);
            },
            InlineElement::Code(c) => push_str(&mut s, c.as_str()),
            InlineElement::Link { text, url, .. } => {
                if contains_link(text) {
                    s.push('[');
                    let p = elements_to_plain(text);
                    push_vec(&mut s, &p);
                    s.push(']');
                    s.push('(');
                    push_str(&mut s, url.as_str());
                    s.push(')');
                } else {
                    let p = elements_to_plain(text);
                    push_vec(&mut s, &p);
                }
            },
            InlineElement::Image { alt, .. } => push_str(&mut s, alt.as_str()),
            InlineElement::RawHtml(h) => push_str(&mut s, h.as_str()),
            InlineElement::HardBreak | InlineElement::SoftBreak => s.push('\n'),
        }
        assert(s@ =~= before + el_plain(el_view(elems@[i as int])));
        i += 1;
    }
    assert(elems@.take(elems@.len() as int) =~= elems@);
    s
}

// ---------------------------------------------------------------------------
// Rendering
// ---------------------------------------------------------------------------

/// HTML of one element.
pub open spec fn elem_html(e: InlineElement) -> Seq<char>
    decreases e,
{
    match e {
        InlineElement::Text(s) => spec_escape_html(s@),
        InlineElement::Bold(c) => "<strong>"@ + list_html(c@) + "</strong>"@,
        InlineElement::Italic(c) => "<em>"@ + list_html(c@) + "</em>"@,
        InlineElement::Code(s) => "<code>"@ + spec_escape_html(s@) + "</code>"@,
        InlineElement::Link { text, url, title } => match title {
            Some(t) => if t@.len() > 0 {
                "<a href=\""@ + spec_escape_html(spec_clean_url(url@)) + "\" title=\""@
                    + spec_escape_html(t@) + "\">"@ + list_html(text@) + "</a>"@
            } else {
                "<a href=\""@ + spec_escape_html(spec_clean_url(url@)) + "\">"@ + list_html(text@)
                    + "</a>"@
            },
            None => "<a href=\""@ + spec_escape_html(spec_clean_url(url@)) + "\">"@ + list_html(
                text@,
            ) + "</a>"@,
        },
        InlineElement::Image { alt, url, title } => match title {
            Some(t) => if t@.len() > 0 {
                "<img src=\""@ + spec_escape_html(spec_clean_url(url@)) + "\" alt=\""@
                    + spec_escape_html(alt@) + "\" title=\""@ + spec_escape_html(t@) + "\" />"@
            } else {
                "<img src=\""@ + spec_escape_html(spec_clean_url(url@)) + "\" alt=\""@
                    + spec_escape_html(alt@) + "\" />"@
            },
            None => "<img src=\""@ + spec_escape_html(spec_clean_url(url@)) + "\" alt=\""@
                + spec_escape_html(alt@) + "\" />"@,
        },
        InlineElement::RawHtml(s) => s@,
        InlineElement::HardBreak => "<br />\n"@,
        InlineElement::SoftBreak => "\n"@,
    }
}

/// HTML of an element list: the elements' HTML concatenated.
pub open spec fn list_html(es: Seq<InlineElement>) -> Seq<char>
    decreases es,
{
    if es.len() == 0 {
        Seq::empty()
    } else {
        list_html(es.drop_last()) + elem_html(es.last())
    }
}


/// HTML of an element value.
pub open spec fn el_html(e: El) -> Seq<char>
    decreases e,
{
    match e {
        El::Text(s) => spec_escape_html(s),
        El::Bold(c) => "<strong>"@ + els_html(c) + "</strong>"@,
        El::Italic(c) => "<em>"@ + els_html(c) + "</em>"@,
        El::Code(s) => "<code>"@ + spec_escape_html(s) + "</code>"@,
        El::Link { text, url, title } => match title {
            Some(t) => if t.len() > 0 {
                "<a href=\""@ + spec_escape_html(spec_clean_url(url)) + "\" title=\""@
                    + spec_escape_html(t) + "\">"@ + els_html(text) + "</a>"@
            } else {
                "<a href=\""@ + spec_escape_html(spec_clean_url(url)) + "\">"@ + els_html(text)
                    + "</a>"@
            },
            None => "<a href=\""@ + spec_escape_html(spec_clean_url(url)) + "\">"@ + els_html(
                text,
            ) + "</a>"@,
        },
        El::Image { alt, url, title } => match title {
            Some(t) => if t.len() > 0 {
                "<img src=\""@ + spec_escape_html(spec_clean_url(url)) + "\" alt=\""@
                    + spec_escape_html(alt) + "\" title=\""@ + spec_escape_html(t) + "\" />"@
            } else {
                "<img src=\""@ + spec_escape_html(spec_clean_url(url)) + "\" alt=\""@
                    + spec_escape_html(alt) + "\" />"@
            },
            None => "<img src=\""@ + spec_escape_html(spec_clean_url(url)) + "\" alt=\""@
                + spec_escape_html(alt) + "\" />"@,
        },
        El::RawHtml(s) => s,
        El::HardBreak => "<br />\n"@,
        El::SoftBreak => "\n"@,
    }
}

/// HTML of element values, concatenated.
pub open spec fn els_html(es: Seq<El>) -> Seq<char>
    decreases es,
{
    if es.len() == 0 {
        Seq::empty()
    } else {
        els_html(es.drop_last()) + el_html(es.last())
    }
}

/// The HTML of inline text: its elements rendered.
pub open spec fn spec_inline_html(s: Seq<char>, refs: RV) -> Seq<char> {
    els_html(spec_parse_inline_text(s, refs))
}

pub proof fn lemma_elem_html_view(e: InlineElement)
    ensures
        elem_html(e) == el_html(el_view(e)),
    decreases e,
{
    match e {
        InlineElement::Bold(c) => lemma_list_html_view(c@),
        InlineElement::Italic(c) => lemma_list_html_view(c@),
        InlineElement::Link { text, url, title } => {
            lemma_list_html_view(text@);
        },
        _ => {},
    }
}

pub proof fn lemma_list_html_view(es: Seq<InlineElement>)
    ensures
        list_html(es) == els_html(els_view(es)),
    decreases es,
{
    if es.len() > 0 {
        lemma_list_html_view(es.drop_last());
        lemma_elem_html_view(es.last());
        lemma_els_push(es.drop_last(), es.last());
        assert(es.drop_last().push(es.last()) =~= es);
        let v = els_view(es);
        assert(v.drop_last() =~= els_view(es.drop_last()));
    }
}

/// Markdown of one element.
pub open spec fn elem_md(e: InlineElement) -> Seq<char>
    decreases e,
{
    match e {
        InlineElement::Text(s) => s@,
        InlineElement::Bold(c) => "**"@ + list_md(c@) + "**"@,
        InlineElement::Italic(c) => "*"@ + list_md(c@) + "*"@,
        InlineElement::Code(s) => "`"@ + s@ + "`"@,
        InlineElement::Link { text, url, title } => match title {
            Some(t) => if t@.len() > 0 {
                "["@ + list_md(text@) + "]("@ + url@ + " \""@ + t@ + "\")"@
            } else {
                "["@ + list_md(text@) + "]("@ + url@ + ")"@
            },
            None => "["@ + list_md(text@) + "]("@ + url@ + ")"@,
        },
        InlineElement::Image { alt, url, .. } => "!["@ + alt@ + "]("@ + url@ + ")"@,
        InlineElement::RawHtml(s) => s@,
        InlineElement::HardBreak => "  \n"@,
        InlineElement::SoftBreak => "\n"@,
    }
}

/// Markdown of an element list: the elements' Markdown concatenated.
pub open spec fn list_md(es: Seq<InlineElement>) -> Seq<char>
    decreases es,
{
    if es.len() == 0 {
        Seq::empty()
    } else {
        list_md(es.drop_last()) + elem_md(es.last())
    }
}

pub(crate) fn string_nonempty(s: &String) -> (r: bool)
    ensures
        r == (s@.len() > 0),
{
    let v = chars_of(s.as_str());
    v.len() > 0
}

pub(crate) fn push_string(out: &mut Vec<char>, s: &String)
    ensures
        final(out)@ == old(out)@ + s@,
{
    push_str(out, s.as_str());
}

pub(crate) fn push_escaped_string(out: &mut Vec<char>, s: &String)
    ensures
        final(out)@ == old(out)@ + spec_escape_html(s@),
{
    let v = chars_of(s.as_str());
    push_escaped(out, &v);
}

pub(crate) fn push_clean_href(out: &mut Vec<char>, url: &String)
    ensures
        final(out)@ == old(out)@ + spec_escape_html(spec_clean_url(url@)),
{
    let v = chars_of(url.as_str());
    let c = clean_url_chars(&v);
    push_escaped(out, &c);
}

/// Append the HTML of one element.
fn push_elem_html(out: &mut Vec<char>, e: &InlineElement)
    ensures
        final(out)@ == old(out)@ + elem_html(*e),
    decreases e,
{
    let ghost o = out@;
    match e {
        InlineElement::Text(s) => push_escaped_string(out, s),
        InlineElement::Bold(c) => {
            push_str(out, "<strong>");
            push_list_html(out, c);
            push_str(out, "</strong>");
        },
        InlineElement::Italic(c) => {
            push_str(out, "<em>");
            push_list_html(out, c);
            push_str(out, "</em>");
        },
        InlineElement::Code(s) => {
            push_str(out, "<code>");
            push_escaped_string(out, s);
            push_str(out, "</code>");
        },
        InlineElement::Link { text, url, title } => {
            let titled = match title {
                Some(t) => string_nonempty(t),
                None => false,
            };
            push_str(out, "<a href=\"");
            push_clean_href(out, url);
            if titled {
                match title {
                    Some(t) => {
                        push_str(out, "\" title=\"");
                        push_escaped_string(out, t);
                    },
                    None => {},
                }
            }
            push_str(out, "\">");
            push_list_html(out, text);
            push_str(out, "</a>");
        },
        InlineElement::Image { alt, url, title } => {
            let titled = match title {
                Some(t) => string_nonempty(t),
                None => false,
            };
            push_str(out, "<img src=\"");
            push_clean_href(out, url);
            push_str(out, "\" alt=\"");
            push_escaped_string(out, alt);
            if titled {
                match title {
                    Some(t) => {
                        push_str(out, "\" title=\"");
                        push_escaped_string(out, t);
                    },
                    None => {},
                }
            }
            push_str(out, "\" />");
        },
        InlineElement::RawHtml(s) => push_string(out, s),
        InlineElement::HardBreak => push_str(out, "<br />\n"),
        InlineElement::SoftBreak => push_str(out, "\n"),
    }
    proof {
        assert(out@ =~= o + elem_html(*e));
    }
}

/// Append the HTML of an element list.
fn push_list_html(out: &mut Vec<char>, es: &Vec<InlineElement>)
    ensures
        final(out)@ == old(out)@ + list_html(es@),
    decreases es,
{
    let mut i: usize = 0;
    while i < es.len()
        invariant
            i <= es@.len(),
            out@ == old(out)@ + list_html(es@.take(i as int)),
        decreases es@.len() - i,
    {
        proof {
            assert(decreases_to!(es => es@));
            assert(decreases_to!(es@ => es@[i as int]));
        }
        push_elem_html(out, &es[i]);
        proof {
            assert(es@.take(i + 1).drop_last() =~= es@.take(i as int));
            assert(es@.take(i + 1).last() == es@[i as int]);
        }
        i += 1;
    }
    assert(es@.take(es@.len() as int) =~= es@);
}

/// Append the Markdown of one element.
fn push_elem_md(out: &mut Vec<char>, e: &InlineElement)
    ensures
        final(out)@ == old(out)@ + elem_md(*e),
    decreases e,
{
    let ghost o = out@;
    match e {
        InlineElement::Text(s) => push_string(out, s),
        InlineElement::Bold(c) => {
            push_str(out, "**");
            push_list_md(out, c);
            push_str(out, "**");
        },
        InlineElement::Italic(c) => {
            push_str(out, "*");
            push_list_md(out, c);
            push_str(out, "*");
        },
        InlineElement::Code(s) => {
            push_str(out, "`");
            push_string(out, s);
            push_str(out, "`");
        },
        InlineElement::Link { text, url, title } => {
            let titled = match title {
                Some(t) => string_nonempty(t),
                None => false,
            };
            push_str(out, "[");
            push_list_md(out, text);
            push_str(out, "](");
            push_string(out, url);
            if titled {
                match title {
                    Some(t) => {
                        push_str(out, " \"");
                        push_string(out, t);
                        push_str(out, "\")");
                    },
                    None => {},
                }
            } else {
                push_str(out, ")");
            }
        },
        InlineElement::Image { alt, url, .. } => {
            push_str(out, "![");
            push_string(out, alt);
            push_str(out, "](");
            push_string(out, url);
            push_str(out, ")");
        },
        InlineElement::RawHtml(s) => push_string(out, s),
        InlineElement::HardBreak => push_str(out, "  \n"),
        InlineElement::SoftBreak => push_str(out, "\n"),
    }
    proof {
        assert(out@ =~= o + elem_md(*e));
    }
}

/// Append the Markdown of an element list.
fn push_list_md(out: &mut Vec<char>, es: &Vec<InlineElement>)
    ensures
        final(out)@ == old(out)@ + list_md(es@),
    decreases es,
{
    let mut i: usize = 0;
    while i < es.len()
        invariant
            i <= es@.len(),
            out@ == old(out)@ + list_md(es@.take(i as int)),
        decreases es@.len() - i,
    {
        proof {
            assert(decreases_to!(es => es@));
            assert(decreases_to!(es@ => es@[i as int]));
        }
        push_elem_md(out, &es[i]);
        proof {
            assert(es@.take(i + 1).drop_last() =~= es@.take(i as int));
            assert(es@.take(i + 1).last() == es@[i as int]);
        }
        i += 1;
    }
    assert(es@.take(es@.len() as int) =~= es@);
}

/// Render inline elements to HTML.
pub fn render_inline_html(elements: &[InlineElement]) -> (r: String)
    ensures
        r@ == list_html(elements@),
{
    let mut out: Vec<char> = Vec::new();
    let mut i: usize = 0;
    while i < elements.len()
        invariant
            i <= elements@.len(),
            out@ == list_html(elements@.take(i as int)),
        decreases elements@.len() - i,
    {
        push_elem_html(&mut out, &elements[i]);
        proof {
            assert(elements@.take(i + 1).drop_last() =~= elements@.take(i as int));
        }
        i += 1;
    }
    assert(elements@.take(elements@.len() as int) =~= elements@);
    string_of(&out)
}

/// Render inline elements to Markdown.
pub fn render_inline_md(elements: &[InlineElement]) -> (r: String)
    ensures
        r@ == list_md(elements@),
{
    let mut out: Vec<char> = Vec::new();
    let mut i: usize = 0;
    while i < elements.len()
        invariant
            i <= elements@.len(),
            out@ == list_md(elements@.take(i as int)),
        decreases elements@.len() - i,
    {
        push_elem_md(&mut out, &elements[i]);
        proof {
            assert(elements@.take(i + 1).drop_last() =~= elements@.take(i as int));
        }
        i += 1;
    }
    assert(elements@.take(elements@.len() as int) =~= elements@);
    string_of(&out)
}

/// HTML of inline elements held as characters.
pub fn inline_html_chars(elements: &Vec<InlineElement>) -> (r: Vec<char>)
    ensures
        r@ == list_html(elements@),
{
    let mut out: Vec<char> = Vec::new();
    push_list_html(&mut out, elements);
    assert(out@ =~= list_html(elements@));
    out
}

// ---------------------------------------------------------------------------
// Entry points
// ---------------------------------------------------------------------------

/// Parse inline Markdown held as characters, with reference definitions.
/// Trailing spaces/tabs at the very end are dropped (no hard break).
pub(crate) fn parse_inline_chars(input: &Vec<char>, refs: &RefDefs) -> (r: Vec<InlineElement>)
    ensures
        els_view(r@) == spec_parse_inline_text(input@, refs_view(*refs)),
{
    let end = back_class(input, 1, input.len());
    let trimmed = slice(input, 0, end);
    let toks = tokenize(&trimmed, refs);
    let n = toks.len();
    toks_to_elements(&toks, 0, n)
}

/// Parse inline Markdown elements from a string (no reference definitions).
/// Handles emphasis/strong, code spans, links, autolinks, entities, breaks.
pub fn parse_inline(input: &str) -> (r: Vec<InlineElement>)
    ensures
        els_view(r@) == spec_parse_inline_text(input@, Seq::empty()),
{
    let refs = RefDefs::new();
    assert(refs_view(refs) =~= Seq::empty());
    parse_inline_with_refs(input, &refs)
}

/// Parse inline Markdown with link reference definitions available.
pub fn parse_inline_with_refs(input: &str, refs: &RefDefs) -> (r: Vec<InlineElement>)
    ensures
        els_view(r@) == spec_parse_inline_text(input@, refs_view(*refs)),
{
    let v = chars_of(input);
    parse_inline_chars(&v, refs)
}

} // verus!
