#![verifier::loop_isolation(false)]

//! Opt-in HTML sanitization: a minimal denylist post-processor.
//!
//! The default Markdown-to-HTML path passes raw HTML through verbatim per
//! CommonMark, so its output must be treated as unsanitized input. This
//! module is a cheap first layer for consumers that render the HTML in an
//! active context. All checks are case-insensitive on tag/attribute names:
//!
//! - Strips `script`, `style`, `iframe`, `object`, `embed`, `form`, `base`,
//!   `link` and `meta` elements. Non-void elements are removed with their
//!   content up to the matching close tag (nesting-aware); void elements
//!   (`base`, `link`, `meta`, `embed`) drop the tag itself.
//! - Drops `on*` event-handler attributes and `style` attributes.
//! - Blocks `javascript:`, `vbscript:` and `data:text/html` URL schemes in
//!   `href`/`src`. Values are entity-decoded first, then ASCII
//!   control/whitespace is stripped and the remainder lowercased before the
//!   prefix check. A blocked URL drops the attribute; the element is kept.
//! - Drops HTML comments, processing instructions and declarations.
//!
//! Everything else passes through unchanged. This is a deliberately small
//! denylist, not a full HTML policy engine.

use vstd::prelude::*;
use crate::html_escape::{push_escaped, spec_escape_html, spec_unescape_html, unescape_chars};
use crate::text::{
    chars_of, eq_str, find_from, lower_ascii_vec, matches_at, push_vec, slice, spec_ascii_alnum,
    spec_lower_ascii_seq, spec_trim, spec_trim_end, spec_trim_start, starts_with_at, string_of,
    trim, trim_end_class, trim_start_class,
};

verus! {

broadcast use vstd::string::group_string_axioms;

// ---------------------------------------------------------------------------
// Policy
// ---------------------------------------------------------------------------

/// Elements removed by the sanitizer (lowercase).
pub open spec fn spec_stripped(name: Seq<char>) -> bool {
    name == "script"@ || name == "style"@ || name == "iframe"@ || name == "object"@ || name
        == "embed"@ || name == "form"@ || name == "base"@ || name == "link"@ || name == "meta"@
}

/// Stripped elements that are void in HTML5: only the tag is dropped.
pub open spec fn spec_void_stripped(name: Seq<char>) -> bool {
    name == "embed"@ || name == "base"@ || name == "link"@ || name == "meta"@
}

fn is_stripped(name: &Vec<char>) -> (r: bool)
    ensures
        r == spec_stripped(name@),
{
    eq_str(name, "script") || eq_str(name, "style") || eq_str(name, "iframe") || eq_str(
        name,
        "object",
    ) || eq_str(name, "embed") || eq_str(name, "form") || eq_str(name, "base") || eq_str(
        name,
        "link",
    ) || eq_str(name, "meta")
}

fn is_void_stripped(name: &Vec<char>) -> (r: bool)
    ensures
        r == spec_void_stripped(name@),
{
    eq_str(name, "embed") || eq_str(name, "base") || eq_str(name, "link") || eq_str(name, "meta")
}

/// The URL with every character up to and including the space removed
/// and ASCII letters lowercased, from `i` on.
pub open spec fn compact_from(s: Seq<char>, i: int) -> Seq<char>
    decreases s.len() - i,
{
    if i < 0 || i >= s.len() {
        Seq::empty()
    } else if s[i] <= ' ' {
        compact_from(s, i + 1)
    } else {
        seq![crate::text::spec_lower_ascii(s[i])] + compact_from(s, i + 1)
    }
}

/// A URL value uses a blocked scheme (after entity decoding, dropping
/// controls/whitespace and lowercasing).
pub open spec fn spec_blocked_url(value: Seq<char>) -> bool {
    let c = compact_from(spec_unescape_html(value), 0);
    matches_at(c, 0, "javascript:"@) || matches_at(c, 0, "vbscript:"@) || matches_at(
        c,
        0,
        "data:text/html"@,
    )
}

/// True when a URL value uses a blocked scheme.
fn is_blocked_url(value: &Vec<char>) -> (r: bool)
    ensures
        r == spec_blocked_url(value@),
{
    let decoded = unescape_chars(value);
    let mut compact: Vec<char> = Vec::new();
    let mut i: usize = 0;
    while i < decoded.len()
        invariant
            i <= decoded@.len(),
            compact@ + compact_from(decoded@, i as int) == compact_from(decoded@, 0),
        decreases decoded@.len() - i,
    {
        let ghost before = compact@;
        let c = decoded[i];
        if c <= ' ' {
        } else {
            compact.push(crate::text::lower_ascii(c));
        }
        assert(before + compact_from(decoded@, i as int) =~= compact@ + compact_from(
            decoded@,
            i + 1,
        ));
        i += 1;
    }
    assert(compact@ =~= compact_from(decoded@, 0));
    starts_with_at(&compact, 0, "javascript:") || starts_with_at(&compact, 0, "vbscript:")
        || starts_with_at(&compact, 0, "data:text/html")
}

/// A parsed attribute: name as written and optional raw value.
pub struct RawAttr {
    pub name: Vec<char>,
    pub value: Option<Vec<char>>,
}

/// `="value"` with the value entity-decoded and re-escaped.
pub open spec fn quoted_value(v: Seq<char>) -> Seq<char> {
    seq!['=', '"'] + spec_escape_html(spec_unescape_html(v)) + seq!['"']
}

/// What one attribute becomes: dropped (`style`, `on*`, a blocked
/// `href`/`src`), or ` name` / ` name="value"` with the name lowercased.
pub open spec fn spec_attr_out(name: Seq<char>, value: Option<Seq<char>>) -> Seq<char> {
    let lower = spec_lower_ascii_seq(name);
    if lower == "style"@ || matches_at(lower, 0, "on"@) {
        Seq::empty()
    } else if (lower == "href"@ || lower == "src"@) && value is Some && spec_blocked_url(
        value->0,
    ) {
        Seq::empty()
    } else {
        match value {
            Some(v) => seq![' '] + lower + quoted_value(v),
            None => seq![' '] + lower,
        }
    }
}

/// An attribute as parsed: its name as written and its raw value.
pub open spec fn raw_view(a: RawAttr) -> (Seq<char>, Option<Seq<char>>) {
    (
        a.name@,
        match a.value {
            Some(v) => Some(v@),
            None => None,
        },
    )
}

/// Attributes rebuilt, in order.
pub open spec fn spec_attrs_out(attrs: Seq<(Seq<char>, Option<Seq<char>>)>) -> Seq<char>
    decreases attrs.len(),
{
    if attrs.len() == 0 {
        Seq::empty()
    } else {
        spec_attrs_out(attrs.drop_last()) + spec_attr_out(attrs.last().0, attrs.last().1)
    }
}

/// Append one rebuilt attribute.
fn push_attr(out: &mut Vec<char>, a: &RawAttr)
    ensures
        final(out)@ == old(out)@ + spec_attr_out(
            a.name@,
            match a.value {
                Some(v) => Some(v@),
                None => None,
            },
        ),
{
    proof {
        reveal_strlit("style");
        reveal_strlit("on");
        reveal_strlit("href");
        reveal_strlit("src");
    }
    let lower = lower_ascii_vec(&a.name);
    if eq_str(&lower, "style") || starts_with_at(&lower, 0, "on") {
        assert(old(out)@ + Seq::<char>::empty() =~= out@);
        return;
    }
    let url_attr = eq_str(&lower, "href") || eq_str(&lower, "src");
    match &a.value {
        Some(v) => {
            if url_attr && is_blocked_url(v) {
                assert(old(out)@ + Seq::<char>::empty() =~= out@);
                return;
            }
            out.push(' ');
            push_vec(out, &lower);
            out.push('=');
            out.push('"');
            let d = unescape_chars(v);
            push_escaped(out, &d);
            out.push('"');
            assert(out@ =~= old(out)@ + (seq![' '] + lower@ + quoted_value(v@)));
        },
        None => {
            out.push(' ');
            push_vec(out, &lower);
            assert(out@ =~= old(out)@ + (seq![' '] + lower@));
        },
    }
}

/// Rebuild an attribute list: ` name="value"` per kept attribute.
fn sanitize_attr_list(attrs: &Vec<RawAttr>) -> (r: Vec<char>)
    ensures
        r@ == spec_attrs_out(attrs@.map_values(|a: RawAttr| raw_view(a))),
{
    let ghost views = attrs@.map_values(|a: RawAttr| raw_view(a));
    let mut out: Vec<char> = Vec::new();
    let mut k: usize = 0;
    while k < attrs.len()
        invariant
            k <= attrs@.len(),
            views == attrs@.map_values(|a: RawAttr| raw_view(a)),
            out@ == spec_attrs_out(views.take(k as int)),
        decreases attrs@.len() - k,
    {
        push_attr(&mut out, &attrs[k]);
        assert(views.take(k + 1).drop_last() =~= views.take(k as int));
        k += 1;
    }
    assert(views.take(attrs@.len() as int) =~= views);
    out
}

// ---------------------------------------------------------------------------
// Scanning
// ---------------------------------------------------------------------------

/// ASCII whitespace (`\t`, `\n`, form feed, `\r`, space).
pub open spec fn spec_ascii_ws(c: char) -> bool {
    c == ' ' || c == '\t' || c == '\n' || c == '\r' || c == '\u{0C}'
}

/// Character classes the scanner skips over: 0 whitespace and `/`
/// between attributes, 1 attribute-name characters, 2 whitespace, 3
/// anything but the quote `q`, 4 unquoted-value characters, 5 tag-name
/// characters, 6 anything but `<`.
pub open spec fn scan_class(cls: u8, q: char, c: char) -> bool {
    if cls == 0 {
        spec_ascii_ws(c) || c == '/'
    } else if cls == 1 {
        !spec_ascii_ws(c) && c != '=' && c != '/' && c != '>' && c != '"' && c != '\''
    } else if cls == 2 {
        spec_ascii_ws(c)
    } else if cls == 3 {
        c != q
    } else if cls == 4 {
        !spec_ascii_ws(c) && c != '>'
    } else if cls == 5 {
        spec_ascii_alnum(c) || c == '-'
    } else {
        c != '<'
    }
}

/// End of the run of class `cls` starting at `k`.
pub open spec fn scan_end(s: Seq<char>, k: int, cls: u8, q: char) -> int
    decreases s.len() - k,
{
    if k < 0 || k >= s.len() || !scan_class(cls, q, s[k]) {
        k
    } else {
        scan_end(s, k + 1, cls, q)
    }
}

pub proof fn lemma_scan_end(s: Seq<char>, k: int, cls: u8, q: char)
    requires
        0 <= k <= s.len(),
    ensures
        k <= scan_end(s, k, cls, q) <= s.len(),
    decreases s.len() - k,
{
    if k < s.len() && scan_class(cls, q, s[k]) {
        lemma_scan_end(s, k + 1, cls, q);
    }
}

fn in_scan_class(cls: u8, q: char, c: char) -> (r: bool)
    ensures
        r == scan_class(cls, q, c),
{
    let ws = c == ' ' || c == '\t' || c == '\n' || c == '\r' || c == '\u{0C}';
    if cls == 0 {
        ws || c == '/'
    } else if cls == 1 {
        !ws && c != '=' && c != '/' && c != '>' && c != '"' && c != '\''
    } else if cls == 2 {
        ws
    } else if cls == 3 {
        c != q
    } else if cls == 4 {
        !ws && c != '>'
    } else if cls == 5 {
        crate::text::is_ascii_alnum(c) || c == '-'
    } else {
        c != '<'
    }
}

fn scan(s: &Vec<char>, k: usize, cls: u8, q: char) -> (r: usize)
    requires
        k <= s@.len(),
    ensures
        r == scan_end(s@, k as int, cls, q),
        k <= r <= s@.len(),
        k < s@.len() && scan_class(cls, q, s@[k as int]) ==> k < r,
{
    let mut j = k;
    while j < s.len() && in_scan_class(cls, q, s[j])
        invariant
            k <= j <= s@.len(),
            scan_end(s@, j as int, cls, q) == scan_end(s@, k as int, cls, q),
        decreases s@.len() - j,
    {
        j += 1;
    }
    j
}

/// First occurrence of `p` at or after `k`.
pub open spec fn spec_find(s: Seq<char>, k: int, p: Seq<char>) -> Option<int>
    decreases s.len() - k,
{
    if k < 0 || k >= s.len() || k + p.len() > s.len() {
        None
    } else if matches_at(s, k, p) {
        Some(k)
    } else {
        spec_find(s, k + 1, p)
    }
}

proof fn lemma_find_none(s: Seq<char>, k: int, p: Seq<char>)
    requires
        0 <= k,
        forall|q: int| k <= q ==> !#[trigger] matches_at(s, q, p),
    ensures
        spec_find(s, k, p) is None,
    decreases s.len() - k,
{
    if k < s.len() && k + p.len() <= s.len() {
        lemma_find_none(s, k + 1, p);
    }
}

proof fn lemma_find_some(s: Seq<char>, k: int, p: Seq<char>, at: int)
    requires
        p.len() > 0,
        0 <= k <= at,
        matches_at(s, at, p),
        forall|q: int| k <= q < at ==> !#[trigger] matches_at(s, q, p),
    ensures
        spec_find(s, k, p) == Some(at),
    decreases at - k,
{
    if k < at {
        lemma_find_some(s, k + 1, p, at);
    }
}

pub proof fn lemma_find_bounds(s: Seq<char>, k: int, p: Seq<char>)
    requires
        0 <= k,
    ensures
        spec_find(s, k, p) is Some ==> k <= spec_find(s, k, p)->0 && spec_find(s, k, p)->0
            + p.len() <= s.len() && spec_find(s, k, p)->0 < s.len(),
    decreases s.len() - k,
{
    if k < s.len() && k + p.len() <= s.len() && !matches_at(s, k, p) {
        lemma_find_bounds(s, k + 1, p);
    }
}

pub(crate) fn find(s: &Vec<char>, k: usize, p: &str) -> (r: Option<usize>)
    requires
        p@.len() > 0,
    ensures
        r matches Some(at) ==> spec_find(s@, k as int, p@) == Some(at as int),
        r is None ==> spec_find(s@, k as int, p@) is None,
{
    let r = find_from(s, k, p);
    proof {
        match r {
            Some(at) => lemma_find_some(s@, k as int, p@, at as int),
            None => lemma_find_none(s@, k as int, p@),
        }
    }
    r
}

// ---------------------------------------------------------------------------
// Attributes
// ---------------------------------------------------------------------------

/// The attributes of an attribute string from `k` on: whitespace and
/// stray `/` skipped, a name, then an optional `=` and a double-quoted,
/// single-quoted or unquoted value (a trailing `/` of an unquoted value
/// left out). A `=` with nothing after it gives an empty value; a
/// character that cannot start a name is skipped.
pub open spec fn attrs_from(s: Seq<char>, k: int) -> Seq<(Seq<char>, Option<Seq<char>>)>
    decreases s.len() - k,
{
    if k < 0 || k >= s.len() {
        Seq::empty()
    } else {
        let a = scan_end(s, k, 0, ' ');
        proof {
            lemma_scan_end(s, k, 0, ' ');
        }
        if a >= s.len() {
            Seq::empty()
        } else {
            let b = scan_end(s, a, 1, ' ');
            proof {
                lemma_scan_end(s, a, 1, ' ');
            }
            if b == a {
                attrs_from(s, a + 1)
            } else {
                let name = s.subrange(a, b);
                let c = scan_end(s, b, 2, ' ');
                proof {
                    lemma_scan_end(s, b, 2, ' ');
                }
                if c >= s.len() || s[c] != '=' {
                    seq![(name, None)] + attrs_from(s, c)
                } else {
                    let d = scan_end(s, c + 1, 2, ' ');
                    proof {
                        lemma_scan_end(s, c + 1, 2, ' ');
                    }
                    if d >= s.len() {
                        seq![(name, Some(Seq::empty()))]
                    } else if s[d] == '"' || s[d] == '\'' {
                        let e = scan_end(s, d + 1, 3, s[d]);
                        proof {
                            lemma_scan_end(s, d + 1, 3, s[d]);
                        }
                        seq![(name, Some(s.subrange(d + 1, e)))] + attrs_from(
                            s,
                            if e < s.len() {
                                e + 1
                            } else {
                                e
                            },
                        )
                    } else {
                        let e = scan_end(s, d, 4, ' ');
                        proof {
                            lemma_scan_end(s, d, 4, ' ');
                        }
                        let vend = if e > d && s[e - 1] == '/' {
                            e - 1
                        } else {
                            e
                        };
                        seq![(name, Some(s.subrange(d, vend)))] + attrs_from(s, e)
                    }
                }
            }
        }
    }
}

/// Split an attribute string into (name, optional value) pairs.
fn split_attrs(s: &Vec<char>) -> (attrs: Vec<RawAttr>)
    ensures
        attrs@.map_values(|a: RawAttr| raw_view(a)) == attrs_from(s@, 0),
{
    let mut attrs: Vec<RawAttr> = Vec::new();
    let mut k: usize = 0;
    let n = s.len();
    while k < n
        invariant
            k <= n,
            n == s@.len(),
            attrs@.map_values(|a: RawAttr| raw_view(a)) + attrs_from(s@, k as int) == attrs_from(
                s@,
                0,
            ),
        decreases n - k,
    {
        let ghost before = attrs@.map_values(|a: RawAttr| raw_view(a));
        let a = scan(s, k, 0, ' ');
        if a >= n {
            assert(attrs_from(s@, k as int) =~= Seq::empty());
            assert(before + attrs_from(s@, n as int) =~= before + attrs_from(s@, k as int));
            k = n;
        } else {
            let b = scan(s, a, 1, ' ');
            if b == a {
                k = a + 1;
            } else {
                let name = slice(s, a, b);
                let c = scan(s, b, 2, ' ');
                if c >= n || s[c] != '=' {
                    attrs.push(RawAttr { name, value: None });
                    assert(attrs@.map_values(|a: RawAttr| raw_view(a)) =~= before.push(
                        (s@.subrange(a as int, b as int), None),
                    ));
                    k = c;
                } else {
                    let d = scan(s, c + 1, 2, ' ');
                    if d >= n {
                        attrs.push(RawAttr { name, value: Some(Vec::new()) });
                        assert(attrs@.map_values(|a: RawAttr| raw_view(a)) =~= before.push(
                            (s@.subrange(a as int, b as int), Some(Seq::empty())),
                        ));
                        k = n;
                    } else if s[d] == '"' || s[d] == '\'' {
                        let q = s[d];
                        let e = scan(s, d + 1, 3, q);
                        let v = slice(s, d + 1, e);
                        attrs.push(RawAttr { name, value: Some(v) });
                        assert(attrs@.map_values(|a: RawAttr| raw_view(a)) =~= before.push(
                            (s@.subrange(a as int, b as int), Some(s@.subrange(d + 1, e as int))),
                        ));
                        k = if e < n {
                            e + 1
                        } else {
                            e
                        };
                    } else {
                        let e = scan(s, d, 4, ' ');
                        let vend = if e > d && s[e - 1] == '/' {
                            e - 1
                        } else {
                            e
                        };
                        let v = slice(s, d, vend);
                        attrs.push(RawAttr { name, value: Some(v) });
                        assert(attrs@.map_values(|a: RawAttr| raw_view(a)) =~= before.push(
                            (s@.subrange(a as int, b as int), Some(s@.subrange(d as int, vend as int))),
                        ));
                        k = e;
                    }
                }
            }
        }
    }
    assert(attrs_from(s@, k as int) =~= Seq::empty());
    assert(attrs@.map_values(|a: RawAttr| raw_view(a)) + Seq::empty() =~= attrs@.map_values(
        |a: RawAttr| raw_view(a),
    ));
    attrs
}

// ---------------------------------------------------------------------------
// Tags
// ---------------------------------------------------------------------------

/// The `>` ending a tag, scanning from `k` with the quote `q` open (if
/// any): a `>` inside a quoted value does not count.
pub open spec fn tag_end_from(s: Seq<char>, k: int, q: Option<char>) -> Option<int>
    decreases s.len() - k,
{
    if k < 0 || k >= s.len() {
        None
    } else {
        match q {
            Some(qc) => tag_end_from(
                s,
                k + 1,
                if s[k] == qc {
                    None
                } else {
                    q
                },
            ),
            None => if s[k] == '"' || s[k] == '\'' {
                tag_end_from(s, k + 1, Some(s[k]))
            } else if s[k] == '>' {
                Some(k)
            } else {
                tag_end_from(s, k + 1, None)
            },
        }
    }
}

/// Index of the `>` closing a tag opened at `from`.
pub open spec fn spec_tag_end(s: Seq<char>, from: int) -> Option<int> {
    tag_end_from(s, from + 1, None)
}

pub proof fn lemma_tag_end_from(s: Seq<char>, k: int, q: Option<char>)
    requires
        0 <= k,
    ensures
        tag_end_from(s, k, q) is Some ==> k <= tag_end_from(s, k, q)->0 < s.len(),
    decreases s.len() - k,
{
    if k < s.len() {
        lemma_tag_end_from(s, k + 1, None);
        lemma_tag_end_from(s, k + 1, Some(s[k]));
        lemma_tag_end_from(s, k + 1, q);
    }
}

/// Index of the `>` closing a tag opened at `from` (where `s[from]` is
/// `<`), respecting quoted attribute values.
fn find_tag_end(s: &Vec<char>, from: usize) -> (r: Option<usize>)
    requires
        from < s@.len(),
    ensures
        r matches Some(k) ==> spec_tag_end(s@, from as int) == Some(k as int) && from < k < s@.len(),
        r is None ==> spec_tag_end(s@, from as int) is None,
{
    let n = s.len();
    let mut k = from + 1;
    let mut quote: Option<char> = None;
    while k < s.len()
        invariant
            from < k <= s@.len(),
            tag_end_from(s@, k as int, quote) == spec_tag_end(s@, from as int),
        decreases s@.len() - k,
    {
        let c = s[k];
        match quote {
            Some(q) => {
                if c == q {
                    quote = None;
                }
            },
            None => {
                if c == '"' || c == '\'' {
                    quote = Some(c);
                } else if c == '>' {
                    return Some(k);
                }
            },
        }
        k += 1;
    }
    None
}

/// Tag inner text split into (closing, name, attribute text,
/// self-closing): trimmed, an optional leading `/` (then trimmed again),
/// a name of ASCII alphanumerics and `-`, and the rest, a trailing `/`
/// marking a self-closing tag. `None` when the name is empty, or when a
/// closing tag carries anything but a lone `/` after its name.
pub open spec fn spec_split_tag(inner: Seq<char>) -> Option<(bool, Seq<char>, Seq<char>, bool)> {
    let t0 = spec_trim(inner, 0);
    let closing = t0.len() > 0 && t0[0] == '/';
    let text = if closing {
        spec_trim_start(t0.subrange(1, t0.len() as int), 0)
    } else {
        t0
    };
    let ne = scan_end(text, 0, 5, ' ');
    if ne == 0 {
        None
    } else {
        let name = text.subrange(0, ne);
        let after = text.subrange(ne, text.len() as int);
        let te = spec_trim_end(after, 0);
        let sc = te.len() > 0 && te.last() == '/';
        let attrs = if sc {
            spec_trim_end(te.subrange(0, te.len() - 1), 0)
        } else {
            spec_trim(after, 0)
        };
        if closing {
            let body = spec_trim(attrs, 0);
            if body.len() > 0 && body != seq!['/'] {
                None
            } else {
                Some((true, name, Seq::empty(), false))
            }
        } else {
            Some((false, name, attrs, sc))
        }
    }
}

fn split_tag(inner: &Vec<char>) -> (r: Option<(bool, Vec<char>, Vec<char>, bool)>)
    ensures
        match r {
            Some(t) => spec_split_tag(inner@) == Some((t.0, t.1@, t.2@, t.3)),
            None => spec_split_tag(inner@) is None,
        },
{
    proof {
        reveal_strlit("/");
    }
    let t0 = trim(inner);
    let closing = t0.len() > 0 && t0[0] == '/';
    let text = if closing {
        let rest = slice(&t0, 1, t0.len());
        trim_start_class(&rest, 0)
    } else {
        t0
    };
    proof {
        lemma_scan_end(text@, 0, 5, ' ');
    }
    let ne = scan(&text, 0, 5, ' ');
    assert(text@ == (if closing {
        spec_trim_start(t0@.subrange(1, t0@.len() as int), 0)
    } else {
        t0@
    }));
    if ne == 0 {
        return None;
    }
    let name = slice(&text, 0, ne);
    let after = slice(&text, ne, text.len());
    let trimmed_end = trim_end_class(&after, 0);
    let self_closing = trimmed_end.len() > 0 && trimmed_end[trimmed_end.len() - 1] == '/';
    let attrs = if self_closing {
        let without = slice(&trimmed_end, 0, trimmed_end.len() - 1);
        trim_end_class(&without, 0)
    } else {
        trim(&after)
    };
    // Closing tags carry no attributes.
    if closing {
        let body = trim(&attrs);
        if body.len() > 0 && !eq_str(&body, "/") {
            proof {
                assert("/"@ =~= seq!['/']);
                assert(body@ != seq!['/']);
            }
            return None;
        }
        assert(body.len() > 0 ==> body@ =~= seq!['/']);
        return Some((true, name, Vec::new(), false));
    }
    Some((false, name, attrs, self_closing))
}

// ---------------------------------------------------------------------------
// Comments, processing instructions and declarations
// ---------------------------------------------------------------------------

/// The kind of `<!`/`<?` construct at `k`: 1 comment, 2 processing
/// instruction, 3 CDATA, 4 declaration, 0 none.
pub open spec fn spec_construct_kind(s: Seq<char>, k: int) -> u8 {
    if matches_at(s, k, "<!--"@) {
        1
    } else if matches_at(s, k, "<?"@) {
        2
    } else if matches_at(s, k, "<![CDATA["@) {
        3
    } else if matches_at(s, k, "<!"@) {
        4
    } else {
        0
    }
}

/// What closes a construct of the given kind.
pub open spec fn construct_closer(kind: u8) -> Seq<char> {
    if kind == 1 {
        "-->"@
    } else if kind == 2 {
        "?>"@
    } else if kind == 3 {
        "]]>"@
    } else {
        ">"@
    }
}

/// One past the end of the construct at `k`, `None` when unterminated.
pub open spec fn spec_construct_end(s: Seq<char>, k: int, kind: u8) -> Option<int> {
    match spec_find(s, k, construct_closer(kind)) {
        Some(at) => Some(at + construct_closer(kind).len()),
        None => None,
    }
}

pub proof fn lemma_construct_end(s: Seq<char>, k: int, kind: u8)
    requires
        0 <= k,
    ensures
        spec_construct_end(s, k, kind) is Some ==> k < spec_construct_end(s, k, kind)->0 <= s.len(),
{
    reveal_strlit("-->");
    reveal_strlit("?>");
    reveal_strlit("]]>");
    reveal_strlit(">");
    lemma_find_bounds(s, k, construct_closer(kind));
}

fn construct_end(s: &Vec<char>, k: usize, kind: u8) -> (r: Option<usize>)
    requires
        k <= s@.len(),
    ensures
        r matches Some(e) ==> spec_construct_end(s@, k as int, kind) == Some(e as int) && k < e
            <= s@.len(),
        r is None ==> spec_construct_end(s@, k as int, kind) is None,
{
    proof {
        reveal_strlit("-->");
        reveal_strlit("?>");
        reveal_strlit("]]>");
        reveal_strlit(">");
        lemma_construct_end(s@, k as int, kind);
    }
    let p = if kind == 1 {
        "-->"
    } else if kind == 2 {
        "?>"
    } else if kind == 3 {
        "]]>"
    } else {
        ">"
    };
    assert(p@ == construct_closer(kind));
    let n = s.len();
    match find(s, k, p) {
        Some(at) => {
            proof {
                lemma_find_bounds(s@, k as int, p@);
            }
            assert(spec_find(s@, k as int, p@) == Some(at as int));
            assert(at + p@.len() <= s@.len());
            Some(at + p.unicode_len())
        },
        None => None,
    }
}

fn construct_kind(s: &Vec<char>, k: usize) -> (r: u8)
    ensures
        r == spec_construct_kind(s@, k as int),
        r <= 4,
{
    if starts_with_at(s, k, "<!--") {
        1
    } else if starts_with_at(s, k, "<?") {
        2
    } else if starts_with_at(s, k, "<![CDATA[") {
        3
    } else if starts_with_at(s, k, "<!") {
        4
    } else {
        0
    }
}

// ---------------------------------------------------------------------------
// Stripped elements
// ---------------------------------------------------------------------------

/// The tag at `lt` (a `<` that starts no construct) with end `end` opens
/// (`Some(false)`) or closes (`Some(true)`) an element called `name`,
/// compared ASCII case-insensitively.
pub open spec fn names_tag(s: Seq<char>, lt: int, end: int, name: Seq<char>) -> Option<bool> {
    match spec_split_tag(s.subrange(lt + 1, end)) {
        Some(t) => if spec_lower_ascii_seq(t.1) == spec_lower_ascii_seq(name) {
            Some(t.0)
        } else {
            None
        },
        None => None,
    }
}

/// Scan for the close tag matching an open stripped element, `depth`
/// elements of its name open, from `k`: one past the matching close tag,
/// or the end of the input when it never comes.
pub open spec fn skip_from(s: Seq<char>, k: int, depth: nat, name: Seq<char>) -> int
    decreases s.len() - k,
{
    if k < 0 || k >= s.len() {
        s.len() as int
    } else {
        match spec_find(s, k, "<"@) {
            None => s.len() as int,
            Some(lt) => {
                proof {
                    lemma_find_bounds(s, k, "<"@);
                }
                let kind = spec_construct_kind(s, lt);
                if kind != 0 {
                    match spec_construct_end(s, lt, kind) {
                        Some(e) => {
                            proof {
                                lemma_construct_end(s, lt, kind);
                            }
                            skip_from(s, e, depth, name)
                        },
                        None => s.len() as int,
                    }
                } else {
                    match spec_tag_end(s, lt) {
                        None => s.len() as int,
                        Some(end) => {
                            proof {
                                lemma_tag_end_from(s, lt + 1, None);
                            }
                            match names_tag(s, lt, end, name) {
                                Some(true) => if depth <= 1 {
                                    end + 1
                                } else {
                                    skip_from(s, end + 1, (depth - 1) as nat, name)
                                },
                                Some(false) => skip_from(s, end + 1, depth + 1, name),
                                None => skip_from(s, end + 1, depth, name),
                            }
                        },
                    }
                }
            },
        }
    }
}

/// Where scanning resumes after a stripped non-void element whose opening
/// tag starts at `from`: one past the matching close tag, or the end.
pub open spec fn spec_skip_stripped(s: Seq<char>, from: int, name: Seq<char>) -> int {
    match spec_tag_end(s, from) {
        Some(open_end) => skip_from(s, open_end + 1, 1, name),
        None => s.len() as int,
    }
}

pub proof fn lemma_skip_from(s: Seq<char>, k: int, depth: nat, name: Seq<char>)
    requires
        0 <= k,
    ensures
        k < skip_from(s, k, depth, name) <= s.len() || (k >= s.len() && skip_from(s, k, depth, name)
            == s.len()),
    decreases s.len() - k,
{
    if k < s.len() {
        lemma_find_bounds(s, k, "<"@);
        match spec_find(s, k, "<"@) {
            None => {},
            Some(lt) => {
                let kind = spec_construct_kind(s, lt);
                if kind != 0 {
                    lemma_construct_end(s, lt, kind);
                    match spec_construct_end(s, lt, kind) {
                        Some(e) => lemma_skip_from(s, e, depth, name),
                        None => {},
                    }
                } else {
                    lemma_tag_end_from(s, lt + 1, None);
                    match spec_tag_end(s, lt) {
                        None => {},
                        Some(end) => {
                            lemma_skip_from(s, end + 1, (depth - 1) as nat, name);
                            lemma_skip_from(s, end + 1, depth + 1, name);
                            lemma_skip_from(s, end + 1, depth, name);
                        },
                    }
                }
            },
        }
    }
}

/// Skip a stripped non-void element whose opening tag starts at `from`.
fn skip_stripped_element(s: &Vec<char>, from: usize, name: &Vec<char>) -> (r: usize)
    requires
        from < s@.len(),
    ensures
        r == spec_skip_stripped(s@, from as int, name@),
        from < r <= s@.len(),
{
    let open_end = match find_tag_end(s, from) {
        Some(e) => e,
        None => {
            return s.len();
        },
    };
    proof {
        reveal_strlit("<");
    }
    let n = s.len();
    let ghost total = skip_from(s@, open_end + 1, 1, name@);
    let mut depth: usize = 1;
    let mut k = open_end + 1;
    while k < s.len()
        invariant
            from < k <= s@.len(),
            1 <= depth <= k,
            skip_from(s@, k as int, depth as nat, name@) == total,
        decreases s@.len() - k,
    {
        let lt = match find(s, k, "<") {
            Some(at) => at,
            None => {
                return s.len();
            },
        };
        proof {
            lemma_find_bounds(s@, k as int, "<"@);
        }
        let kind = construct_kind(s, lt);
        if kind != 0 {
            match construct_end(s, lt, kind) {
                Some(e) => {
                    k = e;
                },
                None => {
                    return s.len();
                },
            }
        } else {
            let end = match find_tag_end(s, lt) {
                Some(e) => e,
                None => {
                    return s.len();
                },
            };
            let inner = slice(s, lt + 1, end);
            match split_tag(&inner) {
                Some((closing, tname, _, _)) => {
                    if eq_str_ci(&tname, name) {
                        if closing {
                            if depth <= 1 {
                                return end + 1;
                            }
                            depth = depth - 1;
                        } else {
                            depth = depth + 1;
                        }
                    }
                },
                None => {},
            }
            k = end + 1;
        }
    }
    proof {
        lemma_skip_from(s@, k as int, depth as nat, name@);
    }
    s.len()
}

/// ASCII case-insensitive equality.
fn eq_str_ci(a: &Vec<char>, b: &Vec<char>) -> (r: bool)
    ensures
        r == (spec_lower_ascii_seq(a@) == spec_lower_ascii_seq(b@)),
{
    let la = lower_ascii_vec(a);
    let lb = lower_ascii_vec(b);
    crate::text::eq_vec(&la, &lb)
}

// ---------------------------------------------------------------------------
// The sanitizer
// ---------------------------------------------------------------------------

/// What a well-formed tag at `i` (ending at `tag_end`) becomes: a
/// stripped element is dropped (a non-void opening tag through its
/// matching close tag), any other tag is rebuilt with its name lowercased
/// and its attributes filtered. The second part is where scanning goes on.
pub open spec fn tag_step(
    s: Seq<char>,
    i: int,
    tag_end: int,
    closing: bool,
    name: Seq<char>,
    attrs: Seq<char>,
    self_closing: bool,
) -> (Seq<char>, int) {
    let lower = spec_lower_ascii_seq(name);
    if spec_stripped(lower) {
        if closing || spec_void_stripped(lower) || self_closing {
            (Seq::empty(), tag_end + 1)
        } else {
            (Seq::empty(), spec_skip_stripped(s, i, lower))
        }
    } else if closing {
        (seq!['<', '/'] + lower + seq!['>'], tag_end + 1)
    } else {
        (
            seq!['<'] + lower + spec_attrs_out(attrs_from(attrs, 0)) + (if self_closing {
                seq![' ', '/', '>']
            } else {
                seq!['>']
            }),
            tag_end + 1,
        )
    }
}

/// The sanitized form of `s` from `i` on. Text up to the next `<` passes
/// through; a comment, processing instruction, CDATA section or
/// declaration is dropped (an unterminated one drops the rest, except a
/// declaration, whose rest is kept as text); a well-formed tag goes by
/// [`tag_step`]; any other `<` is literal text.
pub open spec fn sanitize_from(s: Seq<char>, i: int) -> Seq<char>
    decreases s.len() - i,
{
    if i < 0 || i >= s.len() {
        Seq::empty()
    } else if s[i] != '<' {
        let next = scan_end(s, i, 6, ' ');
        proof {
            lemma_scan_end(s, i, 6, ' ');
        }
        proof {
            assert(scan_end(s, i, 6, ' ') == scan_end(s, i + 1, 6, ' '));
            lemma_scan_end(s, i + 1, 6, ' ');
        }
        s.subrange(i, next) + sanitize_from(s, next)
    } else {
        let kind = spec_construct_kind(s, i);
        if kind != 0 {
            match spec_construct_end(s, i, kind) {
                Some(e) => {
                    proof {
                        lemma_construct_end(s, i, kind);
                    }
                    sanitize_from(s, e)
                },
                None => if kind == 4 {
                    s.subrange(i, s.len() as int)
                } else {
                    Seq::empty()
                },
            }
        } else {
            match spec_tag_end(s, i) {
                None => seq!['<'] + sanitize_from(s, i + 1),
                Some(te) => match spec_split_tag(s.subrange(i + 1, te)) {
                    None => seq!['<'] + sanitize_from(s, i + 1),
                    Some(t) => {
                        let step = tag_step(s, i, te, t.0, t.1, t.2, t.3);
                        proof {
                            lemma_tag_end_from(s, i + 1, None);
                            lemma_skip_from(s, te + 1, 1, spec_lower_ascii_seq(t.1));
                        }
                        if step.1 > i {
                            step.0 + sanitize_from(s, step.1)
                        } else {
                            step.0
                        }
                    },
                },
            }
        }
    }
}

/// The sanitized form of an HTML fragment.
pub open spec fn spec_sanitize(html: Seq<char>) -> Seq<char> {
    sanitize_from(html, 0)
}

proof fn lemma_scan_all(s: Seq<char>, k: int, cls: u8, q: char)
    requires
        0 <= k <= s.len(),
        forall|j: int| k <= j < s.len() ==> scan_class(cls, q, #[trigger] s[j]),
    ensures
        scan_end(s, k, cls, q) == s.len(),
    decreases s.len() - k,
{
    if k < s.len() {
        lemma_scan_all(s, k + 1, cls, q);
    }
}

/// Text without a `<` passes through the sanitizer unchanged.
pub proof fn law_text_without_tags_unchanged(s: Seq<char>)
    requires
        forall|j: int| 0 <= j < s.len() ==> #[trigger] s[j] != '<',
    ensures
        spec_sanitize(s) == s,
{
    if s.len() > 0 {
        lemma_scan_all(s, 0, 6, ' ');
        assert(s.subrange(0, s.len() as int) =~= s);
        assert(sanitize_from(s, s.len() as int) =~= Seq::<char>::empty());
        assert(s + Seq::<char>::empty() =~= s);
    }
}

/// Emit what a well-formed tag becomes; where scanning goes on.
fn push_tag(
    out: &mut Vec<char>,
    s: &Vec<char>,
    i: usize,
    tag_end: usize,
    closing: bool,
    name: &Vec<char>,
    attrs_text: &Vec<char>,
    self_closing: bool,
) -> (next: usize)
    requires
        i < tag_end < s@.len(),
    ensures
        final(out)@ == old(out)@ + tag_step(s@, i as int, tag_end as int, closing, name@, attrs_text@, self_closing).0,
        next == tag_step(s@, i as int, tag_end as int, closing, name@, attrs_text@, self_closing).1,
        i < next <= s@.len(),
{
    let ghost o = out@;
    let n = s.len();
    let lower = lower_ascii_vec(name);
    if is_stripped(&lower) {
        if closing || is_void_stripped(&lower) || self_closing {
            assert(out@ =~= o + Seq::<char>::empty());
            tag_end + 1
        } else {
            assert(out@ =~= o + Seq::<char>::empty());
            skip_stripped_element(s, i, &lower)
        }
    } else if closing {
        out.push('<');
        out.push('/');
        push_vec(out, &lower);
        out.push('>');
        assert(out@ =~= o + (seq!['<', '/'] + lower@ + seq!['>']));
        tag_end + 1
    } else {
        out.push('<');
        push_vec(out, &lower);
        let attrs = split_attrs(attrs_text);
        push_vec(out, &sanitize_attr_list(&attrs));
        if self_closing {
            out.push(' ');
            out.push('/');
            out.push('>');
        } else {
            out.push('>');
        }
        assert(out@ =~= o + tag_step(s@, i as int, tag_end as int, closing, name@, attrs_text@, self_closing).0);
        tag_end + 1
    }
}

/// Sanitize an HTML fragment (see the module docs for the policy). Safe
/// markup passes through unchanged except that tag and attribute names
/// are lowercased and kept attribute values are re-escaped to their
/// canonical form.
#[verifier::spinoff_prover]
#[verifier::rlimit(40)]
pub fn sanitize_html(html: &str) -> (r: String)
    ensures
        r@ == spec_sanitize(html@),
{
    let s = chars_of(html);
    let n = s.len();
    let mut out: Vec<char> = Vec::new();
    let mut i: usize = 0;
    while i < n
        invariant
            i <= n,
            n == s@.len(),
            s@ == html@,
            out@ + sanitize_from(s@, i as int) == sanitize_from(s@, 0),
        decreases n - i,
    {
        let ghost o = out@;
        if s[i] != '<' {
            let next = scan(&s, i, 6, ' ');
            push_vec(&mut out, &slice(&s, i, next));
            assert(out@ + sanitize_from(s@, next as int) =~= o + sanitize_from(s@, i as int));
            i = next;
        } else {
            let kind = construct_kind(&s, i);
            if kind != 0 {
                match construct_end(&s, i, kind) {
                    Some(e) => {
                        i = e;
                    },
                    None => {
                        if kind == 4 {
                            push_vec(&mut out, &slice(&s, i, n));
                        }
                        assert(out@ + sanitize_from(s@, n as int) =~= o + sanitize_from(
                            s@,
                            i as int,
                        ));
                        i = n;
                    },
                }
            } else {
                match find_tag_end(&s, i) {
                    None => {
                        out.push('<');
                        assert(out@ + sanitize_from(s@, i + 1) =~= o + sanitize_from(s@, i as int));
                        i += 1;
                    },
                    Some(tag_end) => {
                        let inner = slice(&s, i + 1, tag_end);
                        match split_tag(&inner) {
                            None => {
                                out.push('<');
                                assert(out@ + sanitize_from(s@, i + 1) =~= o + sanitize_from(
                                    s@,
                                    i as int,
                                ));
                                i += 1;
                            },
                            Some((closing, name, attrs_text, self_closing)) => {
                                let next = push_tag(
                                    &mut out,
                                    &s,
                                    i,
                                    tag_end,
                                    closing,
                                    &name,
                                    &attrs_text,
                                    self_closing,
                                );
                                assert(out@ + sanitize_from(s@, next as int) =~= o + sanitize_from(
                                    s@,
                                    i as int,
                                ));
                                i = next;
                            },
                        }
                    },
                }
            }
        }
    }
    assert(out@ + Seq::<char>::empty() =~= out@);
    string_of(&out)
}

} // verus!
