#![verifier::loop_isolation(false)]

//! Leading metadata blocks (`---` / `+++`).
//!
//! A document may start with a metadata block whose first line is exactly
//! `---` (or `+++`) and whose closing line repeats the same delimiter. The
//! block is metadata, not content: Markdown-to-HTML conversion strips it,
//! so a fenced document renders exactly like its body alone.
//!
//! Because `---` is live CommonMark syntax (thematic break / setext
//! underline), a `---` block only counts as frontmatter when it contains a
//! top-level `key:` mapping line; `+++` needs no such guard.

use vstd::prelude::*;
use crate::error::Error;
use crate::text::{
    chars_of, next_nl, lemma_next_nl, push_str, push_vec, skip_class, slice, spec_trim,
    spec_trim_end, string_of, trim, trim_end_class,
};

verus! {

broadcast use vstd::string::group_string_axioms;

// ---------------------------------------------------------------------------
// Detection
// ---------------------------------------------------------------------------

/// End of the line starting at `pos`: just past its `\n`, or the end.
pub open spec fn line_end(s: Seq<char>, pos: int) -> int {
    if next_nl(s, pos) < s.len() {
        next_nl(s, pos) + 1
    } else {
        s.len() as int
    }
}

/// `s[a..e]` without one trailing `\n`, then without one trailing `\r`.
pub open spec fn line_content(s: Seq<char>, a: int, e: int) -> Seq<char> {
    let l = s.subrange(a, e);
    let l1 = if l.len() > 0 && l.last() == '\n' {
        l.drop_last()
    } else {
        l
    };
    if l1.len() > 0 && l1.last() == '\r' {
        l1.drop_last()
    } else {
        l1
    }
}

/// The fence text of a line: its content without trailing spaces/tabs.
pub open spec fn fence_of(s: Seq<char>, a: int, e: int) -> Seq<char> {
    spec_trim_end(line_content(s, a, e), 1)
}

pub open spec fn is_delimiter(d: Seq<char>) -> bool {
    d == seq!['-', '-', '-'] || d == seq!['+', '+', '+']
}

/// Start of the first line at or after `pos` whose fence text is `d`.
pub open spec fn find_close(s: Seq<char>, pos: int, d: Seq<char>) -> Option<int>
    decreases s.len() - pos,
{
    if pos < 0 || pos > s.len() {
        None
    } else if fence_of(s, pos, line_end(s, pos)) == d {
        Some(pos)
    } else if line_end(s, pos) >= s.len() || line_end(s, pos) <= pos {
        None
    } else {
        find_close(s, line_end(s, pos), d)
    }
}

/// Index of the first `:` at or after `i` (or the length).
pub open spec fn sep_at(s: Seq<char>, sep: char, i: int) -> int
    decreases s.len() - i,
{
    if i < 0 || i >= s.len() {
        s.len() as int
    } else if s[i] == sep {
        i
    } else {
        sep_at(s, sep, i + 1)
    }
}

/// A line is a top-level `key:` mapping line: it starts in column 0 (not
/// with a space, tab or `#`), has a `:`, and the text before it, trimmed,
/// is a non-empty key without spaces or tabs.
pub open spec fn mapping_line(raw: Seq<char>, sep: char) -> bool {
    let line = if raw.len() > 0 && raw.last() == '\r' {
        raw.drop_last()
    } else {
        raw
    };
    let c = sep_at(line, sep, 0);
    &&& line.len() > 0
    &&& line[0] != ' ' && line[0] != '\t' && line[0] != '#'
    &&& c < line.len()
    &&& spec_trim(line.subrange(0, c), 0).len() > 0
    &&& !spec_trim(line.subrange(0, c), 0).contains(' ')
    &&& !spec_trim(line.subrange(0, c), 0).contains('\t')
}

/// Some `\n`-separated line of `s[i..]` is a mapping line.
pub open spec fn has_mapping_from(s: Seq<char>, i: int) -> bool
    decreases s.len() + 1 - i,
{
    if i < 0 || i > s.len() {
        false
    } else if mapping_line(s.subrange(i, next_nl(s, i)), ':') {
        true
    } else if next_nl(s, i) >= s.len() || next_nl(s, i) < i {
        false
    } else {
        has_mapping_from(s, next_nl(s, i) + 1)
    }
}

/// Index where the text starts after an optional byte order mark.
pub open spec fn bom_len(s: Seq<char>) -> int {
    if s.len() > 0 && s[0] == '\u{FEFF}' {
        1
    } else {
        0
    }
}

/// A leading block: (end of the verbatim block text, start and end of the
/// inner text, start of the body), all indices into `s`.
pub open spec fn spec_split(s: Seq<char>) -> Option<(int, int, int, int)> {
    let st = bom_len(s);
    let first_end = line_end(s, st);
    let d = fence_of(s, st, first_end);
    if !is_delimiter(d) {
        None
    } else {
        match find_close(s, first_end, d) {
            None => None,
            Some(pos) => {
                if d == seq!['-', '-', '-'] && !has_mapping_from(s.subrange(first_end, pos), 0) {
                    None
                } else {
                    Some((pos + 3, first_end, pos, line_end(s, pos)))
                }
            },
        }
    }
}

proof fn lemma_line_end(s: Seq<char>, pos: int)
    requires
        0 <= pos <= s.len(),
    ensures
        pos <= line_end(s, pos) <= s.len(),
        pos < s.len() ==> pos < line_end(s, pos),
{
    lemma_next_nl(s, pos);
}

/// Start of the line after the one at `pos`, and the line's fence text.
fn scan_line(s: &Vec<char>, pos: usize) -> (r: (usize, Vec<char>))
    requires
        pos <= s@.len(),
    ensures
        r.0 as int == line_end(s@, pos as int),
        r.1@ == fence_of(s@, pos as int, r.0 as int),
{
    let mut e = pos;
    while e < s.len() && s[e] != '\n'
        invariant
            pos <= e <= s@.len(),
            next_nl(s@, e as int) == next_nl(s@, pos as int),
        decreases s@.len() - e,
    {
        e += 1;
    }
    let end = if e < s.len() {
        e + 1
    } else {
        e
    };
    let mut c = slice(s, pos, end);
    if c.len() > 0 && c[c.len() - 1] == '\n' {
        c.pop();
    }
    if c.len() > 0 && c[c.len() - 1] == '\r' {
        c.pop();
    }
    let ghost l = s@.subrange(pos as int, end as int);
    let ghost l1 = if l.len() > 0 && l.last() == '\n' {
        l.drop_last()
    } else {
        l
    };
    assert(c@ =~= (if l1.len() > 0 && l1.last() == '\r' {
        l1.drop_last()
    } else {
        l1
    }));
    (end, trim_end_class(&c, 1))
}

/// True when the sequence is `---` or `+++`.
fn delimiter_kind(d: &Vec<char>) -> (r: u8)
    ensures
        r == 0 <==> !is_delimiter(d@),
        r == 1 <==> d@ == seq!['-', '-', '-'],
        r == 2 <==> d@ == seq!['+', '+', '+'],
{
    if d.len() == 3 && d[0] == '-' && d[1] == '-' && d[2] == '-' {
        assert(d@ =~= seq!['-', '-', '-']);
        1
    } else if d.len() == 3 && d[0] == '+' && d[1] == '+' && d[2] == '+' {
        assert(d@ =~= seq!['+', '+', '+']);
        2
    } else {
        0
    }
}

/// One line is a top-level `key:` mapping line.
fn is_mapping_line(raw: &Vec<char>, sep: char) -> (r: bool)
    ensures
        r == mapping_line(raw@, sep),
{
    let mut line = crate::text::copy(raw);
    if line.len() > 0 && line[line.len() - 1] == '\r' {
        line.pop();
    }
    if line.len() == 0 || line[0] == ' ' || line[0] == '\t' || line[0] == '#' {
        return false;
    }
    let mut c: usize = 0;
    while c < line.len() && line[c] != sep
        invariant
            c <= line@.len(),
            sep_at(line@, sep, c as int) == sep_at(line@, sep, 0),
        decreases line@.len() - c,
    {
        c += 1;
    }
    if c >= line.len() {
        return false;
    }
    let head = slice(&line, 0, c);
    let key = trim(&head);
    if key.len() == 0 {
        return false;
    }
    let mut k: usize = 0;
    while k < key.len()
        invariant
            k <= key@.len(),
            forall|j: int| 0 <= j < k ==> key@[j] != ' ' && key@[j] != '\t',
        decreases key@.len() - k,
    {
        if key[k] == ' ' || key[k] == '\t' {
            assert(key@.contains(key@[k as int]));
            return false;
        }
        k += 1;
    }
    true
}

/// True when `inner` contains a top-level `key:` mapping line.
fn inner_has_mapping(inner: &Vec<char>) -> (r: bool)
    ensures
        r == has_mapping_from(inner@, 0),
{
    let mut i: usize = 0;
    let n = inner.len();
    loop
        invariant
            i <= n,
            n == inner@.len(),
            has_mapping_from(inner@, i as int) == has_mapping_from(inner@, 0),
        decreases n - i,
    {
        let mut e = i;
        while e < n && inner[e] != '\n'
            invariant
                i <= e <= n,
                next_nl(inner@, e as int) == next_nl(inner@, i as int),
            decreases n - e,
        {
            e += 1;
        }
        proof {
            lemma_next_nl(inner@, i as int);
        }
        let seg = slice(inner, i, e);
        if is_mapping_line(&seg, ':') {
            return true;
        }
        if e >= n {
            return false;
        }
        i = e + 1;
    }
}

/// Split a leading block: (end of the verbatim block, inner start, inner
/// end, body start), as character indices into `s`.
pub fn split_raw(s: &Vec<char>) -> (r: Option<(usize, usize, usize, usize)>)
    ensures
        match r {
            Some((a, b, c, d)) => spec_split(s@) == Some((a as int, b as int, c as int, d as int)),
            None => spec_split(s@) is None,
        },
        r matches Some((a, b, c, d)) ==> b <= c && c + 3 == a && a <= d <= s@.len(),
{
    let st: usize = if s.len() > 0 && s[0] == '\u{FEFF}' {
        1
    } else {
        0
    };
    let (first_end, d) = scan_line(s, st);
    let kind = delimiter_kind(&d);
    if kind == 0 {
        return None;
    }
    proof {
        lemma_line_end(s@, st as int);
    }
    let mut pos = first_end;
    loop
        invariant
            first_end <= pos <= s@.len(),
            find_close(s@, pos as int, d@) == find_close(s@, first_end as int, d@),
        decreases s@.len() - pos,
    {
        let (le, fence) = scan_line(s, pos);
        proof {
            lemma_line_end(s@, pos as int);
        }
        if crate::text::eq_vec(&fence, &d) {
            // Closing fence found.
            let inner = slice(s, first_end, pos);
            if kind == 1 && !inner_has_mapping(&inner) {
                return None;
            }
            assert(fence@ =~= d@);
            assert(fence@.len() == 3);
            proof {
                crate::text::lemma_trail_start_bounds(line_content(s@, pos as int, le as int), 1, line_content(s@, pos as int, le as int).len() as int);
            }
            assert(line_content(s@, pos as int, le as int).len() <= le - pos);
            return Some((pos + 3, first_end, pos, le));
        }
        if le >= s.len() {
            return None;
        }
        pos = le;
    }
}

/// The document without a leading metadata block.
pub open spec fn spec_strip_frontmatter(s: Seq<char>) -> Seq<char> {
    match spec_split(s) {
        Some((_, _, _, body)) => s.subrange(body, s.len() as int),
        None => s,
    }
}

/// Strip a leading metadata block, returning the body (the input itself
/// when no valid block is present).
pub fn strip_frontmatter_chars(s: &Vec<char>) -> (r: Vec<char>)
    ensures
        r@ == spec_strip_frontmatter(s@),
{
    match split_raw(s) {
        Some((_, _, _, body)) => slice(s, body, s.len()),
        None => crate::text::copy(s),
    }
}

/// Strip a leading metadata block, returning the body (the input itself
/// when no valid block is present).
pub fn strip_frontmatter_body(input: &str) -> (r: String)
    ensures
        r@ == spec_strip_frontmatter(input@),
{
    let v = chars_of(input);
    string_of(&strip_frontmatter_chars(&v))
}

// ---------------------------------------------------------------------------
// Parsed metadata
// ---------------------------------------------------------------------------

/// A leading metadata block: the exact source text plus parsed data.
///
/// `original` is preserved verbatim (opening delimiter line through the
/// closing delimiter, without the trailing line break), so
/// [`prepend_frontmatter`] reproduces the input. `data` holds the
/// top-level pairs, `key: value` in a `---` block and `key = value` in a
/// `+++` block, one per key (a later line with the same key replaces the
/// earlier value); blank lines, `#` comments and indented
/// lines are skipped, and surrounding single or double quotes are stripped
/// from values. Lists, nested maps and multiline scalars are not parsed.
pub struct Frontmatter {
    pub original: String,
    pub data: Vec<(String, String)>,
}

impl Frontmatter {
    /// The value parsed for `key`, if any.
    pub fn get(&self, key: &str) -> (r: Option<String>)
        ensures
            match r {
                Some(v) => pair_lookup(self.data@, key@) == Some(v@),
                None => pair_lookup(self.data@, key@) is None,
            },
    {
        let k = chars_of(key);
        let mut i: usize = 0;
        assert(self.data@.skip(0) =~= self.data@);
        while i < self.data.len()
            invariant
                i <= self.data@.len(),
                pair_lookup(self.data@.skip(i as int), key@) == pair_lookup(self.data@, key@),
            decreases self.data@.len() - i,
        {
            assert(self.data@.skip(i as int).drop_first() =~= self.data@.skip(i + 1));
            if crate::text::eq_str(&k, self.data[i].0.as_str()) {
                let v = chars_of(self.data[i].1.as_str());
                return Some(string_of(&v));
            }
            i += 1;
        }
        None
    }
}

/// The key/value pair of a top-level `key: value` line, if it is one.
pub open spec fn data_entry(raw: Seq<char>, sep: char) -> Option<(Seq<char>, Seq<char>)> {
    let line = if raw.len() > 0 && raw.last() == '\r' {
        raw.drop_last()
    } else {
        raw
    };
    let c = sep_at(line, sep, 0);
    let key = spec_trim(line.subrange(0, c), 0);
    let v = spec_trim(line.subrange(c + 1, line.len() as int), 0);
    let value = if v.len() >= 2 && ((v[0] == '"' && v.last() == '"') || (v[0] == '\'' && v.last()
        == '\'')) {
        v.subrange(1, v.len() - 1)
    } else {
        v
    };
    if mapping_line(raw, sep) {
        Some((key, value))
    } else {
        None
    }
}

/// The pairs of the `\n`-separated lines of `s[i..]`, in order.
pub open spec fn entries_from(s: Seq<char>, i: int, sep: char) -> Seq<(Seq<char>, Seq<char>)>
    decreases s.len() + 1 - i,
{
    if i < 0 || i > s.len() {
        Seq::empty()
    } else {
        let e = next_nl(s, i);
        let head = match data_entry(s.subrange(i, e), sep) {
            Some(p) => seq![p],
            None => Seq::empty(),
        };
        if e >= s.len() || e < i {
            head
        } else {
            head + entries_from(s, e + 1, sep)
        }
    }
}

/// The value of the last pair with key `k`.
pub open spec fn last_value(es: Seq<(Seq<char>, Seq<char>)>, k: Seq<char>) -> Option<Seq<char>>
    decreases es.len(),
{
    if es.len() == 0 {
        None
    } else if es.last().0 == k {
        Some(es.last().1)
    } else {
        last_value(es.drop_last(), k)
    }
}

/// The value stored for `k` (first pair with that key).
pub open spec fn pair_lookup(r: Seq<(String, String)>, k: Seq<char>) -> Option<Seq<char>>
    decreases r.len(),
{
    if r.len() == 0 {
        None
    } else if r[0].0@ == k {
        Some(r[0].1@)
    } else {
        pair_lookup(r.drop_first(), k)
    }
}

/// No key occurs twice.
pub open spec fn keys_unique(r: Seq<(String, String)>) -> bool {
    forall|i: int, j: int| 0 <= i < j < r.len() ==> r[i].0@ != r[j].0@
}

proof fn lemma_lookup_index(r: Seq<(String, String)>, k: Seq<char>, i: int)
    requires
        keys_unique(r),
        0 <= i < r.len(),
        r[i].0@ == k,
    ensures
        pair_lookup(r, k) == Some(r[i].1@),
    decreases r.len(),
{
    if i > 0 {
        assert(r[0].0@ != k);
        let t = r.drop_first();
        assert(t[i - 1] == r[i]);
        lemma_lookup_index(t, k, i - 1);
    }
}

proof fn lemma_lookup_absent(r: Seq<(String, String)>, k: Seq<char>)
    requires
        forall|i: int| 0 <= i < r.len() ==> r[i].0@ != k,
    ensures
        pair_lookup(r, k) is None,
    decreases r.len(),
{
    if r.len() > 0 {
        let t = r.drop_first();
        assert forall|i: int| 0 <= i < t.len() implies t[i].0@ != k by {
            assert(t[i] == r[i + 1]);
        }
        lemma_lookup_absent(t, k);
    }
}

/// The lookup of `k` is the value at the index holding `k`, if any.
proof fn lemma_lookup(r: Seq<(String, String)>, k: Seq<char>)
    requires
        keys_unique(r),
    ensures
        (exists|i: int| 0 <= i < r.len() && r[i].0@ == k) ==> pair_lookup(r, k) == Some(
            r[choose|i: int| 0 <= i < r.len() && r[i].0@ == k].1@,
        ),
        !(exists|i: int| 0 <= i < r.len() && r[i].0@ == k) ==> pair_lookup(r, k) is None,
{
    if exists|i: int| 0 <= i < r.len() && r[i].0@ == k {
        let i = choose|i: int| 0 <= i < r.len() && r[i].0@ == k;
        lemma_lookup_index(r, k, i);
    } else {
        lemma_lookup_absent(r, k);
    }
}

/// The `key: value` pair of one line, if it is a top-level mapping line.
fn parse_entry(raw: &Vec<char>, sep: char) -> (r: Option<(Vec<char>, Vec<char>)>)
    ensures
        match r {
            Some((k, v)) => data_entry(raw@, sep) == Some((k@, v@)),
            None => data_entry(raw@, sep) is None,
        },
{
    if !is_mapping_line(raw, sep) {
        return None;
    }
    let mut line = crate::text::copy(raw);
    if line.len() > 0 && line[line.len() - 1] == '\r' {
        line.pop();
    }
    let mut c: usize = 0;
    while c < line.len() && line[c] != sep
        invariant
            c <= line@.len(),
            sep_at(line@, sep, c as int) == sep_at(line@, sep, 0),
        decreases line@.len() - c,
    {
        c += 1;
    }
    let key = trim(&slice(&line, 0, c));
    let after: usize = if c < line.len() {
        c + 1
    } else {
        line.len()
    };
    let v = trim(&slice(&line, after, line.len()));
    let vl = v.len();
    let value = if vl >= 2 && ((v[0] == '"' && v[vl - 1] == '"') || (v[0] == '\'' && v[vl - 1]
        == '\'')) {
        slice(&v, 1, vl - 1)
    } else {
        v
    };
    Some((key, value))
}

/// Top-level `key: value` pairs of the inner text (one per key, the
/// last line for a key wins).
fn parse_data(inner: &Vec<char>, sep: char) -> (r: Vec<(String, String)>)
    ensures
        keys_unique(r@),
        forall|k: Seq<char>| pair_lookup(r@, k) == last_value(entries_from(inner@, 0, sep), k),
{
    // The pairs, line by line.
    let mut es: Vec<(Vec<char>, Vec<char>)> = Vec::new();
    let ghost all = entries_from(inner@, 0, sep);
    let mut i: usize = 0;
    let n = inner.len();
    loop
        invariant
            i <= n,
            n == inner@.len(),
            Seq::new(es@.len(), |q: int| (es@[q].0@, es@[q].1@)) + entries_from(inner@, i as int, sep)
                == all,
        decreases n - i,
    {
        let ghost before = Seq::new(es@.len(), |q: int| (es@[q].0@, es@[q].1@));
        let mut e = i;
        while e < n && inner[e] != '\n'
            invariant
                i <= e <= n,
                next_nl(inner@, e as int) == next_nl(inner@, i as int),
            decreases n - e,
        {
            e += 1;
        }
        proof {
            lemma_next_nl(inner@, i as int);
        }
        let seg = slice(inner, i, e);
        match parse_entry(&seg, sep) {
            Some(p) => {
                es.push(p);
            },
            None => {},
        }
        let ghost after = Seq::new(es@.len(), |q: int| (es@[q].0@, es@[q].1@));
        if e >= n {
            assert(after =~= before + entries_from(inner@, i as int, sep));
            break;
        }
        assert(after + entries_from(inner@, e + 1, sep) =~= before + entries_from(inner@, i as int, sep));
        i = e + 1;
    }
    let ghost ev = Seq::new(es@.len(), |q: int| (es@[q].0@, es@[q].1@));
    assert(ev =~= all);
    // Fold into one pair per key, later pairs replacing earlier values.
    let mut r: Vec<(String, String)> = Vec::new();
    let mut j: usize = 0;
    while j < es.len()
        invariant
            j <= es@.len(),
            ev == Seq::new(es@.len(), |q: int| (es@[q].0@, es@[q].1@)),
            keys_unique(r@),
            forall|k: Seq<char>| #[trigger] pair_lookup(r@, k) == last_value(ev.take(j as int), k),
        decreases es@.len() - j,
    {
        let key = string_of(&es[j].0);
        let value = string_of(&es[j].1);
        let mut idx: usize = 0;
        while idx < r.len() && !crate::text::eq_str(&es[j].0, r[idx].0.as_str())
            invariant
                idx <= r@.len(),
                forall|q: int| 0 <= q < idx ==> r@[q].0@ != es@[j as int].0@,
            decreases r@.len() - idx,
        {
            idx += 1;
        }
        let ghost r0 = r@;
        assert(ev.take(j + 1).drop_last() =~= ev.take(j as int));
        assert(ev.take(j + 1).last() == ev[j as int]);
        if idx < r.len() {
            r.set(idx, (key, value));
            proof {
                assert forall|a: int, b: int| 0 <= a < b < r@.len() implies r@[a].0@ != r@[b].0@ by {
                    assert(r0[a].0@ != r0[b].0@);
                }
                assert forall|k: Seq<char>| #[trigger] pair_lookup(r@, k) == last_value(ev.take(j + 1), k) by {
                    lemma_lookup(r0, k);
                    lemma_lookup(r@, k);
                    if k == es@[j as int].0@ {
                        lemma_lookup_index(r@, k, idx as int);
                    } else {
                        if exists|q: int| 0 <= q < r0.len() && r0[q].0@ == k {
                            let q = choose|q: int| 0 <= q < r0.len() && r0[q].0@ == k;
                            lemma_lookup_index(r0, k, q);
                            lemma_lookup_index(r@, k, q);
                        } else {
                            assert forall|q: int| 0 <= q < r@.len() implies r@[q].0@ != k by {
                                if q != idx {
                                    assert(r@[q] == r0[q]);
                                }
                            }
                            lemma_lookup_absent(r@, k);
                            lemma_lookup_absent(r0, k);
                        }
                    }
                }
            }
        } else {
            r.push((key, value));
            proof {
                assert forall|a: int, b: int| 0 <= a < b < r@.len() implies r@[a].0@ != r@[b].0@ by {
                    if b < r0.len() {
                        assert(r0[a].0@ != r0[b].0@);
                    }
                }
                assert forall|k: Seq<char>| #[trigger] pair_lookup(r@, k) == last_value(ev.take(j + 1), k) by {
                    if k == es@[j as int].0@ {
                        lemma_lookup_index(r@, k, r0.len() as int);
                    } else {
                        if exists|q: int| 0 <= q < r0.len() && r0[q].0@ == k {
                            let q = choose|q: int| 0 <= q < r0.len() && r0[q].0@ == k;
                            lemma_lookup_index(r0, k, q);
                            lemma_lookup_index(r@, k, q);
                        } else {
                            lemma_lookup_absent(r0, k);
                            lemma_lookup_absent(r@, k);
                        }
                    }
                }
            }
        }
        j += 1;
    }
    assert(ev.take(es@.len() as int) =~= ev);
    r
}

// ---------------------------------------------------------------------------
// Split, convert, re-attach
// ---------------------------------------------------------------------------

/// The separator of a block's data lines: `=` in a `+++` block (a TOML
/// subset), `:` in a `---` block (a YAML subset). The closing delimiter
/// starts at `c`.
pub open spec fn data_sep(s: Seq<char>, c: int) -> char {
    if s[c] == '+' {
        '='
    } else {
        ':'
    }
}

/// Split Markdown into an optional [`Frontmatter`] and the body. Never
/// fails: returns `(None, input)` when no valid block is present.
pub fn parse_with_frontmatter(input: &str) -> (r: (Option<Frontmatter>, String))
    ensures
        match spec_split(input@) {
            None => r.0 is None && r.1@ == input@,
            Some((a, b, c, d)) => {
                &&& r.0 is Some
                &&& r.0->0.original@ == input@.take(a)
                &&& keys_unique(r.0->0.data@)
                &&& forall|k: Seq<char>| pair_lookup(r.0->0.data@, k) == last_value(
                    entries_from(input@.subrange(b, c), 0, data_sep(input@, c)),
                    k,
                )
                &&& r.1@ == input@.skip(d)
            },
        },
{
    let v = chars_of(input);
    match split_raw(&v) {
        None => (None, string_of(&v)),
        Some((a, b, c, d)) => {
            let original = slice(&v, 0, a);
            let inner = slice(&v, b, c);
            let body = slice(&v, d, v.len());
            // `+++` blocks hold `key = value` lines, `---` blocks `key: value`.
            let sep = if v[c] == '+' {
                '='
            } else {
                ':'
            };
            let data = parse_data(&inner, sep);
            assert(original@ =~= input@.take(a as int));
            assert(body@ =~= input@.skip(d as int));
            (Some(Frontmatter { original: string_of(&original), data }), string_of(&body))
        },
    }
}

/// Convert Markdown to HTML, keeping a leading metadata block aside:
/// the parsed [`Frontmatter`] (when present) plus the HTML of the body.
pub fn markdown_to_html_with_frontmatter(input: &str) -> (r: Result<
    (Option<Frontmatter>, String),
    crate::error::Error,
>)
    ensures
        r matches Ok((fm, html)) && (fm is Some <==> spec_split(input@) is Some)
            && html@ == crate::markdown_to_html::spec_convert(spec_strip_frontmatter(input@)),
{
    let (fm, body) = parse_with_frontmatter(input);
    assert(body@ =~= spec_strip_frontmatter(input@));
    match crate::markdown_to_html::convert(body.as_str()) {
        Ok(html) => Ok((fm, html)),
        Err(e) => Err(e),
    }
}

/// As [`markdown_to_html_with_frontmatter`], the body converted with
/// explicit options (see [`crate::markdown_to_html::convert_with`]).
pub fn markdown_to_html_with_frontmatter_with(input: &str, options: crate::Options) -> (r: Result<
    (Option<Frontmatter>, String),
    crate::error::Error,
>)
    ensures
        r matches Ok((fm, html)) && (fm is Some <==> spec_split(input@) is Some) && (!options.gfm
            ==> html@ == crate::markdown_to_html::spec_convert(spec_strip_frontmatter(input@))) && (options.gfm
            ==> crate::markdown_to_html::html_of_events(spec_strip_frontmatter(input@), true, None, html@)),
{
    let (fm, body) = parse_with_frontmatter(input);
    assert(body@ =~= spec_strip_frontmatter(input@));
    match crate::markdown_to_html::convert_with(body.as_str(), options) {
        Ok(html) => Ok((fm, html)),
        Err(e) => Err(e),
    }
}

/// As [`markdown_to_html_with_frontmatter`], the body converted with GFM.
pub fn markdown_to_html_with_frontmatter_gfm(input: &str) -> (r: Result<
    (Option<Frontmatter>, String),
    crate::error::Error,
>)
    ensures
        r matches Ok((fm, html)) && (fm is Some <==> spec_split(input@) is Some)
            && crate::markdown_to_html::html_of_events(spec_strip_frontmatter(input@), true, None, html@),
{
    markdown_to_html_with_frontmatter_with(input, crate::Options::gfm())
}

/// A `\r\n` pair starts at `i`.
pub open spec fn crlf_at(s: Seq<char>, i: int) -> bool {
    0 <= i < s.len() - 1 && s[i] == '\r' && s[i + 1] == '\n'
}

/// `\r\n` when the block text holds one, else `\n`.
pub open spec fn spec_newline(original: Seq<char>) -> Seq<char> {
    if exists|i: int| #[trigger] crlf_at(original, i) {
        seq!['\r', '\n']
    } else {
        seq!['\n']
    }
}

/// Re-attach frontmatter ahead of a body: the verbatim block text, a line
/// break in the block's own style (`\r\n` when the block holds one, else
/// `\n`), then the body.
pub fn prepend_frontmatter(frontmatter: &Frontmatter, body: &str) -> (r: String)
    ensures
        r@ == frontmatter.original@ + spec_newline(frontmatter.original@) + body@,
{
    let o = chars_of(frontmatter.original.as_str());
    let mut crlf = false;
    let mut i: usize = 0;
    while o.len() > 0 && i < o.len() - 1
        invariant
            i <= o@.len(),
            crlf == (exists|q: int| 0 <= q < i && #[trigger] crlf_at(o@, q)),
        decreases o@.len() - i,
    {
        if o[i] == '\r' && o[i + 1] == '\n' {
            crlf = true;
        }
        assert(crlf_at(o@, i as int) == (o@[i as int] == '\r' && o@[i + 1] == '\n'));
        i += 1;
    }
    assert(crlf == (exists|q: int| #[trigger] crlf_at(o@, q)));
    let mut out = crate::text::copy(&o);
    if crlf {
        out.push('\r');
    }
    out.push('\n');
    let b = chars_of(body);
    push_vec(&mut out, &b);
    string_of(&out)
}

/// End of the verbatim block text of a split document.
pub open spec fn block_end(s: Seq<char>) -> int {
    match spec_split(s) {
        Some((a, _, _, _)) => a,
        None => 0,
    }
}

/// Start of the body of a split document.
pub open spec fn body_start(s: Seq<char>) -> int {
    match spec_split(s) {
        Some((_, _, _, d)) => d,
        None => 0,
    }
}

/// Round trip on the Markdown side: splitting a document and re-attaching
/// its block text with [`prepend_frontmatter`]'s line break gives the
/// document back, whenever the closing delimiter line ends right after
/// the delimiter with the block's own line-break style.
pub proof fn law_frontmatter_round_trip(s: Seq<char>)
    requires
        spec_split(s) is Some,
        s.subrange(block_end(s), body_start(s)) == spec_newline(s.take(block_end(s))),
    ensures
        s.take(block_end(s)) + spec_newline(s.take(block_end(s))) + s.skip(body_start(s)) == s,
{
    let (a, b, c, d) = spec_split(s)->0;
    let st = bom_len(s);
    lemma_line_end(s, st);
    let delim = fence_of(s, st, line_end(s, st));
    lemma_find_close_bounds(s, line_end(s, st), delim);
    lemma_line_end(s, c);
    let lc = line_content(s, c, d);
    crate::text::lemma_trail_start_bounds(lc, 1, lc.len() as int);
    assert(fence_of(s, c, d).len() == 3);
    assert(a <= d);
    assert(s.take(a) + s.subrange(a, d) + s.skip(d) =~= s);
}

proof fn lemma_find_close_bounds(s: Seq<char>, pos: int, d: Seq<char>)
    requires
        0 <= pos <= s.len(),
    ensures
        find_close(s, pos, d) matches Some(p) ==> pos <= p <= s.len() && fence_of(
            s,
            p,
            line_end(s, p),
        ) == d,
    decreases s.len() - pos,
{
    lemma_line_end(s, pos);
    if fence_of(s, pos, line_end(s, pos)) != d && line_end(s, pos) < s.len() && line_end(s, pos) > pos {
        lemma_find_close_bounds(s, line_end(s, pos), d);
    }
}

// ---------------------------------------------------------------------------
// Line endings written as `\r\n`
// ---------------------------------------------------------------------------

/// Line feeds among the first `i` characters.
pub open spec fn nl_before(s: Seq<char>, i: int) -> int
    decreases i,
{
    if i <= 0 || i > s.len() {
        0
    } else {
        nl_before(s, i - 1) + (if s[i - 1] == '\n' {
            1int
        } else {
            0int
        })
    }
}

/// Where position `i` of `s` stands in `s` with `\r\n` line endings.
pub open spec fn crlf_pos(s: Seq<char>, i: int) -> int {
    i + nl_before(s, i)
}

proof fn lemma_crlf_concat(a: Seq<char>, b: Seq<char>)
    ensures
        crate::markdown_to_html::crlf_of(a + b) == crate::markdown_to_html::crlf_of(a) + crate::markdown_to_html::crlf_of(b),
    decreases a.len(),
{
    if a.len() == 0 {
        assert(a + b =~= b);
        assert(crate::markdown_to_html::crlf_of(a) =~= Seq::<char>::empty());
        assert(Seq::<char>::empty() + crate::markdown_to_html::crlf_of(b) =~= crate::markdown_to_html::crlf_of(b));
    } else {
        lemma_crlf_concat(a.drop_first(), b);
        assert((a + b).drop_first() =~= a.drop_first() + b);
        assert((a + b)[0] == a[0]);
        let h = if a[0] == '\n' {
            seq!['\r', '\n']
        } else {
            seq![a[0]]
        };
        assert(h + (crate::markdown_to_html::crlf_of(a.drop_first()) + crate::markdown_to_html::crlf_of(b))
            =~= (h + crate::markdown_to_html::crlf_of(a.drop_first())) + crate::markdown_to_html::crlf_of(b));
    }
}

proof fn lemma_crlf_take_len(s: Seq<char>, i: int)
    requires
        0 <= i <= s.len(),
    ensures
        crate::markdown_to_html::crlf_of(s.take(i)).len() == crlf_pos(s, i),
    decreases i,
{
    if i > 0 {
        lemma_crlf_take_len(s, i - 1);
        assert(s.take(i) =~= s.take(i - 1) + seq![s[i - 1]]);
        lemma_crlf_concat(s.take(i - 1), seq![s[i - 1]]);
        assert(seq![s[i - 1]].drop_first() =~= Seq::<char>::empty());
        assert(crate::markdown_to_html::crlf_of(Seq::<char>::empty()) =~= Seq::<char>::empty());
    }
}

/// `s` with `\r\n` endings is the part before `i` and the part after, each
/// with `\r\n` endings.
proof fn lemma_crlf_split(s: Seq<char>, i: int)
    requires
        0 <= i <= s.len(),
    ensures
        crate::markdown_to_html::crlf_of(s) == crate::markdown_to_html::crlf_of(s.take(i)) + crate::markdown_to_html::crlf_of(s.skip(i)),
        crate::markdown_to_html::crlf_of(s.take(i)).len() == crlf_pos(s, i),
{
    assert(s =~= s.take(i) + s.skip(i));
    lemma_crlf_concat(s.take(i), s.skip(i));
    lemma_crlf_take_len(s, i);
}

/// The characters at the image of position `i`.
proof fn lemma_crlf_at(s: Seq<char>, i: int)
    requires
        0 <= i < s.len(),
    ensures
        s[i] != '\n' ==> crate::markdown_to_html::crlf_of(s)[crlf_pos(s, i)] == s[i],
        s[i] == '\n' ==> crate::markdown_to_html::crlf_of(s)[crlf_pos(s, i)] == '\r'
            && crate::markdown_to_html::crlf_of(s)[crlf_pos(s, i) + 1] == '\n',
        crlf_pos(s, i + 1) == crlf_pos(s, i) + (if s[i] == '\n' {
            2int
        } else {
            1int
        }),
{
    lemma_crlf_split(s, i);
    let r = s.skip(i);
    assert(r[0] == s[i]);
    let t = crate::markdown_to_html::crlf_of(s.take(i));
    assert(crate::markdown_to_html::crlf_of(s)[crlf_pos(s, i)] == crate::markdown_to_html::crlf_of(r)[0]);
    if s[i] == '\n' {
        assert(crate::markdown_to_html::crlf_of(s)[crlf_pos(s, i) + 1] == crate::markdown_to_html::crlf_of(r)[1]);
    }
}

/// A subrange, with `\r\n` endings, is the image of the subrange.
proof fn lemma_crlf_sub(s: Seq<char>, a: int, b: int)
    requires
        0 <= a <= b <= s.len(),
    ensures
        crate::markdown_to_html::crlf_of(s).subrange(crlf_pos(s, a), crlf_pos(s, b)) == crate::markdown_to_html::crlf_of(s.subrange(a, b)),
        crlf_pos(s, a) <= crlf_pos(s, b) <= crate::markdown_to_html::crlf_of(s).len(),
{
    lemma_crlf_split(s, a);
    lemma_crlf_split(s, b);
    lemma_crlf_split(s, s.len() as int);
    assert(s.take(s.len() as int) =~= s);
    let sb = s.take(b);
    lemma_crlf_split(sb, a);
    assert(sb.take(a) =~= s.take(a));
    assert(sb.skip(a) =~= s.subrange(a, b));
    let c = crate::markdown_to_html::crlf_of(s);
    let ca = crate::markdown_to_html::crlf_of(s.take(a));
    let cm = crate::markdown_to_html::crlf_of(s.subrange(a, b));
    let cb = crate::markdown_to_html::crlf_of(s.take(b));
    assert(cb == ca + cm);
    assert(c == cb + crate::markdown_to_html::crlf_of(s.skip(b)));
    assert(c.subrange(ca.len() as int, cb.len() as int) =~= cm);
}

/// No carriage return in `s`.
pub open spec fn no_cr(s: Seq<char>) -> bool {
    forall|i: int| 0 <= i < s.len() ==> s[i] != '\r'
}

proof fn lemma_crlf_id(y: Seq<char>)
    requires
        forall|i: int| 0 <= i < y.len() ==> y[i] != '\n',
    ensures
        crate::markdown_to_html::crlf_of(y) == y,
    decreases y.len(),
{
    if y.len() > 0 {
        lemma_crlf_id(y.drop_first());
        assert(seq![y[0]] + y.drop_first() =~= y);
    }
}

proof fn lemma_pos_mono(s: Seq<char>, a: int, b: int)
    requires
        0 <= a <= b <= s.len(),
    ensures
        crlf_pos(s, a) <= crlf_pos(s, b),
        a < b ==> crlf_pos(s, a) < crlf_pos(s, b),
    decreases b - a,
{
    if a < b {
        lemma_crlf_at(s, b - 1);
        lemma_pos_mono(s, a, b - 1);
    }
}

proof fn lemma_crlf_next_nl(s: Seq<char>, i: int)
    requires
        0 <= i <= s.len(),
    ensures
        crate::text::next_nl(s, i) < s.len() ==> crate::text::next_nl(crate::markdown_to_html::crlf_of(s), crlf_pos(s, i))
            == crlf_pos(s, crate::text::next_nl(s, i)) + 1,
        crate::text::next_nl(s, i) >= s.len() ==> crate::text::next_nl(crate::markdown_to_html::crlf_of(s), crlf_pos(s, i))
            == crate::markdown_to_html::crlf_of(s).len(),
    decreases s.len() - i,
{
    let c = crate::markdown_to_html::crlf_of(s);
    lemma_crlf_split(s, s.len() as int);
    assert(s.take(s.len() as int) =~= s);
    assert(s.skip(s.len() as int) =~= Seq::<char>::empty());
    assert(crate::markdown_to_html::crlf_of(Seq::<char>::empty()) =~= Seq::<char>::empty());
    if i < s.len() {
        lemma_crlf_at(s, i);
        lemma_pos_mono(s, i + 1, s.len() as int);
        lemma_pos_mono(s, 0, i);
        let p = crlf_pos(s, i);
        if s[i] != '\n' {
            lemma_crlf_next_nl(s, i + 1);
            assert(crate::text::next_nl(s, i) == crate::text::next_nl(s, i + 1));
            assert(crate::text::next_nl(c, p) == crate::text::next_nl(c, p + 1));
        } else {
            assert(crate::text::next_nl(s, i) == i);
            assert(crate::text::next_nl(c, p + 1) == p + 1);
            assert(crate::text::next_nl(c, p) == crate::text::next_nl(c, p + 1));
        }
    }
}

proof fn lemma_crlf_line_end(s: Seq<char>, i: int)
    requires
        0 <= i <= s.len(),
    ensures
        line_end(crate::markdown_to_html::crlf_of(s), crlf_pos(s, i)) == crlf_pos(s, line_end(s, i)),
{
    lemma_crlf_next_nl(s, i);
    crate::text::lemma_next_nl(s, i);
    let e = crate::text::next_nl(s, i);
    lemma_crlf_split(s, s.len() as int);
    assert(s.take(s.len() as int) =~= s);
    assert(s.skip(s.len() as int) =~= Seq::<char>::empty());
    assert(crate::markdown_to_html::crlf_of(Seq::<char>::empty()) =~= Seq::<char>::empty());
    if e < s.len() {
        lemma_crlf_at(s, e);
        lemma_pos_mono(s, e + 1, s.len() as int);
    }
}

proof fn lemma_crlf_fence(s: Seq<char>, a: int)
    requires
        0 <= a <= s.len(),
        no_cr(s),
    ensures
        fence_of(crate::markdown_to_html::crlf_of(s), crlf_pos(s, a), crlf_pos(s, line_end(s, a)))
            == fence_of(s, a, line_end(s, a)),
{
    crate::text::lemma_next_nl(s, a);
    let e = crate::text::next_nl(s, a);
    let le = line_end(s, a);
    lemma_crlf_sub(s, a, le);
    let x = s.subrange(a, le);
    if e < s.len() {
        let y = s.subrange(a, e);
        assert(x =~= y + seq!['\n']);
        lemma_crlf_id(y);
        lemma_crlf_concat(y, seq!['\n']);
        assert(seq!['\n'].drop_first() =~= Seq::<char>::empty());
        assert(crate::markdown_to_html::crlf_of(Seq::<char>::empty()) =~= Seq::<char>::empty());
        assert(crate::markdown_to_html::crlf_of(seq!['\n']) =~= seq!['\r', '\n']);
        let cx = crate::markdown_to_html::crlf_of(x);
        assert(cx =~= y + seq!['\r', '\n']);
        assert(cx.drop_last() =~= y.push('\r'));
        assert(y.push('\r').drop_last() =~= y);
        assert(x.drop_last() =~= y);
        if y.len() > 0 {
            assert(y.last() == s[e - 1]);
        }
    } else {
        assert forall|k: int| 0 <= k < x.len() implies x[k] != '\n' by {
            assert(x[k] == s[a + k]);
        }
        lemma_crlf_id(x);
        if x.len() > 0 {
            assert(x.last() == s[le - 1]);
        }
    }
}

proof fn lemma_crlf_find_close(s: Seq<char>, pos: int, d: Seq<char>)
    requires
        0 <= pos <= s.len(),
        no_cr(s),
    ensures
        find_close(crate::markdown_to_html::crlf_of(s), crlf_pos(s, pos), d) == (match find_close(s, pos, d) {
            Some(q) => Some(crlf_pos(s, q)),
            None => None,
        }),
    decreases s.len() - pos,
{
    lemma_crlf_fence(s, pos);
    lemma_crlf_line_end(s, pos);
    lemma_line_end(s, pos);
    lemma_pos_mono(s, 0, pos);
    let le = line_end(s, pos);
    lemma_pos_mono(s, pos, le);
    lemma_pos_mono(s, le, s.len() as int);
    lemma_crlf_split(s, s.len() as int);
    assert(s.take(s.len() as int) =~= s);
    assert(s.skip(s.len() as int) =~= Seq::<char>::empty());
    assert(crate::markdown_to_html::crlf_of(Seq::<char>::empty()) =~= Seq::<char>::empty());
    if !(fence_of(s, pos, le) == d) && !(le >= s.len() || le <= pos) {
        lemma_crlf_find_close(s, le, d);
    }
}

proof fn lemma_crlf_mapping(x: Seq<char>, i: int)
    requires
        0 <= i <= x.len(),
        no_cr(x),
    ensures
        has_mapping_from(crate::markdown_to_html::crlf_of(x), crlf_pos(x, i)) == has_mapping_from(x, i),
    decreases x.len() - i,
{
    let c = crate::markdown_to_html::crlf_of(x);
    lemma_crlf_next_nl(x, i);
    crate::text::lemma_next_nl(x, i);
    let e = crate::text::next_nl(x, i);
    lemma_crlf_split(x, x.len() as int);
    assert(x.take(x.len() as int) =~= x);
    assert(x.skip(x.len() as int) =~= Seq::<char>::empty());
    assert(crate::markdown_to_html::crlf_of(Seq::<char>::empty()) =~= Seq::<char>::empty());
    lemma_pos_mono(x, 0, i);
    let y = x.subrange(i, e);
    assert forall|k: int| 0 <= k < y.len() implies y[k] != '\n' by {
        assert(y[k] == x[i + k]);
    }
    lemma_crlf_id(y);
    lemma_crlf_sub(x, i, e);
    lemma_pos_mono(x, i, e);
    if e < x.len() {
        lemma_crlf_at(x, e);
        let raw = c.subrange(crlf_pos(x, i), crlf_pos(x, e) + 1);
        let cs = c.subrange(crlf_pos(x, i), crlf_pos(x, e));
        assert(cs == y);
        lemma_pos_mono(x, e, x.len() as int);
        assert(raw =~= cs.push(c[crlf_pos(x, e)]));
        assert(raw =~= y.push('\r'));
        assert(raw.drop_last() =~= y);
        if y.len() > 0 {
            assert(y.last() == x[e - 1]);
        }
        lemma_pos_mono(x, e + 1, x.len() as int);
        lemma_crlf_mapping(x, e + 1);
    } else {
        if y.len() > 0 {
            assert(y.last() == x[e - 1]);
        }
    }
}

/// With `\r\n` line endings, an input has the same metadata block (at the
/// mapped positions) and its body is the body with `\r\n` endings.
pub(crate) proof fn lemma_crlf_strip(s: Seq<char>)
    requires
        no_cr(s),
    ensures
        spec_strip_frontmatter(crate::markdown_to_html::crlf_of(s)) == crate::markdown_to_html::crlf_of(spec_strip_frontmatter(s)),
{
    let c = crate::markdown_to_html::crlf_of(s);
    let st = bom_len(s);
    lemma_crlf_split(s, s.len() as int);
    assert(s.take(s.len() as int) =~= s);
    assert(s.skip(s.len() as int) =~= Seq::<char>::empty());
    assert(crate::markdown_to_html::crlf_of(Seq::<char>::empty()) =~= Seq::<char>::empty());
    if s.len() > 0 {
        lemma_crlf_at(s, 0);
        assert(crlf_pos(s, 0) == 0);
    }
    assert(bom_len(c) == st);
    if st == 1 {
        lemma_crlf_at(s, 0);
    }
    assert(crlf_pos(s, st) == st);
    let first_end = line_end(s, st);
    lemma_crlf_line_end(s, st);
    lemma_crlf_fence(s, st);
    lemma_line_end(s, st);
    let d = fence_of(s, st, first_end);
    lemma_crlf_find_close(s, first_end, d);
    match find_close(s, first_end, d) {
        Some(pos) => {
            lemma_find_close_bounds(s, first_end, d);
            lemma_crlf_sub(s, first_end, pos);
            let x = s.subrange(first_end, pos);
            assert(no_cr(x)) by {
                assert forall|k: int| 0 <= k < x.len() implies x[k] != '\r' by {
                    assert(x[k] == s[first_end + k]);
                }
            }
            lemma_crlf_mapping(x, 0);
            lemma_crlf_line_end(s, pos);
            lemma_line_end(s, pos);
            let body = line_end(s, pos);
            lemma_crlf_sub(s, body, s.len() as int);
        },
        None => {},
    }
}

/// The body of an input without carriage returns has none either.
pub(crate) proof fn lemma_strip_no_cr(s: Seq<char>)
    requires
        no_cr(s),
    ensures
        no_cr(spec_strip_frontmatter(s)),
        spec_strip_frontmatter(s).len() > 0 ==> spec_strip_frontmatter(s).last() == s.last(),
{
    let st = bom_len(s);
    lemma_line_end(s, st);
    let first_end = line_end(s, st);
    let d = fence_of(s, st, first_end);
    lemma_find_close_bounds(s, first_end, d);
    match find_close(s, first_end, d) {
        Some(pos) => {
            lemma_line_end(s, pos);
            let b = spec_strip_frontmatter(s);
            assert forall|i: int| 0 <= i < b.len() implies b[i] != '\r' by {
                match spec_split(s) {
                    Some((_, _, _, e)) => {
                        assert(b[i] == s[e + i]);
                    },
                    None => {},
                }
            }
            if b.len() > 0 {
                match spec_split(s) {
                    Some((_, _, _, e)) => {
                        assert(b.last() == s[e + b.len() - 1]);
                    },
                    None => {},
                }
            }
        },
        None => {},
    }
}

proof fn lemma_push_line_end(s: Seq<char>, i: int)
    requires
        0 <= i <= s.len(),
    ensures
        crate::text::next_nl(s, i) < s.len() ==> line_end(s.push('\n'), i) == line_end(s, i),
        crate::text::next_nl(s, i) >= s.len() ==> line_end(s.push('\n'), i) == (s.len() + 1) as int && line_end(s, i) == s.len(),
{
    crate::markdown_to_html::lemma_next_nl_push(s, i);
    crate::text::lemma_next_nl(s, i);
}

proof fn lemma_push_fence(s: Seq<char>, i: int)
    requires
        0 <= i <= s.len(),
        no_cr(s),
    ensures
        fence_of(s.push('\n'), i, line_end(s.push('\n'), i)) == fence_of(s, i, line_end(s, i)),
{
    let t = s.push('\n');
    lemma_push_line_end(s, i);
    crate::text::lemma_next_nl(s, i);
    let le = line_end(s, i);
    let lt = line_end(t, i);
    if crate::text::next_nl(s, i) < s.len() {
        assert(t.subrange(i, lt) =~= s.subrange(i, le));
    } else {
        let y = s.subrange(i, s.len() as int);
        assert(t.subrange(i, lt) =~= y.push('\n'));
        assert(y.push('\n').drop_last() =~= y);
        if y.len() > 0 {
            assert(y.last() == s[s.len() - 1]);
        }
        assert(line_content(t, i, lt) == line_content(s, i, le));
    }
}

proof fn lemma_push_find_close(s: Seq<char>, pos: int, d: Seq<char>)
    requires
        0 <= pos <= s.len(),
        no_cr(s),
        is_delimiter(d),
    ensures
        find_close(s.push('\n'), pos, d) == find_close(s, pos, d),
    decreases s.len() - pos,
{
    let t = s.push('\n');
    lemma_push_fence(s, pos);
    lemma_push_line_end(s, pos);
    lemma_line_end(s, pos);
    let le = line_end(s, pos);
    if crate::text::next_nl(s, pos) < s.len() {
        if fence_of(s, pos, le) != d && le > pos {
            lemma_push_find_close(s, le, d);
            if le == s.len() {
                lemma_push_fence(s, le);
                lemma_push_line_end(s, le);
                assert(s.subrange(le, le) =~= Seq::<char>::empty());
                assert(spec_trim_end(Seq::<char>::empty(), 1) =~= Seq::<char>::empty());
                assert(find_close(s, le, d) is None);
            }
        }
    } else {
        if fence_of(s, pos, le) != d {
            assert(t.subrange((s.len() + 1) as int, (s.len() + 1) as int) =~= Seq::<char>::empty());
        }
    }
}

/// A final line feed added to an input without one is a final line feed
/// added to its body, except where the input ends on its closing fence,
/// whose body stays empty.
pub(crate) proof fn lemma_push_strip(s: Seq<char>)
    requires
        no_cr(s),
        s.len() > 0,
        s.last() != '\n',
    ensures
        (spec_strip_frontmatter(s.push('\n')) == spec_strip_frontmatter(s).push('\n')) || (spec_strip_frontmatter(
            s.push('\n'),
        ).len() == 0 && spec_strip_frontmatter(s).len() == 0),
{
    let t = s.push('\n');
    assert(t[0] == s[0]);
    let st = bom_len(s);
    assert(bom_len(t) == st);
    lemma_push_line_end(s, st);
    lemma_push_fence(s, st);
    lemma_line_end(s, st);
    let fe = line_end(s, st);
    let d = fence_of(s, st, fe);
    if is_delimiter(d) {
        lemma_find_close_bounds(s, fe, d);
        if crate::text::next_nl(s, st) < s.len() {
            lemma_push_find_close(s, fe, d);
        } else {
            assert(fe == s.len());
            lemma_push_find_close(s, fe, d);
            assert(line_end(t, st) == (s.len() + 1) as int);
            assert(find_close(t, (s.len() + 1) as int, d) is None) by {
                assert(t.subrange((s.len() + 1) as int, line_end(t, (s.len() + 1) as int)) =~= Seq::<char>::empty());
                assert(spec_trim_end(Seq::<char>::empty(), 1) =~= Seq::<char>::empty());
            }
            assert(find_close(s, fe, d) is None) by {
                assert(s.subrange(s.len() as int, line_end(s, s.len() as int)) =~= Seq::<char>::empty());
                assert(spec_trim_end(Seq::<char>::empty(), 1) =~= Seq::<char>::empty());
            }
        }
        match find_close(s, fe, d) {
            Some(pos) => {
                if crate::text::next_nl(s, st) < s.len() {
                    assert(t.subrange(fe, pos) =~= s.subrange(fe, pos));
                    lemma_push_line_end(s, pos);
                    lemma_line_end(s, pos);
                    let body = line_end(s, pos);
                    if crate::text::next_nl(s, pos) < s.len() {
                        assert(t.subrange(body, t.len() as int) =~= s.subrange(body, s.len() as int).push('\n'));
                    }
                }
            },
            None => {},
        }
    }
}

// ---------------------------------------------------------------------------
// YAML data of a `---` block
// ---------------------------------------------------------------------------

#[verifier::external_type_specification]
#[verifier::external_body]
pub struct ExYaml(yaml_rust::Yaml);

/// A YAML value, as yaml-rust gives it: reals kept as their text, mappings
/// as key/value pairs in order, `Bad` for what is not valid YAML.
#[derive(Debug, PartialEq)]
pub enum YamlValue {
    Null,
    Bool(bool),
    Int(i64),
    Real(String),
    Str(String),
    List(Vec<YamlValue>),
    Pairs(Vec<(YamlValue, YamlValue)>),
    Alias(usize),
    Bad,
}

/// The documents yaml-rust reads from `s`, or `None` where it reports an
/// error. The parse is yaml-rust's; it is named, not restated.
pub uninterp spec fn yaml_docs(s: Seq<char>) -> Option<Seq<YamlValue>>;

/// One yaml-rust value as a [`YamlValue`], variant for variant.
#[verifier::external_body]
fn yaml_value(y: yaml_rust::Yaml) -> YamlValue {
    match y {
        yaml_rust::Yaml::Real(s) => YamlValue::Real(s),
        yaml_rust::Yaml::Integer(i) => YamlValue::Int(i),
        yaml_rust::Yaml::String(s) => YamlValue::Str(s),
        yaml_rust::Yaml::Boolean(b) => YamlValue::Bool(b),
        yaml_rust::Yaml::Array(v) => YamlValue::List(v.into_iter().map(yaml_value).collect()),
        yaml_rust::Yaml::Hash(h) => YamlValue::Pairs(h.into_iter().map(|(k, v)| (yaml_value(k), yaml_value(v))).collect()),
        yaml_rust::Yaml::Alias(n) => YamlValue::Alias(n),
        yaml_rust::Yaml::Null => YamlValue::Null,
        yaml_rust::Yaml::BadValue => YamlValue::Bad,
    }
}

/// `YamlLoader::load_from_str`: the documents of `s`, each converted, or
/// `None` where yaml-rust reports a scan error. The contract claims only
/// that the result is a function of `s` (the name [`yaml_docs`]).
#[verifier::external_body]
fn yaml_load(s: &str) -> (r: Option<Vec<YamlValue>>)
    ensures
        match r {
            Some(v) => yaml_docs(s@) == Some(v@),
            None => yaml_docs(s@) is None,
        },
{
    match yaml_rust::YamlLoader::load_from_str(s) {
        Ok(docs) => Some(docs.into_iter().map(yaml_value).collect()),
        Err(_) => None,
    }
}

/// The data of a block from what yaml-rust read: its last document,
/// `Null` for none, `Bad` where it is not valid YAML.
pub open spec fn spec_yaml_data(docs: Option<Seq<YamlValue>>) -> YamlValue {
    match docs {
        None => YamlValue::Bad,
        Some(d) => if d.len() == 0 {
            YamlValue::Null
        } else {
            d.last()
        },
    }
}

/// The YAML data of a leading `---` block: `None` where the input has no
/// metadata block or its block is a `+++` one (those hold the TOML subset
/// of [`Frontmatter::data`]).
pub fn frontmatter_yaml(input: &str) -> (r: Option<YamlValue>)
    ensures
        match spec_split(input@) {
            None => r is None,
            Some((_, b, c, _)) => if data_sep(input@, c) == ':' {
                r == Some(spec_yaml_data(yaml_docs(input@.subrange(b, c))))
            } else {
                r is None
            },
        },
{
    let v = chars_of(input);
    match split_raw(&v) {
        None => None,
        Some((_, b, c, _)) => {
            if v[c] == '+' {
                None
            } else {
                let inner = string_of(&slice(&v, b, c));
                match yaml_load(inner.as_str()) {
                    None => Some(YamlValue::Bad),
                    Some(mut docs) => {
                        match docs.pop() {
                            Some(last) => Some(last),
                            None => Some(YamlValue::Null),
                        }
                    },
                }
            }
        },
    }
}

} // verus!
