//! Character-sequence utilities shared by the converters.
//!
//! All text processing in this crate works on `Vec<char>` buffers whose view
//! is a `Seq<char>`; `&str` inputs are read into such buffers once and the
//! results are turned back into `String`s at the public boundary.

use vstd::prelude::*;

verus! {

broadcast use vstd::string::group_string_axioms;

// ---------------------------------------------------------------------------
// std functions that vstd does not specify
// ---------------------------------------------------------------------------

/// `String::push` appends one character.
pub assume_specification[ String::push ](string: &mut String, ch: char)
    ensures
        final(string)@ == old(string)@.push(ch),
;

/// Membership of a character in Unicode's `White_Space` set, for the
/// characters outside ASCII: U+0085, U+00A0, U+1680, U+2000..U+200A,
/// U+2028, U+2029, U+202F, U+205F and U+3000.
pub open spec fn unicode_whitespace(c: char) -> bool {
    let u = c as u32;
    u == 0x85 || u == 0xA0 || u == 0x1680 || (0x2000 <= u && u <= 0x200A) || u == 0x2028 || u
        == 0x2029 || u == 0x202F || u == 0x205F || u == 0x3000
}

/// Membership of a character in Unicode's `Alphabetic` or `Numeric` sets,
/// for the characters outside ASCII.
pub uninterp spec fn unicode_alphanumeric(c: char) -> bool;

/// Full Unicode lowercase mapping of a character sequence.
pub uninterp spec fn unicode_lowercase(s: Seq<char>) -> Seq<char>;

/// `char::is_whitespace`: the `White_Space` property: U+0009..U+000D and
/// the space inside ASCII, and the set of `unicode_whitespace` outside it.
#[verifier::external_body]
pub fn is_whitespace(c: char) -> (r: bool)
    ensures
        (c as u32) < 128 ==> r == (c == ' ' || (9 <= (c as u32) && (c as u32) <= 13)),
        (c as u32) >= 128 ==> r == unicode_whitespace(c),
{
    c.is_whitespace()
}

/// `char::is_alphanumeric`: `Alphabetic` or `Numeric`. Inside ASCII that is
/// exactly the letters and digits; elsewhere it is named.
#[verifier::external_body]
pub fn is_alphanumeric(c: char) -> (r: bool)
    ensures
        (c as u32) < 128 ==> r == spec_ascii_alnum(c),
        (c as u32) >= 128 ==> r == unicode_alphanumeric(c),
{
    c.is_alphanumeric()
}

/// `str::to_lowercase`: the full Unicode lowercase mapping (named); on
/// ASCII text it lowercases the letters A..Z and keeps every other
/// character.
#[verifier::external_body]
pub fn to_lowercase(s: &Vec<char>) -> (r: Vec<char>)
    ensures
        r@ == unicode_lowercase(s@),
        (forall|k: int| 0 <= k < s@.len() ==> (#[trigger] s@[k] as u32) < 128) ==> r@
            == spec_lower_ascii_seq(s@),
{
    let st: String = s.iter().collect();
    st.to_lowercase().chars().collect()
}

pub open spec fn spec_is_whitespace(c: char) -> bool {
    if (c as u32) < 128 {
        c == ' ' || (9 <= (c as u32) && (c as u32) <= 13)
    } else {
        unicode_whitespace(c)
    }
}

pub open spec fn spec_is_alphanumeric(c: char) -> bool {
    if (c as u32) < 128 {
        spec_ascii_alnum(c)
    } else {
        unicode_alphanumeric(c)
    }
}

// ---------------------------------------------------------------------------
// ASCII classification
// ---------------------------------------------------------------------------

pub open spec fn spec_ascii_digit(c: char) -> bool {
    48 <= (c as u32) && (c as u32) <= 57
}

pub open spec fn spec_ascii_upper(c: char) -> bool {
    65 <= (c as u32) && (c as u32) <= 90
}

pub open spec fn spec_ascii_lower(c: char) -> bool {
    97 <= (c as u32) && (c as u32) <= 122
}

pub open spec fn spec_ascii_alpha(c: char) -> bool {
    spec_ascii_upper(c) || spec_ascii_lower(c)
}

pub open spec fn spec_ascii_alnum(c: char) -> bool {
    spec_ascii_alpha(c) || spec_ascii_digit(c)
}

pub open spec fn spec_ascii_hexdigit(c: char) -> bool {
    spec_ascii_digit(c) || (65 <= (c as u32) && (c as u32) <= 70) || (97 <= (c as u32) && (c
        as u32) <= 102)
}

/// ASCII punctuation: `!`..`/`, `:`..`@`, `[`..`` ` ``, `{`..`~`.
pub open spec fn spec_ascii_punct(c: char) -> bool {
    let u = c as u32;
    (33 <= u && u <= 47) || (58 <= u && u <= 64) || (91 <= u && u <= 96) || (123 <= u && u
        <= 126)
}

/// Unicode general category Cc.
pub open spec fn spec_is_control(c: char) -> bool {
    (c as u32) <= 31 || (127 <= (c as u32) && (c as u32) <= 159)
}

pub open spec fn spec_lower_ascii(c: char) -> char {
    if spec_ascii_upper(c) {
        ((c as u32) + 32) as char
    } else {
        c
    }
}

pub open spec fn spec_lower_ascii_seq(s: Seq<char>) -> Seq<char> {
    Seq::new(s.len(), |i: int| spec_lower_ascii(s[i]))
}

pub fn is_ascii_digit(c: char) -> (r: bool)
    ensures
        r == spec_ascii_digit(c),
{
    let u = c as u32;
    48 <= u && u <= 57
}

pub fn is_ascii_alpha(c: char) -> (r: bool)
    ensures
        r == spec_ascii_alpha(c),
{
    let u = c as u32;
    (65 <= u && u <= 90) || (97 <= u && u <= 122)
}

pub fn is_ascii_alnum(c: char) -> (r: bool)
    ensures
        r == spec_ascii_alnum(c),
{
    let u = c as u32;
    (65 <= u && u <= 90) || (97 <= u && u <= 122) || (48 <= u && u <= 57)
}

pub fn is_ascii_hexdigit(c: char) -> (r: bool)
    ensures
        r == spec_ascii_hexdigit(c),
{
    let u = c as u32;
    (48 <= u && u <= 57) || (65 <= u && u <= 70) || (97 <= u && u <= 102)
}

pub fn is_ascii_punct(c: char) -> (r: bool)
    ensures
        r == spec_ascii_punct(c),
{
    let u = c as u32;
    (33 <= u && u <= 47) || (58 <= u && u <= 64) || (91 <= u && u <= 96) || (123 <= u && u
        <= 126)
}

pub fn is_control(c: char) -> (r: bool)
    ensures
        r == spec_is_control(c),
{
    let u = c as u32;
    u <= 31 || (127 <= u && u <= 159)
}

pub fn lower_ascii(c: char) -> (r: char)
    ensures
        r == spec_lower_ascii(c),
{
    let u = c as u32;
    if 65 <= u && u <= 90 {
        let b: u8 = (u + 32) as u8;
        let r = b as char;
        assert(r as u32 == u + 32);
        r
    } else {
        c
    }
}

// ---------------------------------------------------------------------------
// Conversions between `&str`, `String` and `Vec<char>`
// ---------------------------------------------------------------------------

/// The characters of a string slice.
pub fn chars_of(s: &str) -> (v: Vec<char>)
    ensures
        v@ == s@,
{
    let mut v: Vec<char> = Vec::new();
    for c in iter: s.chars()
        invariant
            iter.seq() == s@,
            v@ == iter.seq().take(iter.index()),
    {
        v.push(c);
    }
    v
}

/// A `String` holding the given characters.
pub fn string_of(v: &Vec<char>) -> (s: String)
    ensures
        s@ == v@,
{
    let mut s = String::new();
    let mut i: usize = 0;
    while i < v.len()
        invariant
            i <= v.len(),
            s@ == v@.take(i as int),
        decreases v.len() - i,
    {
        s.push(v[i]);
        i += 1;
        assert(s@ =~= v@.take(i as int));
    }
    assert(v@.take(v.len() as int) =~= v@);
    s
}

/// Append characters to a `String`.
pub fn push_chars(out: &mut String, v: &Vec<char>)
    ensures
        final(out)@ == old(out)@ + v@,
{
    let mut i: usize = 0;
    while i < v.len()
        invariant
            i <= v.len(),
            out@ == old(out)@ + v@.take(i as int),
        decreases v.len() - i,
    {
        out.push(v[i]);
        i += 1;
        assert(out@ =~= old(out)@ + v@.take(i as int));
    }
    assert(v@.take(v.len() as int) =~= v@);
}

/// Append the characters of a string slice.
pub fn push_str(out: &mut Vec<char>, s: &str)
    ensures
        final(out)@ == old(out)@ + s@,
{
    for c in iter: s.chars()
        invariant
            iter.seq() == s@,
            out@ == old(out)@ + iter.seq().take(iter.index()),
    {
        out.push(c);
        assert(out@ =~= old(out)@ + iter.seq().take(iter.index() + 1));
    }
    assert(s@.take(s@.len() as int) =~= s@);
}

/// Append a character sequence.
pub fn push_vec(out: &mut Vec<char>, v: &Vec<char>)
    ensures
        final(out)@ == old(out)@ + v@,
{
    let mut i: usize = 0;
    while i < v.len()
        invariant
            i <= v.len(),
            out@ == old(out)@ + v@.take(i as int),
        decreases v.len() - i,
    {
        out.push(v[i]);
        i += 1;
        assert(out@ =~= old(out)@ + v@.take(i as int));
    }
    assert(v@.take(v.len() as int) =~= v@);
}

/// The characters `v[from..to]`.
pub fn slice(v: &Vec<char>, from: usize, to: usize) -> (r: Vec<char>)
    requires
        from <= to <= v.len(),
    ensures
        r@ == v@.subrange(from as int, to as int),
{
    let mut r: Vec<char> = Vec::new();
    let mut i: usize = from;
    while i < to
        invariant
            from <= i <= to <= v.len(),
            r@ == v@.subrange(from as int, i as int),
        decreases to - i,
    {
        r.push(v[i]);
        i += 1;
        assert(r@ =~= v@.subrange(from as int, i as int));
    }
    r
}

/// A copy of a character sequence.
pub fn copy(v: &Vec<char>) -> (r: Vec<char>)
    ensures
        r@ == v@,
{
    let r = slice(v, 0, v.len());
    assert(v@.subrange(0, v@.len() as int) =~= v@);
    r
}

// ---------------------------------------------------------------------------
// Searching
// ---------------------------------------------------------------------------

/// `p` occurs in `v` at index `i`.
pub open spec fn matches_at(v: Seq<char>, i: int, p: Seq<char>) -> bool {
    0 <= i && i + p.len() <= v.len() && v.subrange(i, i + p.len()) == p
}

/// `p` occurs at `i` (character comparison).
pub fn starts_with_at(v: &Vec<char>, i: usize, p: &str) -> (r: bool)
    ensures
        r == matches_at(v@, i as int, p@),
{
    let pv = chars_of(p);
    if i > v.len() || pv.len() > v.len() - i {
        return false;
    }
    let mut k: usize = 0;
    while k < pv.len()
        invariant
            k <= pv@.len(),
            pv@ == p@,
            i + pv@.len() <= v@.len(),
            v@.len() == v.len(),
            forall|q: int| 0 <= q < k ==> v@[i + q] == pv@[q],
        decreases pv@.len() - k,
    {
        if v[i + k] != pv[k] {
            assert(v@.subrange(i as int, i + p@.len())[k as int] != p@[k as int]);
            return false;
        }
        k += 1;
    }
    assert(v@.subrange(i as int, i + p@.len()) =~= p@);
    true
}

/// First occurrence of the non-empty `p` at or after `from`.
pub fn find_from(v: &Vec<char>, from: usize, p: &str) -> (r: Option<usize>)
    requires
        p@.len() > 0,
    ensures
        match r {
            Some(k) => from <= k && matches_at(v@, k as int, p@) && forall|q: int|
                from <= q < k ==> !#[trigger] matches_at(v@, q, p@),
            None => forall|q: int| from <= q ==> !#[trigger] matches_at(v@, q, p@),
        },
{
    let mut k: usize = from;
    while k < v.len()
        invariant
            from <= k,
            forall|q: int| from <= q < k ==> !#[trigger] matches_at(v@, q, p@),
        decreases v.len() - k,
    {
        if starts_with_at(v, k, p) {
            return Some(k);
        }
        k += 1;
    }
    None
}

// ---------------------------------------------------------------------------
// Trimming
// ---------------------------------------------------------------------------

/// Character classes used for trimming: 0 is Unicode whitespace
/// (`char::is_whitespace`), 1 is space/tab, 2 is `#`, 3 is the space.
pub open spec fn in_class(cls: u8, c: char) -> bool {
    if cls == 0 {
        spec_is_whitespace(c)
    } else if cls == 1 {
        c == ' ' || c == '\t'
    } else if cls == 2 {
        c == '#'
    } else {
        c == ' '
    }
}

pub fn in_class_exec(cls: u8, c: char) -> (r: bool)
    ensures
        r == in_class(cls, c),
{
    if cls == 0 {
        is_whitespace(c)
    } else if cls == 1 {
        c == ' ' || c == '\t'
    } else if cls == 2 {
        c == '#'
    } else {
        c == ' '
    }
}

/// First index at or after `i` whose character is outside the class.
pub open spec fn lead_end(s: Seq<char>, cls: u8, i: int) -> int
    decreases s.len() - i,
{
    if 0 <= i < s.len() && in_class(cls, s[i]) {
        lead_end(s, cls, i + 1)
    } else {
        i
    }
}

/// Largest end `<= j` whose previous character is outside the class.
pub open spec fn trail_start(s: Seq<char>, cls: u8, j: int) -> int
    decreases j,
{
    if 0 < j <= s.len() && in_class(cls, s[j - 1]) {
        trail_start(s, cls, j - 1)
    } else {
        j
    }
}

pub open spec fn spec_trim_start(s: Seq<char>, cls: u8) -> Seq<char> {
    s.skip(lead_end(s, cls, 0))
}

pub open spec fn spec_trim_end(s: Seq<char>, cls: u8) -> Seq<char> {
    s.take(trail_start(s, cls, s.len() as int))
}

pub open spec fn spec_trim(s: Seq<char>, cls: u8) -> Seq<char> {
    spec_trim_end(spec_trim_start(s, cls), cls)
}

pub proof fn lemma_lead_end_bounds(s: Seq<char>, cls: u8, i: int)
    requires
        0 <= i <= s.len(),
    ensures
        i <= lead_end(s, cls, i) <= s.len(),
        forall|k: int| i <= k < lead_end(s, cls, i) ==> in_class(cls, #[trigger] s[k]),
        lead_end(s, cls, i) < s.len() ==> !in_class(cls, s[lead_end(s, cls, i)]),
    decreases s.len() - i,
{
    if i < s.len() && in_class(cls, s[i]) {
        lemma_lead_end_bounds(s, cls, i + 1);
    }
}

pub proof fn lemma_trail_start_bounds(s: Seq<char>, cls: u8, j: int)
    requires
        0 <= j <= s.len(),
    ensures
        0 <= trail_start(s, cls, j) <= j,
        forall|k: int| trail_start(s, cls, j) <= k < j ==> in_class(cls, #[trigger] s[k]),
        trail_start(s, cls, j) > 0 ==> !in_class(cls, s[trail_start(s, cls, j) - 1]),
    decreases j,
{
    if 0 < j && in_class(cls, s[j - 1]) {
        lemma_trail_start_bounds(s, cls, j - 1);
    }
}

/// Skip class characters forward from `from`.
pub fn skip_class(v: &Vec<char>, cls: u8, from: usize) -> (k: usize)
    requires
        from <= v.len(),
    ensures
        k as int == lead_end(v@, cls, from as int),
        from <= k <= v.len(),
{
    let mut k = from;
    while k < v.len() && in_class_exec(cls, v[k])
        invariant
            from <= k <= v.len(),
            lead_end(v@, cls, k as int) == lead_end(v@, cls, from as int),
        decreases v.len() - k,
    {
        k += 1;
    }
    k
}

/// Skip class characters backward from `to`.
pub fn back_class(v: &Vec<char>, cls: u8, to: usize) -> (k: usize)
    requires
        to <= v.len(),
    ensures
        k as int == trail_start(v@, cls, to as int),
        k <= to,
{
    let mut k = to;
    while k > 0 && in_class_exec(cls, v[k - 1])
        invariant
            k <= to <= v.len(),
            trail_start(v@, cls, k as int) == trail_start(v@, cls, to as int),
        decreases k,
    {
        k -= 1;
    }
    k
}

pub fn trim_start_class(v: &Vec<char>, cls: u8) -> (r: Vec<char>)
    ensures
        r@ == spec_trim_start(v@, cls),
{
    let a = skip_class(v, cls, 0);
    let r = slice(v, a, v.len());
    assert(r@ =~= v@.skip(a as int));
    r
}

pub fn trim_end_class(v: &Vec<char>, cls: u8) -> (r: Vec<char>)
    ensures
        r@ == spec_trim_end(v@, cls),
{
    let b = back_class(v, cls, v.len());
    let r = slice(v, 0, b);
    assert(r@ =~= v@.take(b as int));
    r
}

pub fn trim_class(v: &Vec<char>, cls: u8) -> (r: Vec<char>)
    ensures
        r@ == spec_trim(v@, cls),
{
    let t = trim_start_class(v, cls);
    trim_end_class(&t, cls)
}

/// `str::trim`: strip leading and trailing Unicode whitespace.
pub fn trim(v: &Vec<char>) -> (r: Vec<char>)
    ensures
        r@ == spec_trim(v@, 0),
{
    trim_class(v, 0)
}

/// True when every character is in the class.
pub open spec fn all_in_class(s: Seq<char>, cls: u8) -> bool {
    forall|k: int| 0 <= k < s.len() ==> in_class(cls, #[trigger] s[k])
}

pub fn all_class(v: &Vec<char>, cls: u8) -> (r: bool)
    ensures
        r == all_in_class(v@, cls),
{
    let k = skip_class(v, cls, 0);
    proof {
        lemma_lead_end_bounds(v@, cls, 0);
    }
    k == v.len()
}

/// Number of bytes in the UTF-8 encoding of a character.
pub open spec fn spec_utf8_len(c: char) -> nat {
    if (c as u32) < 0x80 {
        1
    } else if (c as u32) < 0x800 {
        2
    } else if (c as u32) < 0x10000 {
        3
    } else {
        4
    }
}

pub fn utf8_len(c: char) -> (n: usize)
    ensures
        n == spec_utf8_len(c),
        1 <= n <= 4,
{
    let u = c as u32;
    if u < 0x80 {
        1
    } else if u < 0x800 {
        2
    } else if u < 0x10000 {
        3
    } else {
        4
    }
}

/// True when `c` occurs in the string slice `set`.
pub fn char_in(c: char, set: &str) -> (r: bool)
    ensures
        r == set@.contains(c),
{
    let v = chars_of(set);
    let mut k: usize = 0;
    while k < v.len()
        invariant
            k <= v@.len(),
            v@ == set@,
            forall|q: int| 0 <= q < k ==> v@[q] != c,
        decreases v@.len() - k,
    {
        if v[k] == c {
            return true;
        }
        k += 1;
    }
    false
}

/// True when the character sequences are equal.
pub fn eq_vec(a: &Vec<char>, b: &Vec<char>) -> (r: bool)
    ensures
        r == (a@ == b@),
{
    if a.len() != b.len() {
        return false;
    }
    let mut i: usize = 0;
    while i < a.len()
        invariant
            i <= a@.len(),
            a@.len() == b@.len(),
            forall|k: int| 0 <= k < i ==> a@[k] == b@[k],
        decreases a@.len() - i,
    {
        if a[i] != b[i] {
            return false;
        }
        i += 1;
    }
    assert(a@ =~= b@);
    true
}

/// True when the sequence equals the literal.
pub fn eq_str(a: &Vec<char>, s: &str) -> (r: bool)
    ensures
        r == (a@ == s@),
{
    let b = chars_of(s);
    eq_vec(a, &b)
}

/// ASCII lowercase of every character.
pub fn lower_ascii_vec(v: &Vec<char>) -> (r: Vec<char>)
    ensures
        r@ == spec_lower_ascii_seq(v@),
{
    let mut r: Vec<char> = Vec::new();
    let mut i: usize = 0;
    while i < v.len()
        invariant
            i <= v@.len(),
            r@ == spec_lower_ascii_seq(v@.take(i as int)),
        decreases v@.len() - i,
    {
        r.push(lower_ascii(v[i]));
        i += 1;
        assert(r@ =~= spec_lower_ascii_seq(v@.take(i as int)));
    }
    assert(v@.take(v@.len() as int) =~= v@);
    r
}

// ---------------------------------------------------------------------------
// Lines
// ---------------------------------------------------------------------------

/// Position of the first `\n` at or after `i`, or the length.
pub open spec fn next_nl(s: Seq<char>, i: int) -> int
    decreases s.len() - i,
{
    if i < 0 || i >= s.len() {
        s.len() as int
    } else if s[i] == '\n' {
        i
    } else {
        next_nl(s, i + 1)
    }
}

pub proof fn lemma_next_nl(s: Seq<char>, i: int)
    requires
        0 <= i <= s.len(),
    ensures
        i <= next_nl(s, i) <= s.len(),
        next_nl(s, i) < s.len() ==> s[next_nl(s, i)] == '\n',
        forall|k: int| i <= k < next_nl(s, i) ==> s[k] != '\n',
    decreases s.len() - i,
{
    if i < s.len() && s[i] != '\n' {
        lemma_next_nl(s, i + 1);
    }
}

/// One line of `str::lines`: the text up to the line feed, without a
/// carriage return directly before it.
pub open spec fn line_text(s: Seq<char>, i: int) -> Seq<char> {
    let e = next_nl(s, i);
    if e < s.len() && e > i && s[e - 1] == '\r' {
        s.subrange(i, e - 1)
    } else {
        s.subrange(i, e)
    }
}

/// The lines of `s[i..]` per `str::lines`: split at `\n`, a `\r` before
/// the `\n` dropped, no final empty line after a trailing line feed.
pub open spec fn lines_from(s: Seq<char>, i: int) -> Seq<Seq<char>>
    decreases s.len() + 1 - i,
{
    if i < 0 || i >= s.len() {
        Seq::empty()
    } else if next_nl(s, i) < i || next_nl(s, i) > s.len() {
        Seq::empty()
    } else {
        seq![line_text(s, i)] + lines_from(s, next_nl(s, i) + 1)
    }
}

pub open spec fn spec_lines(s: Seq<char>) -> Seq<Seq<char>> {
    lines_from(s, 0)
}

/// `str::lines` on a character sequence.
#[verifier::loop_isolation(false)]
pub fn split_lines(v: &Vec<char>) -> (r: Vec<Vec<char>>)
    ensures
        r@.len() == spec_lines(v@).len(),
        forall|k: int| 0 <= k < r@.len() ==> #[trigger] r@[k]@ == spec_lines(v@)[k],
{
    let mut r: Vec<Vec<char>> = Vec::new();
    let mut i: usize = 0;
    let n = v.len();
    while i < n
        invariant
            i <= n,
            n == v@.len(),
            r@.len() + lines_from(v@, i as int).len() == spec_lines(v@).len(),
            forall|k: int| 0 <= k < r@.len() ==> #[trigger] r@[k]@ == spec_lines(v@)[k],
            forall|k: int| 0 <= k < lines_from(v@, i as int).len() ==> #[trigger] lines_from(v@, i as int)[k] == spec_lines(v@)[r@.len() + k],
        decreases n - i,
    {
        let mut e = i;
        while e < n && v[e] != '\n'
            invariant
                i <= e <= n,
                next_nl(v@, e as int) == next_nl(v@, i as int),
            decreases n - e,
        {
            e += 1;
        }
        let line = if e < n && e > i && v[e - 1] == '\r' {
            slice(v, i, e - 1)
        } else {
            slice(v, i, e)
        };
        proof {
            lemma_next_nl(v@, i as int);
            let rest = lines_from(v@, i as int);
            assert(rest[0] == line@);
            assert forall|k: int| 0 <= k < lines_from(v@, e + 1).len() implies #[trigger] lines_from(v@, e + 1)[k] == spec_lines(v@)[r@.len() + 1 + k] by {
                assert(lines_from(v@, e + 1)[k] == rest[k + 1]);
            }
        }
        r.push(line);
        if e >= n {
            assert(lines_from(v@, e + 1).len() == 0);
            i = n;
        } else {
            i = e + 1;
        }
    }
    r
}

/// Decimal digits of a number.
pub open spec fn spec_decimal(n: nat) -> Seq<char>
    decreases n,
{
    if n < 10 {
        seq![((n + 48) as u32) as char]
    } else {
        spec_decimal(n / 10) + seq![(((n % 10) + 48) as u32) as char]
    }
}

/// Append the decimal digits of `n`.
pub fn push_decimal(out: &mut Vec<char>, n: u32)
    ensures
        final(out)@ == old(out)@ + spec_decimal(n as nat),
    decreases n,
{
    if n < 10 {
        let c = ((n as u8) + 48) as char;
        out.push(c);
    } else {
        push_decimal(out, n / 10);
        let d = ((n % 10) as u8 + 48) as char;
        out.push(d);
    }
}

/// Append the decimal digits of a `usize`.
pub fn push_decimal_usize(out: &mut Vec<char>, n: usize)
    ensures
        final(out)@ == old(out)@ + spec_decimal(n as nat),
    decreases n,
{
    if n < 10 {
        let c = ((n as u8) + 48) as char;
        out.push(c);
    } else {
        push_decimal_usize(out, n / 10);
        let d = ((n % 10) as u8 + 48) as char;
        out.push(d);
    }
}

} // verus!
