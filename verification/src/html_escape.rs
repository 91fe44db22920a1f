//! HTML escaping and entity resolution.
//!
//! `escape_html` escapes the four characters `&`, `<`, `>`, `"`. Raw-HTML
//! passthrough is handled by the Markdown converter: per CommonMark, literal
//! HTML blocks and inline tags are emitted verbatim, so XSS sanitization is
//! the consumer's responsibility.
//!
//! `unescape_html` / `resolve_entity` cover the full HTML5 named-entity set
//! (embedded table) plus decimal/hex numeric entities.

use vstd::prelude::*;
use crate::entities::{entity_at, spec_entity, ENTITY_COUNT};
use crate::text::{
    chars_of, is_ascii_digit, is_ascii_hexdigit, push_vec, slice, spec_ascii_digit,
    spec_ascii_hexdigit, string_of,
};

verus! {

broadcast use vstd::string::group_string_axioms;

// ---------------------------------------------------------------------------
// Escaping
// ---------------------------------------------------------------------------

/// The escape of one character: `&`, `<`, `>`, `"` become entities.
pub open spec fn escape_char(c: char) -> Seq<char> {
    if c == '<' {
        seq!['&', 'l', 't', ';']
    } else if c == '>' {
        seq!['&', 'g', 't', ';']
    } else if c == '&' {
        seq!['&', 'a', 'm', 'p', ';']
    } else if c == '"' {
        seq!['&', 'q', 'u', 'o', 't', ';']
    } else {
        seq![c]
    }
}

/// HTML escape of a character sequence, character by character.
pub open spec fn spec_escape_html(s: Seq<char>) -> Seq<char>
    decreases s.len(),
{
    if s.len() == 0 {
        Seq::empty()
    } else {
        spec_escape_html(s.drop_last()) + escape_char(s.last())
    }
}

/// Append the HTML escape of `s` to `out`.
pub fn push_escaped(out: &mut Vec<char>, s: &Vec<char>)
    ensures
        final(out)@ == old(out)@ + spec_escape_html(s@),
{
    let mut i: usize = 0;
    while i < s.len()
        invariant
            i <= s.len(),
            out@ == old(out)@ + spec_escape_html(s@.take(i as int)),
        decreases s.len() - i,
    {
        let c = s[i];
        let ghost before = out@;
        if c == '<' {
            out.push('&');
            out.push('l');
            out.push('t');
            out.push(';');
        } else if c == '>' {
            out.push('&');
            out.push('g');
            out.push('t');
            out.push(';');
        } else if c == '&' {
            out.push('&');
            out.push('a');
            out.push('m');
            out.push('p');
            out.push(';');
        } else if c == '"' {
            out.push('&');
            out.push('q');
            out.push('u');
            out.push('o');
            out.push('t');
            out.push(';');
        } else {
            out.push(c);
        }
        assert(out@ =~= before + escape_char(c));
        assert(s@.take(i + 1).drop_last() =~= s@.take(i as int));
        i += 1;
    }
    assert(s@.take(s.len() as int) =~= s@);
}

/// HTML escape of a character sequence.
pub fn escape_chars(s: &Vec<char>) -> (r: Vec<char>)
    ensures
        r@ == spec_escape_html(s@),
{
    let mut r: Vec<char> = Vec::new();
    push_escaped(&mut r, s);
    assert(r@ =~= spec_escape_html(s@));
    r
}

/// Escape HTML special characters in a string.
///
/// Escapes `&`, `<`, `>`, `"`. A single quote is left as-is, matching
/// CommonMark reference renderers.
pub fn escape_html(input: &str) -> (r: String)
    ensures
        r@ == spec_escape_html(input@),
{
    let v = chars_of(input);
    string_of(&escape_chars(&v))
}

/// Escape a link destination/title for use inside an HTML attribute:
/// `&`, `<`, `>`, `"` are escaped, exactly as text is.
pub fn escape_href(input: &str) -> (r: String)
    ensures
        r@ == spec_escape_html(input@),
{
    let v = chars_of(input);
    string_of(&escape_chars(&v))
}

// ---------------------------------------------------------------------------
// Percent-encoding of link destinations
// ---------------------------------------------------------------------------

/// Bytes kept verbatim by `clean_url`: ASCII alphanumerics and
/// `-_.~:/?#@!$&'()*+,;=%`.
pub open spec fn url_safe_byte(b: u8) -> bool {
    (65 <= b && b <= 90) || (97 <= b && b <= 122) || (48 <= b && b <= 57) || b == 45 || b
        == 95 || b == 46 || b == 126 || b == 58 || b == 47 || b == 63 || b == 35 || b == 64
        || b == 33 || b == 36 || b == 38 || b == 39 || b == 40 || b == 41 || b == 42 || b
        == 43 || b == 44 || b == 59 || b == 61 || b == 37
}

/// Upper-case hexadecimal digit of `n < 16`.
pub open spec fn hex_digit_upper(n: u8) -> char {
    if n < 10 {
        ((n + 48) as u8) as char
    } else {
        ((n + 55) as u8) as char
    }
}

/// Encoding of one byte: verbatim when safe, else `%XX`.
pub open spec fn clean_byte(b: u8) -> Seq<char> {
    if url_safe_byte(b) {
        seq![b as char]
    } else {
        seq!['%', hex_digit_upper(b / 16), hex_digit_upper(b % 16)]
    }
}

pub open spec fn spec_clean_bytes(bytes: Seq<u8>) -> Seq<char>
    decreases bytes.len(),
{
    if bytes.len() == 0 {
        Seq::empty()
    } else {
        spec_clean_bytes(bytes.drop_last()) + clean_byte(bytes.last())
    }
}

/// Percent-encoding of a destination: each byte of its UTF-8 encoding.
pub open spec fn spec_clean_url(url: Seq<char>) -> Seq<char> {
    spec_clean_bytes(vstd::utf8::encode_utf8(url))
}

/// Every character is a byte kept verbatim by `clean_url`.
pub open spec fn all_url_safe(s: Seq<char>) -> bool {
    forall|i: int| 0 <= i < s.len() ==> (#[trigger] s[i] as u32) < 128 && url_safe_byte(s[i] as u32 as u8)
}

proof fn lemma_safe_graphic(b: u8)
    requires
        url_safe_byte(b),
    ensures
        33 <= b <= 126,
{
}

proof fn lemma_clean_byte_safe(b: u8)
    ensures
        all_url_safe(clean_byte(b)),
{
    if !url_safe_byte(b) {
        let hi = b / 16;
        let lo = b % 16;
        assert(hi < 16 && lo < 16);
        assert(url_safe_byte(37));
    }
}

proof fn lemma_clean_bytes_safe(bytes: Seq<u8>)
    ensures
        all_url_safe(spec_clean_bytes(bytes)),
    decreases bytes.len(),
{
    if bytes.len() > 0 {
        lemma_clean_bytes_safe(bytes.drop_last());
        lemma_clean_byte_safe(bytes.last());
        let a = spec_clean_bytes(bytes.drop_last());
        let c = clean_byte(bytes.last());
        assert forall|i: int| 0 <= i < (a + c).len() implies (#[trigger] (a + c)[i] as u32) < 128
            && url_safe_byte((a + c)[i] as u32 as u8) by {
            if i < a.len() {
                assert((a + c)[i] == a[i]);
            } else {
                assert((a + c)[i] == c[i - a.len()]);
            }
        }
    }
}

pub(crate) proof fn lemma_low7(c: u32)
    by (bit_vector)
    requires
        c < 128,
    ensures
        (c & 0x7F) as u8 == c as u8,
{
}

/// The UTF-8 encoding of ASCII text is its characters as bytes.
proof fn lemma_encode_ascii(s: Seq<char>)
    requires
        forall|i: int| 0 <= i < s.len() ==> (#[trigger] s[i] as u32) < 128,
    ensures
        vstd::utf8::encode_utf8(s) == Seq::new(s.len(), |i: int| s[i] as u32 as u8),
    decreases s.len(),
{
    if s.len() > 0 {
        let r = s.drop_first();
        assert forall|i: int| 0 <= i < r.len() implies (#[trigger] r[i] as u32) < 128 by {
            assert(r[i] == s[i + 1]);
        }
        lemma_encode_ascii(r);
        assert((s[0] as u32) < 128);
        lemma_low7(s[0] as u32);
        assert(vstd::utf8::encode_scalar(s[0] as u32) =~= seq![s[0] as u32 as u8]);
        assert(vstd::utf8::encode_utf8(s) =~= Seq::new(s.len(), |i: int| s[i] as u32 as u8));
    }
}

/// Bytes all kept verbatim encode to themselves.
proof fn lemma_clean_bytes_id(s: Seq<char>)
    requires
        all_url_safe(s),
    ensures
        spec_clean_bytes(Seq::new(s.len(), |i: int| s[i] as u32 as u8)) == s,
    decreases s.len(),
{
    let bs = Seq::new(s.len(), |i: int| s[i] as u32 as u8);
    if s.len() > 0 {
        let t = s.drop_last();
        assert forall|i: int| 0 <= i < t.len() implies (#[trigger] t[i] as u32) < 128 && url_safe_byte(t[i] as u32 as u8) by {
            assert(t[i] == s[i]);
        }
        lemma_clean_bytes_id(t);
        assert(bs.drop_last() =~= Seq::new(t.len(), |i: int| t[i] as u32 as u8));
        let c = s.last();
        assert((s[s.len() - 1] as u32) < 128);
        let b = c as u32 as u8;
        assert(b as u32 == c as u32);
        assert((b as char) as u32 == b as u32);
        vstd::utf8::char_u32_cast(b as char, b as u32);
        vstd::utf8::char_u32_cast(c, c as u32);
        assert((b as char) == c);
        assert(spec_clean_bytes(bs) =~= s);
    }
}

/// Percent-encoding a destination twice gives what once gives, and what
/// it gives is printable ASCII (no space or control character).
pub proof fn law_clean_url(url: Seq<char>)
    ensures
        spec_clean_url(spec_clean_url(url)) == spec_clean_url(url),
        forall|i: int|
            0 <= i < spec_clean_url(url).len() ==> 33 <= (#[trigger] spec_clean_url(url)[i] as u32) <= 126,
{
    let s = spec_clean_url(url);
    lemma_clean_bytes_safe(vstd::utf8::encode_utf8(url));
    assert forall|i: int| 0 <= i < s.len() implies (#[trigger] s[i] as u32) < 128 by {}
    lemma_encode_ascii(s);
    lemma_clean_bytes_id(s);
    assert forall|i: int| 0 <= i < s.len() implies 33 <= (#[trigger] s[i] as u32) <= 126 by {
        lemma_safe_graphic(s[i] as u32 as u8);
    }
}

fn hex_upper(n: u8) -> (c: char)
    requires
        n < 16,
    ensures
        c == hex_digit_upper(n),
{
    if n < 10 {
        (n + 48) as char
    } else {
        (n + 55) as char
    }
}

/// Percent-encode a destination held as characters.
pub fn clean_url_chars(url: &Vec<char>) -> (r: Vec<char>)
    ensures
        r@ == spec_clean_url(url@),
{
    let s = string_of(url);
    let bytes = s.as_str().as_bytes();
    assert(bytes@ == vstd::utf8::encode_utf8(url@));
    let mut out: Vec<char> = Vec::new();
    let mut i: usize = 0;
    while i < bytes.len()
        invariant
            i <= bytes@.len(),
            bytes@ == vstd::utf8::encode_utf8(url@),
            out@ == spec_clean_bytes(bytes@.take(i as int)),
        decreases bytes@.len() - i,
    {
        let b = bytes[i];
        let ghost before = out@;
        if (65 <= b && b <= 90) || (97 <= b && b <= 122) || (48 <= b && b <= 57) || b == 45
            || b == 95 || b == 46 || b == 126 || b == 58 || b == 47 || b == 63 || b == 35 || b
            == 64 || b == 33 || b == 36 || b == 38 || b == 39 || b == 40 || b == 41 || b == 42
            || b == 43 || b == 44 || b == 59 || b == 61 || b == 37 {
            out.push(b as char);
        } else {
            out.push('%');
            out.push(hex_upper(b / 16));
            out.push(hex_upper(b % 16));
        }
        assert(out@ =~= before + clean_byte(b));
        assert(bytes@.take(i + 1).drop_last() =~= bytes@.take(i as int));
        i += 1;
    }
    assert(bytes@.take(bytes@.len() as int) =~= bytes@);
    out
}

/// Percent-encode a link destination (CommonMark reference behavior).
///
/// Encoding only, not a sanitizer: URL schemes are not filtered. Keeps
/// ASCII alphanumerics and `-_.~:/?#@!$&'()*+,;=%`; every other byte of
/// the UTF-8 encoding becomes `%XX`.
pub fn clean_url(url: &str) -> (r: String)
    ensures
        r@ == spec_clean_url(url@),
{
    let v = chars_of(url);
    string_of(&clean_url_chars(&v))
}

// ---------------------------------------------------------------------------
// Entities
// ---------------------------------------------------------------------------

/// First table entry at or after `i` whose name is `name`.
pub open spec fn lookup_from(name: Seq<char>, i: nat) -> Option<Seq<char>>
    decreases ENTITY_COUNT - i,
{
    if i >= ENTITY_COUNT {
        None
    } else if spec_entity(i as usize).0 == name {
        Some(spec_entity(i as usize).1)
    } else {
        lookup_from(name, i + 1)
    }
}

/// Replacement of a named entity body: the first table entry with that name.
pub open spec fn spec_lookup(name: Seq<char>) -> Option<Seq<char>> {
    lookup_from(name, 0)
}

fn eq_slice(a: &[char], b: &Vec<char>) -> (r: bool)
    ensures
        r == (a@ == b@),
{
    if a.len() != b.len() {
        return false;
    }
    let mut i: usize = 0;
    while i < a.len()
        invariant
            i <= a@.len(),
            a@.len() == b@.len(),
            forall|k: int| 0 <= k < i ==> a@[k] == b@[k],
        decreases a@.len() - i,
    {
        if a[i] != b[i] {
            return false;
        }
        i += 1;
    }
    assert(a@ =~= b@);
    true
}

/// Look a name up in the entity table (first match wins).
pub fn lookup_entity(name: &Vec<char>) -> (r: Option<Vec<char>>)
    ensures
        match r {
            Some(v) => spec_lookup(name@) == Some(v@),
            None => spec_lookup(name@) is None,
        },
{
    let mut i: usize = 0;
    while i < ENTITY_COUNT
        invariant
            i <= ENTITY_COUNT,
            spec_lookup(name@) == lookup_from(name@, i as nat),
        decreases ENTITY_COUNT - i,
    {
        let (k, c1, c2) = entity_at(i);
        if eq_slice(k, name) {
            let mut v: Vec<char> = Vec::new();
            v.push(c1);
            match c2 {
                Some(c) => v.push(c),
                None => {},
            }
            assert(v@ =~= spec_entity(i).1);
            return Some(v);
        }
        i += 1;
    }
    None
}

/// Resolve a single entity body (text between `&` and `;`, without either)
/// to its replacement. Returns `None` for unknown entities and for numeric
/// bodies (`#…`, handled by [`decode_entity_token`]).
pub fn resolve_entity(body: &str) -> (r: Option<String>)
    ensures
        match r {
            Some(v) => body@.len() > 0 && body@[0] != '#' && spec_lookup(body@) == Some(v@),
            None => body@.len() == 0 || body@[0] == '#' || spec_lookup(body@) is None,
        },
{
    let b = chars_of(body);
    if b.len() == 0 {
        return None;
    }
    if b[0] == '#' {
        return None;
    }
    match lookup_entity(&b) {
        Some(v) => Some(string_of(&v)),
        None => None,
    }
}

/// Numeric value of a hexadecimal digit.
pub open spec fn hex_val(c: char) -> nat {
    if spec_ascii_digit(c) {
        (c as u32 - 48) as nat
    } else if 65 <= (c as u32) && (c as u32) <= 70 {
        (c as u32 - 55) as nat
    } else {
        (c as u32 - 87) as nat
    }
}

/// Value of a digit string in the given radix.
pub open spec fn digits_value(s: Seq<char>, radix: nat) -> nat
    decreases s.len(),
{
    if s.len() == 0 {
        0
    } else {
        digits_value(s.drop_last(), radix) * radix + hex_val(s.last())
    }
}

/// Character for a numeric reference: NUL, surrogates and out-of-range
/// values become U+FFFD.
pub open spec fn spec_replacement_char(cp: nat) -> char {
    if cp == 0 || (0xD800 <= cp && cp < 0xE000) || cp > 0x10FFFF {
        '\u{FFFD}'
    } else {
        (cp as u32) as char
    }
}

pub open spec fn all_hex(s: Seq<char>) -> bool {
    forall|k: int| 0 <= k < s.len() ==> spec_ascii_hexdigit(#[trigger] s[k])
}

pub open spec fn all_dec(s: Seq<char>) -> bool {
    forall|k: int| 0 <= k < s.len() ==> spec_ascii_digit(#[trigger] s[k])
}

/// Decoding of a whole entity token `&…;`.
pub open spec fn spec_decode_entity(t: Seq<char>) -> Option<Seq<char>> {
    if t.len() < 3 || t[0] != '&' || t.last() != ';' {
        None
    } else {
        let body = t.subrange(1, t.len() - 1);
        if spec_lookup(body) is Some {
            spec_lookup(body)
        } else if body[0] == '#' && body.len() >= 2 && (body[1] == 'x' || body[1] == 'X') {
            let hex = body.skip(2);
            if hex.len() == 0 || hex.len() > 6 || !all_hex(hex) {
                None
            } else {
                Some(seq![spec_replacement_char(digits_value(hex, 16))])
            }
        } else if body[0] == '#' {
            let dec = body.skip(1);
            if dec.len() == 0 || dec.len() > 7 || !all_dec(dec) {
                None
            } else {
                Some(seq![spec_replacement_char(digits_value(dec, 10))])
            }
        } else {
            None
        }
    }
}

/// `char::from_u32`: `Some` exactly for Unicode scalar values.
#[verifier::external_body]
fn char_from_u32(cp: u32) -> (r: Option<char>)
    ensures
        vstd::utf8::is_scalar(cp) ==> r == Some(cp as char),
        !vstd::utf8::is_scalar(cp) ==> r is None,
{
    char::from_u32(cp)
}

fn replacement_char(cp: u32) -> (c: char)
    ensures
        c == spec_replacement_char(cp as nat),
{
    if cp == 0 || (0xD800 <= cp && cp < 0xE000) || cp > 0x10FFFF {
        '\u{FFFD}'
    } else {
        match char_from_u32(cp) {
            Some(c) => c,
            None => '\u{FFFD}',
        }
    }
}

pub open spec fn ipow(b: nat, e: nat) -> nat
    decreases e,
{
    if e == 0 {
        1
    } else {
        b * ipow(b, (e - 1) as nat)
    }
}

proof fn lemma_ipow_mono(b: nat, e1: nat, e2: nat)
    requires
        1 <= b,
        e1 <= e2,
    ensures
        ipow(b, e1) <= ipow(b, e2),
    decreases e2,
{
    if e1 < e2 {
        lemma_ipow_mono(b, e1, (e2 - 1) as nat);
        let p = ipow(b, (e2 - 1) as nat);
        assert(p <= b * p) by (nonlinear_arith)
            requires
                1 <= b,
        ;
    }
}

/// Value of the digit run `s[from..to]` (at most 7 digits).
fn parse_digits(s: &Vec<char>, from: usize, to: usize, radix: u32) -> (v: u32)
    requires
        from <= to <= s.len(),
        to - from <= 7,
        radix == 10 || radix == 16,
        radix == 16 ==> all_hex(s@.subrange(from as int, to as int)),
        radix == 10 ==> all_dec(s@.subrange(from as int, to as int)),
        radix == 16 ==> to - from <= 6,
    ensures
        v as nat == digits_value(s@.subrange(from as int, to as int), radix as nat),
{
    let mut v: u32 = 0;
    let mut i: usize = from;
    proof {
        reveal_with_fuel(ipow, 8);
    }
    assert(ipow(16, 6) == 16777216);
    assert(ipow(10, 6) == 1000000);
    while i < to
        invariant
            from <= i <= to <= s.len(),
            to - from <= 7,
            radix == 10 || radix == 16,
            radix == 16 ==> to - from <= 6,
            radix == 16 ==> all_hex(s@.subrange(from as int, to as int)),
            radix == 10 ==> all_dec(s@.subrange(from as int, to as int)),
            v as nat == digits_value(s@.subrange(from as int, i as int), radix as nat),
            v < ipow(radix as nat, (i - from) as nat),
            ipow(16, 6) == 16777216,
            ipow(10, 6) == 1000000,
        decreases to - i,
    {
        let ghost pre = s@.subrange(from as int, i as int);
        let ghost nxt = s@.subrange(from as int, i + 1);
        let c = s[i];
        assert(c == s@.subrange(from as int, to as int)[i - from]);
        let d: u32 = if 48 <= (c as u32) && (c as u32) <= 57 {
            (c as u32) - 48
        } else if 65 <= (c as u32) && (c as u32) <= 70 {
            (c as u32) - 55
        } else {
            (c as u32) - 87
        };
        assert(d as nat == hex_val(c));
        assert(d < radix);
        proof {
            lemma_ipow_mono(radix as nat, (i - from) as nat, 6);
            assert(ipow(radix as nat, 6) <= 16777216);
            assert(v * radix + d < 4294967296u64) by (nonlinear_arith)
                requires
                    v < 16777216,
                    radix <= 16,
                    d < radix,
            ;
            assert(v * radix + d < ipow(radix as nat, (i + 1 - from) as nat)) by (nonlinear_arith)
                requires
                    v < ipow(radix as nat, (i - from) as nat),
                    d < radix,
                    ipow(radix as nat, (i + 1 - from) as nat) == radix * ipow(
                        radix as nat,
                        (i - from) as nat,
                    ),
            ;
            assert(nxt.drop_last() =~= pre);
        }
        v = v * radix + d;
        i += 1;
    }
    v
}

/// Decode one entity (including `&` and `;`) into its replacement.
/// Handles named, decimal (`&#65;`) and hex (`&#x41;`) entities.
/// Returns `None` when the text is not a valid entity.
#[verifier::loop_isolation(false)]
pub fn decode_entity_chars(t: &Vec<char>) -> (r: Option<Vec<char>>)
    ensures
        match r {
            Some(v) => spec_decode_entity(t@) == Some(v@),
            None => spec_decode_entity(t@) is None,
        },
{
    let n = t.len();
    if n < 3 || t[0] != '&' || t[n - 1] != ';' {
        return None;
    }
    let body = slice(t, 1, n - 1);
    assert(body@ == t@.subrange(1, t@.len() - 1));
    match lookup_entity(&body) {
        Some(v) => {
            return Some(v);
        },
        None => {},
    }
    let bl = body.len();
    if body[0] == '#' && bl >= 2 && (body[1] == 'x' || body[1] == 'X') {
        let hl = bl - 2;
        if hl == 0 || hl > 6 {
            return None;
        }
        let mut k: usize = 2;
        while k < bl
            invariant
                2 <= k <= bl,
                bl == body@.len(),
                forall|q: int| 2 <= q < k ==> spec_ascii_hexdigit(#[trigger] body@[q]),
            decreases bl - k,
        {
            if !is_ascii_hexdigit(body[k]) {
                assert(!spec_ascii_hexdigit(body@.skip(2)[k - 2]));
                return None;
            }
            k += 1;
        }
        assert(all_hex(body@.skip(2))) by {
            assert forall|q: int| 0 <= q < body@.skip(2).len() implies spec_ascii_hexdigit(
                #[trigger] body@.skip(2)[q],
            ) by {
                assert(body@.skip(2)[q] == body@[q + 2]);
            }
        }
        assert(body@.subrange(2, bl as int) =~= body@.skip(2));
        let cp = parse_digits(&body, 2, bl, 16);
        let mut out: Vec<char> = Vec::new();
        out.push(replacement_char(cp));
        assert(out@ =~= seq![spec_replacement_char(digits_value(body@.skip(2), 16))]);
        return Some(out);
    }
    if body[0] == '#' {
        let dl = bl - 1;
        if dl == 0 || dl > 7 {
            return None;
        }
        let mut k: usize = 1;
        while k < bl
            invariant
                1 <= k <= bl,
                bl == body@.len(),
                forall|q: int| 1 <= q < k ==> spec_ascii_digit(#[trigger] body@[q]),
            decreases bl - k,
        {
            if !is_ascii_digit(body[k]) {
                assert(!spec_ascii_digit(body@.skip(1)[k - 1]));
                return None;
            }
            k += 1;
        }
        assert(all_dec(body@.skip(1))) by {
            assert forall|q: int| 0 <= q < body@.skip(1).len() implies spec_ascii_digit(
                #[trigger] body@.skip(1)[q],
            ) by {
                assert(body@.skip(1)[q] == body@[q + 1]);
            }
        }
        assert(body@.subrange(1, bl as int) =~= body@.skip(1));
        let cp = parse_digits(&body, 1, bl, 10);
        let mut out: Vec<char> = Vec::new();
        out.push(replacement_char(cp));
        assert(out@ =~= seq![spec_replacement_char(digits_value(body@.skip(1), 10))]);
        return Some(out);
    }
    None
}

/// Decode one entity token (`&` through `;`) into its replacement string.
pub fn decode_entity_token(token: &str) -> (r: Option<String>)
    ensures
        match r {
            Some(v) => spec_decode_entity(token@) == Some(v@),
            None => spec_decode_entity(token@) is None,
        },
{
    let t = chars_of(token);
    match decode_entity_chars(&t) {
        Some(v) => Some(string_of(&v)),
        None => None,
    }
}

// ---------------------------------------------------------------------------
// Unescaping
// ---------------------------------------------------------------------------

/// Where the scan for the `;` closing an entity started at `i` stops:
/// at the first `;`, at the end, or after 33 characters.
pub open spec fn semi_scan(c: Seq<char>, i: int, j: int) -> int
    decreases c.len() - j,
{
    if j < c.len() && c[j] != ';' && j - i < 33 {
        semi_scan(c, i, j + 1)
    } else {
        j
    }
}

/// Unescape of `c[i..]`: an `&` that starts a decodable `&…;` token (of at
/// most 34 characters) becomes its replacement; everything else is copied.
pub open spec fn unescape_from(c: Seq<char>, i: int) -> Seq<char>
    decreases c.len() - i,
{
    if i < 0 || i >= c.len() {
        Seq::empty()
    } else {
        let j = semi_scan(c, i, i + 1);
        if c[i] == '&' && i < j && j < c.len() && c[j] == ';' && spec_decode_entity(
            c.subrange(i, j + 1),
        ) is Some {
            spec_decode_entity(c.subrange(i, j + 1)).unwrap() + unescape_from(c, j + 1)
        } else {
            seq![c[i]] + unescape_from(c, i + 1)
        }
    }
}

pub open spec fn spec_unescape_html(s: Seq<char>) -> Seq<char> {
    unescape_from(s, 0)
}

proof fn lemma_semi_scan_bounds(c: Seq<char>, i: int, j: int)
    requires
        0 <= i < j,
    ensures
        j <= semi_scan(c, i, j),
        j <= c.len() ==> semi_scan(c, i, j) <= c.len(),
    decreases c.len() - j,
{
    if j < c.len() && c[j] != ';' && j - i < 33 {
        lemma_semi_scan_bounds(c, i, j + 1);
    }
}

/// Unescape the HTML entities of a character sequence.
pub fn unescape_chars(s: &Vec<char>) -> (r: Vec<char>)
    ensures
        r@ == spec_unescape_html(s@),
{
    let mut out: Vec<char> = Vec::new();
    let mut i: usize = 0;
    let n = s.len();
    while i < n
        invariant
            i <= n,
            n == s@.len(),
            out@ + unescape_from(s@, i as int) == spec_unescape_html(s@),
        decreases n - i,
    {
        if s[i] == '&' {
            let mut j = i + 1;
            while j < n && s[j] != ';' && (j - i) < 33
                invariant
                    i < j <= n,
                    n == s@.len(),
                    semi_scan(s@, i as int, j as int) == semi_scan(s@, i as int, i + 1),
                decreases n - j,
            {
                j += 1;
            }
            if j < n && s[j] == ';' {
                let entity = slice(s, i, j + 1);
                match decode_entity_chars(&entity) {
                    Some(rep) => {
                        let ghost before = out@;
                        push_vec(&mut out, &rep);
                        assert(out@ + unescape_from(s@, j + 1) == before + unescape_from(
                            s@,
                            i as int,
                        )) by {
                            assert(out@ + unescape_from(s@, j + 1) =~= before + (rep@
                                + unescape_from(s@, j + 1)));
                        }
                        i = j + 1;
                        continue;
                    },
                    None => {},
                }
            }
        }
        let ghost before = out@;
        out.push(s[i]);
        proof {
            if s@[i as int] == '&' {
                lemma_semi_scan_bounds(s@, i as int, i + 1);
            }
            assert(out@ + unescape_from(s@, i + 1) =~= before + (seq![s@[i as int]]
                + unescape_from(s@, i + 1)));
        }
        i += 1;
    }
    out
}

/// Unescape HTML entities in a string: the full named-entity table plus
/// numeric entities (`&#nnn;` `&#xhhh;`). Unknown entities pass through
/// unchanged.
pub fn unescape_html(input: &str) -> (r: String)
    ensures
        r@ == spec_unescape_html(input@),
{
    let v = chars_of(input);
    string_of(&unescape_chars(&v))
}

} // verus!

verus! {

// ---------------------------------------------------------------------------
// Unescaping undoes escaping
// ---------------------------------------------------------------------------

pub(crate) proof fn lemma_escape_concat(a: Seq<char>, b: Seq<char>)
    ensures
        spec_escape_html(a + b) == spec_escape_html(a) + spec_escape_html(b),
    decreases b.len(),
{
    if b.len() == 0 {
        assert(a + b =~= a);
        assert(spec_escape_html(a) + spec_escape_html(b) =~= spec_escape_html(a));
    } else {
        let b1 = b.drop_last();
        lemma_escape_concat(a, b1);
        assert((a + b).drop_last() =~= a + b1);
        assert((a + b).last() == b.last());
        assert(spec_escape_html(a + b) =~= spec_escape_html(a) + spec_escape_html(b));
    }
}

proof fn lemma_semi_scan_shift(p: Seq<char>, t: Seq<char>, i: int, j: int)
    requires
        p.len() <= i <= j,
    ensures
        semi_scan(p + t, i, j) == semi_scan(t, i - p.len(), j - p.len()) + p.len(),
    decreases (p + t).len() - j,
{
    let x = p + t;
    let q = p.len() as int;
    if j < x.len() {
        assert(x[j] == t[j - q]);
    }
    if j < x.len() && x[j] != ';' && j - i < 33 {
        lemma_semi_scan_shift(p, t, i, j + 1);
    }
}

proof fn lemma_unescape_shift(p: Seq<char>, t: Seq<char>, i: int)
    requires
        p.len() <= i,
    ensures
        unescape_from(p + t, i) == unescape_from(t, i - p.len()),
    decreases (p + t).len() - i,
{
    let x = p + t;
    let q = p.len() as int;
    let k = i - q;
    if i < x.len() {
        lemma_semi_scan_shift(p, t, i, i + 1);
        lemma_semi_scan_bounds(t, k, k + 1);
        let j = semi_scan(x, i, i + 1);
        let jt = semi_scan(t, k, k + 1);
        assert(j == jt + q);
        assert(x[i] == t[k]);
        if j < x.len() {
            assert(x[j] == t[jt]);
        }
        if i < j && j < x.len() {
            assert(x.subrange(i, j + 1) =~= t.subrange(k, jt + 1));
        }
        lemma_semi_scan_bounds(x, i, i + 1);
        lemma_unescape_shift(p, t, i + 1);
        if i < j && j < x.len() {
            lemma_unescape_shift(p, t, j + 1);
        }
    }
}

proof fn lemma_core_entities()
    ensures
        spec_lookup(seq!['l', 't']) == Some(seq!['<']),
        spec_lookup(seq!['g', 't']) == Some(seq!['>']),
        spec_lookup(seq!['a', 'm', 'p']) == Some(seq!['&']),
        spec_lookup(seq!['q', 'u', 'o', 't']) == Some(seq!['"']),
{
    reveal_with_fuel(lookup_from, 9);
    assert(spec_entity(0).0 =~= seq!['A', 'M', 'P']);
    assert(spec_entity(1).0 =~= seq!['a', 'm', 'p']);
    assert(spec_entity(2).0 =~= seq!['L', 'T']);
    assert(spec_entity(3).0 =~= seq!['l', 't']);
    assert(spec_entity(4).0 =~= seq!['G', 'T']);
    assert(spec_entity(5).0 =~= seq!['g', 't']);
    assert(spec_entity(6).0 =~= seq!['Q', 'U', 'O', 'T']);
    assert(spec_entity(7).0 =~= seq!['q', 'u', 'o', 't']);
    assert(seq!['A', 'M', 'P'] != seq!['a', 'm', 'p']) by {
        assert(seq!['A', 'M', 'P'][0] != seq!['a', 'm', 'p'][0]);
    }
    assert(seq!['L', 'T'] != seq!['l', 't']) by {
        assert(seq!['L', 'T'][0] != seq!['l', 't'][0]);
    }
    assert(seq!['G', 'T'] != seq!['g', 't']) by {
        assert(seq!['G', 'T'][0] != seq!['g', 't'][0]);
    }
    assert(seq!['Q', 'U', 'O', 'T'] != seq!['q', 'u', 'o', 't']) by {
        assert(seq!['Q', 'U', 'O', 'T'][0] != seq!['q', 'u', 'o', 't'][0]);
    }
    assert(seq!['l', 't'] != seq!['g', 't']) by {
        assert(seq!['l', 't'][0] != seq!['g', 't'][0]);
    }
    assert(seq!['L', 'T'] != seq!['g', 't']) by {
        assert(seq!['L', 'T'][0] != seq!['g', 't'][0]);
    }
    assert(seq!['G', 'T'] != seq!['l', 't']) by {
        assert(seq!['G', 'T'][0] != seq!['l', 't'][0]);
    }
    assert(spec_entity(1).1 =~= seq!['&']);
    assert(spec_entity(3).1 =~= seq!['<']);
    assert(spec_entity(5).1 =~= seq!['>']);
    assert(spec_entity(7).1 =~= seq!['"']);
}

proof fn lemma_unescape_entity(e: Seq<char>, c: char, t: Seq<char>)
    requires
        e == escape_char(c),
        c == '<' || c == '>' || c == '&' || c == '"',
    ensures
        unescape_from(e + t, 0) == seq![c] + unescape_from(e + t, e.len() as int),
{
    let x = e + t;
    lemma_core_entities();
    let n = e.len() as int;
    reveal_with_fuel(semi_scan, 7);
    assert(x[0] == '&');
    assert forall|k: int| 1 <= k < n - 1 implies x[k] != ';' by {
        assert(x[k] == e[k]);
    }
    assert(x[n - 1] == ';');
    assert(semi_scan(x, 0, 1) == n - 1);
    let body = x.subrange(0, n).subrange(1, n - 1);
    assert(x.subrange(0, n) =~= e);
    if c == '<' {
        assert(body =~= seq!['l', 't']);
    } else if c == '>' {
        assert(body =~= seq!['g', 't']);
    } else if c == '&' {
        assert(body =~= seq!['a', 'm', 'p']);
    } else {
        assert(body =~= seq!['q', 'u', 'o', 't']);
    }
    assert(spec_decode_entity(x.subrange(0, n)) == Some(seq![c]));
}

proof fn lemma_unescape_escape_from(s: Seq<char>)
    ensures
        unescape_from(spec_escape_html(s), 0) == s,
    decreases s.len(),
{
    if s.len() == 0 {
        assert(spec_escape_html(s) =~= Seq::<char>::empty());
    } else {
        let c = s[0];
        let rest = s.drop_first();
        assert(s =~= seq![c] + rest);
        lemma_escape_concat(seq![c], rest);
        assert(seq![c].drop_last() =~= Seq::<char>::empty());
        assert(seq![c].last() == c);
        reveal_with_fuel(spec_escape_html, 2);
        assert(spec_escape_html(seq![c]) =~= escape_char(c));
        let e = escape_char(c);
        let t = spec_escape_html(rest);
        assert(spec_escape_html(s) == e + t);
        lemma_unescape_shift(e, t, e.len() as int);
        lemma_unescape_escape_from(rest);
        if c == '<' || c == '>' || c == '&' || c == '"' {
            lemma_unescape_entity(e, c, t);
        } else {
            assert(e =~= seq![c]);
            assert((e + t)[0] == c);
        }
        assert(seq![c] + rest =~= s);
    }
}

/// Unescaping undoes escaping: for every string `s`,
/// `unescape_html(&escape_html(s)) == s`.
pub proof fn law_unescape_escape(s: Seq<char>)
    ensures
        spec_unescape_html(spec_escape_html(s)) == s,
{
    lemma_unescape_escape_from(s);
}

/// Escaped text carries no markup: no `<`, `>` or `"` survives, so the
/// result is safe as element text and inside a double-quoted attribute.
pub proof fn law_escape_no_markup(s: Seq<char>)
    ensures
        forall|i: int|
            0 <= i < spec_escape_html(s).len() ==> #[trigger] spec_escape_html(s)[i] != '<'
                && spec_escape_html(s)[i] != '>' && spec_escape_html(s)[i] != '"',
    decreases s.len(),
{
    if s.len() > 0 {
        law_escape_no_markup(s.drop_last());
        let a = spec_escape_html(s.drop_last());
        let b = escape_char(s.last());
        assert forall|i: int| 0 <= i < (a + b).len() implies #[trigger] (a + b)[i] != '<' && (a
            + b)[i] != '>' && (a + b)[i] != '"' by {
            if i >= a.len() {
                assert((a + b)[i] == b[i - a.len()]);
            }
        }
    }
}

} // verus!
