#![verifier::loop_isolation(false)]

//! Syntax-highlight hook for fenced code blocks.
//!
//! Adapter-hook pattern: a renderer calls back into a caller-supplied
//! [`SyntaxHighlighter`] when one is registered and otherwise emits the
//! escaped output. A `syntect`-backed adapter, [`SyntectAdapter`],
//! highlights with class-based spans.

use vstd::prelude::*;
use crate::html_escape::{push_escaped, spec_escape_html};
use crate::markdown_to_html::{clean_info_word, spec_info_word};
use crate::text::{chars_of, push_vec, slice, string_of};
use vstd::string::StringExecFns;

verus! {

broadcast use vstd::string::group_string_axioms;

/// The highlighter, if any, states its output for every language and code.
pub open spec fn hl_stated(hl: Option<&dyn SyntaxHighlighter>) -> bool {
    match hl {
        Some(h) => forall|lang: Seq<char>, code: Seq<char>| #[trigger] h.highlighted(lang, code) is Some,
        None => true,
    }
}

/// Callback for highlighted code-block content.
///
/// `lang` is the fence language from [`language_from_info`] (`""` for
/// indented code or fences without info). `code` is the verbatim block text
/// with a trailing `\n` when non-empty (see [`join_code_text`]).
/// Implementations push valid HTML for the code content only (the
/// surrounding `<pre><code ...>` wrapper stays with the caller) and escape
/// where they do not highlight.
pub trait SyntaxHighlighter {
    /// The HTML this highlighter gives for `code` in language `lang`, where
    /// it states it (by default it states nothing).
    open spec fn highlighted(&self, lang: Seq<char>, code: Seq<char>) -> Option<Seq<char>> {
        None
    }

    /// Append highlighted HTML for `code` (fence language `lang`) to `out`.
    fn write_highlighted(&self, out: &mut String, lang: &str, code: &str)
        ensures
            self.highlighted(lang@, code@) matches Some(h) ==> final(out)@ == old(out)@ + h,
    ;
}

/// Index of the first `,` at or after `i` (or the length).
pub open spec fn comma_at(s: Seq<char>, i: int) -> int
    decreases s.len() - i,
{
    if i < 0 || i >= s.len() {
        s.len() as int
    } else if s[i] == ',' {
        i
    } else {
        comma_at(s, i + 1)
    }
}

/// The fence language of an info string: its first word (escapes and
/// entities resolved), cut at the first `,` (`rust,ignore` gives `rust`).
pub open spec fn spec_language(info: Seq<char>) -> Seq<char> {
    let w = spec_info_word(info);
    w.take(comma_at(w, 0))
}

proof fn lemma_comma_at(s: Seq<char>, i: int)
    requires
        0 <= i <= s.len(),
    ensures
        i <= comma_at(s, i) <= s.len(),
    decreases s.len() - i,
{
    if i < s.len() && s[i] != ',' {
        lemma_comma_at(s, i + 1);
    }
}

/// Fence language for highlighting and `class="language-..."` output:
/// the first whitespace-delimited word of `info` (backslash escapes and
/// entities resolved), cut at the first `,` so rustdoc-style
/// `rust,ignore` / `rust,no_run` map to `rust`. Only `,` splits.
pub fn language_from_info(info: &str) -> (r: String)
    ensures
        r@ == spec_language(info@),
{
    let v = chars_of(info);
    let w = clean_info_word(&v);
    let mut k: usize = 0;
    while k < w.len() && w[k] != ','
        invariant
            k <= w@.len(),
            comma_at(w@, k as int) == comma_at(w@, 0),
        decreases w@.len() - k,
    {
        k += 1;
    }
    let cut = slice(&w, 0, k);
    assert(cut@ =~= w@.take(comma_at(w@, 0)));
    string_of(&cut)
}

/// Lines joined with `\n`, plus a trailing `\n` when there are any.
pub open spec fn spec_code_text(lines: Seq<Seq<char>>) -> Seq<char>
    decreases lines.len(),
{
    if lines.len() == 0 {
        Seq::empty()
    } else {
        spec_code_text(lines.drop_last()) + lines.last() + seq!['\n']
    }
}

/// Escaped lines, each followed by `\n`.
pub open spec fn spec_escaped_code(lines: Seq<Seq<char>>) -> Seq<char>
    decreases lines.len(),
{
    if lines.len() == 0 {
        Seq::empty()
    } else {
        spec_escaped_code(lines.drop_last()) + spec_escape_html(lines.last()) + seq!['\n']
    }
}

/// The views of a list of strings.
pub open spec fn views(lines: Seq<String>) -> Seq<Seq<char>> {
    Seq::new(lines.len(), |k: int| lines[k]@)
}

/// Join code lines: `\n` between lines and a trailing `\n` when non-empty.
pub fn join_code_text(lines: &[String]) -> (r: String)
    ensures
        r@ == spec_code_text(views(lines@)),
{
    let mut out: Vec<char> = Vec::new();
    let mut k: usize = 0;
    while k < lines.len()
        invariant
            k <= lines@.len(),
            out@ == spec_code_text(views(lines@.take(k as int))),
        decreases lines@.len() - k,
    {
        let l = chars_of(lines[k].as_str());
        push_vec(&mut out, &l);
        out.push('\n');
        proof {
            assert(views(lines@.take(k + 1)).drop_last() =~= views(lines@.take(k as int)));
            assert(views(lines@.take(k + 1)).last() == lines@[k as int]@);
        }
        k += 1;
    }
    assert(lines@.take(lines@.len() as int) =~= lines@);
    string_of(&out)
}

/// Escaped fallback when no highlighter is registered: each line escaped
/// and followed by `\n`.
pub fn push_escaped_code(lines: &[String], out: &mut String)
    ensures
        final(out)@ == old(out)@ + spec_escaped_code(views(lines@)),
{
    let mut acc: Vec<char> = Vec::new();
    let mut k: usize = 0;
    while k < lines.len()
        invariant
            k <= lines@.len(),
            acc@ == spec_escaped_code(views(lines@.take(k as int))),
        decreases lines@.len() - k,
    {
        let l = chars_of(lines[k].as_str());
        push_escaped(&mut acc, &l);
        acc.push('\n');
        proof {
            assert(views(lines@.take(k + 1)).drop_last() =~= views(lines@.take(k as int)));
            assert(views(lines@.take(k + 1)).last() == lines@[k as int]@);
        }
        k += 1;
    }
    assert(lines@.take(lines@.len() as int) =~= lines@);
    crate::text::push_chars(out, &acc);
}

// ---------------------------------------------------------------------------
// syntect adapter
// ---------------------------------------------------------------------------

#[verifier::external_type_specification]
#[verifier::external_body]
pub struct ExSyntaxSet(syntect::parsing::SyntaxSet);

#[verifier::external_type_specification]
#[verifier::external_body]
pub struct ExSyntaxReference(syntect::parsing::SyntaxReference);

#[verifier::external_type_specification]
#[verifier::external_body]
pub struct ExClassedGen<'a>(syntect::html::ClassedHTMLGenerator<'a>);

/// `SyntaxSet::find_syntax_by_token`: the syntax the set holds for a
/// language token (by extension, then by name), if any. What it finds
/// depends on the set; nothing is stated of it.
#[verifier::external_body]
fn syntax_by_token<'a>(set: &'a syntect::parsing::SyntaxSet, lang: &str) -> Option<&'a syntect::parsing::SyntaxReference> {
    set.find_syntax_by_token(lang)
}

/// `SyntaxSet::find_syntax_by_name`: the syntax of that name in the set,
/// if any. Nothing is stated of what the set holds.
#[verifier::external_body]
fn syntax_by_name<'a>(set: &'a syntect::parsing::SyntaxSet, name: &str) -> Option<&'a syntect::parsing::SyntaxReference> {
    set.find_syntax_by_name(name)
}

/// `ClassedHTMLGenerator::new_with_class_style` with spaced class names: a
/// generator for `syntax` over `set`.
#[verifier::external_body]
fn classed_gen<'a>(
    syntax: &'a syntect::parsing::SyntaxReference,
    set: &'a syntect::parsing::SyntaxSet,
) -> syntect::html::ClassedHTMLGenerator<'a> {
    syntect::html::ClassedHTMLGenerator::new_with_class_style(syntax, set, syntect::html::ClassStyle::Spaced)
}

/// `ClassedHTMLGenerator::parse_html_for_line_which_includes_newline`:
/// feeds one line to the generator; `true` where syntect reports an
/// error for it. Whether it does depends on the grammar; nothing is
/// stated of it.
#[verifier::external_body]
fn gen_line(generator: &mut syntect::html::ClassedHTMLGenerator, line: &str) -> (failed: bool) {
    generator.parse_html_for_line_which_includes_newline(line).is_err()
}

/// `ClassedHTMLGenerator::finalize`: the HTML of the lines fed, with the
/// open spans closed. Nothing is stated of its text.
#[verifier::external_body]
fn gen_finalize(generator: syntect::html::ClassedHTMLGenerator) -> String {
    generator.finalize()
}

/// The lines of `s[i..]`, each with its line feed (the last one without,
/// where the text does not end with one).
pub open spec fn lines_nl_from(s: Seq<char>, i: int) -> Seq<Seq<char>>
    decreases s.len() - i,
{
    if i < 0 || i >= s.len() {
        Seq::empty()
    } else {
        let e = crate::text::next_nl(s, i);
        if i <= e < s.len() {
            seq![s.subrange(i, e + 1)] + lines_nl_from(s, e + 1)
        } else {
            seq![s.subrange(i, s.len() as int)]
        }
    }
}

/// Split text into lines, each keeping its line feed.
pub fn lines_with_endings(s: &Vec<char>) -> (r: Vec<Vec<char>>)
    ensures
        crate::markdown_to_html::lines_view(r@) == lines_nl_from(s@, 0),
{
    let n = s.len();
    let mut r: Vec<Vec<char>> = Vec::new();
    let mut i: usize = 0;
    assert(crate::markdown_to_html::lines_view(r@) =~= Seq::<Seq<char>>::empty());
    while i < n
        invariant
            i <= n,
            n == s@.len(),
            crate::markdown_to_html::lines_view(r@) + lines_nl_from(s@, i as int) == lines_nl_from(s@, 0),
        decreases n - i,
    {
        let ghost r0 = crate::markdown_to_html::lines_view(r@);
        let mut e = i;
        while e < n && s[e] != '\n'
            invariant
                i <= e <= n,
                n == s@.len(),
                crate::text::next_nl(s@, e as int) == crate::text::next_nl(s@, i as int),
            decreases n - e,
        {
            e += 1;
        }
        let end = if e < n {
            e + 1
        } else {
            n
        };
        let piece = slice(s, i, end);
        r.push(piece);
        proof {
            assert(crate::markdown_to_html::lines_view(r@) =~= r0.push(piece@));
            assert(lines_nl_from(s@, i as int) =~= seq![piece@] + lines_nl_from(s@, end as int));
            assert(r0 + lines_nl_from(s@, i as int) =~= r0.push(piece@) + lines_nl_from(s@, end as int));
        }
        i = end;
    }
    assert(lines_nl_from(s@, n as int) =~= Seq::<Seq<char>>::empty());
    assert(crate::markdown_to_html::lines_view(r@) + Seq::<Seq<char>>::empty() =~= crate::markdown_to_html::lines_view(r@));
    r
}

/// The escaped texts, one after another.
pub open spec fn escaped_all(parts: Seq<Seq<char>>) -> Seq<char>
    decreases parts.len(),
{
    if parts.len() == 0 {
        Seq::empty()
    } else {
        escaped_all(parts.drop_last()) + spec_escape_html(parts.last())
    }
}

/// What the syntect adapter writes for `code`, given whether its language
/// is known, the lines syntect failed on and the generator's final HTML:
/// nothing for empty code; the code escaped for an unknown language;
/// otherwise the failed lines escaped, then the generator's HTML, with a
/// line feed added where that does not already end with one.
pub open spec fn spec_syntect_output(code: Seq<char>, known: bool, failed: Seq<Seq<char>>, finalized: Seq<char>) -> Seq<char> {
    if code.len() == 0 {
        Seq::empty()
    } else if !known {
        spec_escape_html(code)
    } else {
        let body = escaped_all(failed) + finalized;
        if body.len() > 0 && body.last() == '\n' {
            body
        } else {
            body.push('\n')
        }
    }
}

/// The adapter's output from what syntect gave (see [`spec_syntect_output`]).
pub fn syntect_output(code: &str, known: bool, failed_lines: &Vec<String>, finalized: &str) -> (r: String)
    ensures
        r@ == spec_syntect_output(code@, known, views(failed_lines@), finalized@),
{
    let c = chars_of(code);
    if c.len() == 0 {
        return String::new();
    }
    if !known {
        let mut out: Vec<char> = Vec::new();
        push_escaped(&mut out, &c);
        return string_of(&out);
    }
    let mut out: Vec<char> = Vec::new();
    let mut k: usize = 0;
    while k < failed_lines.len()
        invariant
            k <= failed_lines@.len(),
            out@ == escaped_all(views(failed_lines@).take(k as int)),
        decreases failed_lines@.len() - k,
    {
        let l = chars_of(failed_lines[k].as_str());
        push_escaped(&mut out, &l);
        proof {
            assert(views(failed_lines@).take(k + 1).drop_last() =~= views(failed_lines@).take(k as int));
        }
        k += 1;
    }
    assert(views(failed_lines@).take(failed_lines@.len() as int) =~= views(failed_lines@));
    let f = chars_of(finalized);
    push_vec(&mut out, &f);
    if !(out.len() > 0 && out[out.len() - 1] == '\n') {
        out.push('\n');
    }
    string_of(&out)
}

/// The lines whose flag is set.
pub open spec fn flagged(lines: Seq<Seq<char>>, flags: Seq<bool>) -> Seq<Seq<char>>
    decreases lines.len(),
{
    if lines.len() == 0 || flags.len() != lines.len() {
        Seq::empty()
    } else if flags.last() {
        flagged(lines.drop_last(), flags.drop_last()).push(lines.last())
    } else {
        flagged(lines.drop_last(), flags.drop_last())
    }
}

/// A `syntect`-backed [`SyntaxHighlighter`] emitting class-based spans
/// over a caller-supplied syntax set (load the `_newlines` variant).
pub struct SyntectAdapter<'a> {
    syntax_set: &'a syntect::parsing::SyntaxSet,
}

impl<'a> SyntectAdapter<'a> {
    /// Borrow a caller-supplied syntax set.
    pub fn new(syntax_set: &'a syntect::parsing::SyntaxSet) -> Self {
        SyntectAdapter { syntax_set }
    }

    /// The HTML for `code` in `lang`: empty for empty code; escaped where
    /// the set has no syntax for the language; otherwise the lines syntect
    /// fails on escaped, then its class-span HTML of the others, ending in
    /// a line feed. Which syntax the set holds, which lines fail and the
    /// span HTML are syntect's.
    pub fn highlight(&self, lang: &str, code: &str) -> (r: String)
        ensures
            exists|known: bool, flags: Seq<bool>, finalized: Seq<char>|
                flags.len() == lines_nl_from(code@, 0).len() && #[trigger] spec_syntect_output(
                    code@,
                    known,
                    flagged(lines_nl_from(code@, 0), flags),
                    finalized,
                ) == r@,
    {
        let c = chars_of(code);
        let lines = lines_with_endings(&c);
        let ghost lv = lines_nl_from(code@, 0);
        let by_token = syntax_by_token(self.syntax_set, lang);
        let known = by_token.is_some();
        let syntax = if lang.len() == 0 {
            syntax_by_name(self.syntax_set, "Plain Text")
        } else {
            by_token
        };
        let mut failed: Vec<String> = Vec::new();
        let mut fin = String::new();
        let ghost mut flags: Seq<bool> = Seq::empty();
        if c.len() > 0 && known {
            match syntax {
                Some(sy) => {
                    let mut generator = classed_gen(sy, self.syntax_set);
                    let mut k: usize = 0;
                    while k < lines.len()
                        invariant
                            k <= lines@.len(),
                            lv == crate::markdown_to_html::lines_view(lines@),
                            flags.len() == k,
                            views(failed@) == flagged(lv.take(k as int), flags),
                        decreases lines@.len() - k,
                    {
                        let line = string_of(&lines[k]);
                        let bad = gen_line(&mut generator, line.as_str());
                        let ghost f0 = views(failed@);
                        if bad {
                            failed.push(line);
                        }
                        proof {
                            assert(lv.take(k + 1).drop_last() =~= lv.take(k as int));
                            assert(flags.push(bad).drop_last() =~= flags);
                            assert(lv.take(k + 1).last() == lines@[k as int]@);
                            assert(views(failed@) =~= (if bad { f0.push(lines@[k as int]@) } else { f0 }));
                        }
                        proof {
                            flags = flags.push(bad);
                        }
                        k += 1;
                    }
                    assert(lv.take(lines@.len() as int) =~= lv);
                    fin = gen_finalize(generator);
                },
                None => {
                    proof {
                        flags = Seq::new(lv.len(), |i: int| false);
                        lemma_flagged_none(lv, flags);
                    }
                    assert(views(failed@) =~= Seq::<Seq<char>>::empty());
                },
            }
        } else {
            proof {
                flags = Seq::new(lv.len(), |i: int| false);
                lemma_flagged_none(lv, flags);
            }
            assert(views(failed@) =~= Seq::<Seq<char>>::empty());
        }
        let r = syntect_output(code, known, &failed, fin.as_str());
        assert(spec_syntect_output(code@, known, flagged(lv, flags), fin@) == r@);
        r
    }
}

proof fn lemma_flagged_none(lines: Seq<Seq<char>>, flags: Seq<bool>)
    requires
        flags.len() == lines.len(),
        forall|i: int| 0 <= i < flags.len() ==> !flags[i],
    ensures
        flagged(lines, flags) == Seq::<Seq<char>>::empty(),
    decreases lines.len(),
{
    if lines.len() > 0 {
        lemma_flagged_none(lines.drop_last(), flags.drop_last());
    }
}

impl SyntaxHighlighter for SyntectAdapter<'_> {
    fn write_highlighted(&self, out: &mut String, lang: &str, code: &str) {
        let h = self.highlight(lang, code);
        out.append(h.as_str());
    }
}

} // verus!
