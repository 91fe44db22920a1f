//! Inline fragments made of plain text and code spans parse back into
//! elements that render to the fragment itself, and render to HTML as
//! their escaped text and `<code>` spans.

use vstd::prelude::*;
use crate::inline_parser::{
    code_at, code_close_from, code_content, delims_upto, el_view, elem_md, elems_from,
    els_view, flush_els, flush_toks, il_run, list_md, spec_elems, spec_emph, spec_parse_inline,
    spec_parse_inline_text, spec_tokenize, strip_code_space, tok_from, tok_step, El, ITok, InlineElement,
    TState, RV, els_html,
};
use crate::html_escape::spec_escape_html;

verus! {

/// A character that the inline parser reads as text wherever it stands:
/// no line break, backtick, backslash, entity, tag, bracket or emphasis
/// character.
pub open spec fn plain_inline_char(c: char) -> bool {
    !(c == '\n' || c == '\r' || c == '`' || c == '\\' || c == '&' || c == '<' || c == '[' || c == ']'
        || c == '*' || c == '_')
}

/// The Markdown of a fragment given as pieces: a text piece as it stands,
/// a code piece (marked `true`) between single backticks.
pub open spec fn pieces_md(ps: Seq<(bool, Seq<char>)>) -> Seq<char>
    decreases ps.len(),
{
    if ps.len() == 0 {
        Seq::empty()
    } else {
        (if ps[0].0 {
            seq!['`'] + ps[0].1 + seq!['`']
        } else {
            ps[0].1
        }) + pieces_md(ps.drop_first())
    }
}

/// A piece of a plain fragment: non-empty, of plain characters, and a code
/// piece does not both open and close with a space.
pub open spec fn piece_ok(p: (bool, Seq<char>)) -> bool {
    &&& p.1.len() > 0
    &&& forall|j: int| 0 <= j < p.1.len() ==> plain_inline_char(#[trigger] p.1[j])
    &&& p.0 ==> !(p.1[0] == ' ' && p.1.last() == ' ')
}

/// Pieces of a plain fragment: each one fit, and no code piece right
/// after another.
pub open spec fn pieces_ok(ps: Seq<(bool, Seq<char>)>) -> bool {
    &&& forall|k: int| 0 <= k < ps.len() ==> piece_ok(#[trigger] ps[k])
    &&& forall|k: int| 0 <= k < ps.len() - 1 ==> !(#[trigger] ps[k].0 && ps[k + 1].0)
}

/// The tokens that pieces give after `toks` with pending text `buf`.
spec fn ptoks(toks: Seq<ITok>, buf: Seq<char>, ps: Seq<(bool, Seq<char>)>) -> Seq<ITok>
    decreases ps.len(),
{
    if ps.len() == 0 {
        flush_toks(toks, buf)
    } else if ps[0].0 {
        ptoks(flush_toks(toks, buf).push(ITok::Code(ps[0].1)), Seq::empty(), ps.drop_first())
    } else {
        ptoks(toks, buf + ps[0].1, ps.drop_first())
    }
}

spec fn tc_tok(t: ITok) -> bool {
    t is Text || t is Code
}

spec fn tc_only(ts: Seq<ITok>) -> bool {
    forall|k: int| 0 <= k < ts.len() ==> tc_tok(#[trigger] ts[k])
}

spec fn tok_md(t: ITok) -> Seq<char> {
    match t {
        ITok::Text(x) => x,
        ITok::Code(c) => seq!['`'] + c + seq!['`'],
        _ => Seq::empty(),
    }
}

spec fn toks_md(ts: Seq<ITok>) -> Seq<char>
    decreases ts.len(),
{
    if ts.len() == 0 {
        Seq::empty()
    } else {
        tok_md(ts[0]) + toks_md(ts.drop_first())
    }
}

spec fn tc_el(e: El) -> bool {
    e is Text || e is Code
}

spec fn tc_els(es: Seq<El>) -> bool {
    forall|k: int| 0 <= k < es.len() ==> tc_el(#[trigger] es[k])
}

spec fn el_md(e: El) -> Seq<char> {
    match e {
        El::Text(x) => x,
        El::Code(c) => seq!['`'] + c + seq!['`'],
        _ => Seq::empty(),
    }
}

spec fn els_md(es: Seq<El>) -> Seq<char>
    decreases es.len(),
{
    if es.len() == 0 {
        Seq::empty()
    } else {
        els_md(es.drop_last()) + el_md(es.last())
    }
}

proof fn lemma_toks_md_push(ts: Seq<ITok>, t: ITok)
    ensures
        toks_md(ts.push(t)) == toks_md(ts) + tok_md(t),
    decreases ts.len(),
{
    if ts.len() == 0 {
        assert(ts.push(t).drop_first() =~= Seq::<ITok>::empty());
        assert(ts.push(t)[0] == t);
        assert(toks_md(Seq::<ITok>::empty()) == Seq::<char>::empty());
        assert(tok_md(t) + Seq::<char>::empty() =~= tok_md(t));
        assert(Seq::<char>::empty() + tok_md(t) =~= tok_md(t));
    } else {
        lemma_toks_md_push(ts.drop_first(), t);
        assert(ts.push(t).drop_first() =~= ts.drop_first().push(t));
        assert(ts.push(t)[0] == ts[0]);
        assert(tok_md(ts[0]) + (toks_md(ts.drop_first()) + tok_md(t)) =~= (tok_md(ts[0]) + toks_md(
            ts.drop_first(),
        )) + tok_md(t));
    }
}

proof fn lemma_flush_md(ts: Seq<ITok>, buf: Seq<char>)
    requires
        tc_only(ts),
    ensures
        toks_md(flush_toks(ts, buf)) == toks_md(ts) + buf,
        tc_only(flush_toks(ts, buf)),
{
    if buf.len() > 0 {
        lemma_toks_md_push(ts, ITok::Text(buf));
        assert(tc_tok(ITok::Text(buf)));
    } else {
        assert(toks_md(ts) + buf =~= toks_md(ts));
    }
}

/// The pieces' tokens are text and code, and spell the pieces.
proof fn lemma_ptoks(toks: Seq<ITok>, buf: Seq<char>, ps: Seq<(bool, Seq<char>)>)
    requires
        tc_only(toks),
    ensures
        tc_only(ptoks(toks, buf, ps)),
        toks_md(ptoks(toks, buf, ps)) == toks_md(toks) + buf + pieces_md(ps),
    decreases ps.len(),
{
    if ps.len() == 0 {
        lemma_flush_md(toks, buf);
        assert(toks_md(toks) + buf + Seq::<char>::empty() =~= toks_md(toks) + buf);
    } else if ps[0].0 {
        lemma_flush_md(toks, buf);
        let f = flush_toks(toks, buf);
        lemma_toks_md_push(f, ITok::Code(ps[0].1));
        let t2 = f.push(ITok::Code(ps[0].1));
        assert(tc_only(t2)) by {
            assert forall|k: int| 0 <= k < t2.len() implies tc_tok(#[trigger] t2[k]) by {
                if k < f.len() {
                    assert(t2[k] == f[k]);
                }
            }
        }
        lemma_ptoks(t2, Seq::empty(), ps.drop_first());
        assert(toks_md(t2) + Seq::<char>::empty() + pieces_md(ps.drop_first()) =~= toks_md(toks) + buf + pieces_md(
            ps,
        ));
    } else {
        lemma_ptoks(toks, buf + ps[0].1, ps.drop_first());
        assert(toks_md(toks) + (buf + ps[0].1) + pieces_md(ps.drop_first()) =~= toks_md(toks) + buf + pieces_md(
            ps,
        ));
    }
}

/// Plain characters from the scan position to `e` join the pending text.
proof fn lemma_plain_run(s: Seq<char>, refs: RV, st: TState, e: int)
    requires
        0 <= st.i < e <= s.len(),
        forall|k: int| st.i <= k < e ==> plain_inline_char(#[trigger] s[k]),
        e < s.len() ==> s[e] != '[',
    ensures
        tok_from(s, refs, st) == tok_from(
            s,
            refs,
            TState { buf: st.buf + s.subrange(st.i, e), prev: Some(s[e - 1]), i: e, ..st },
        ),
    decreases e - st.i,
{
    let c = s[st.i];
    assert(plain_inline_char(c));
    let st2 = TState { buf: st.buf.push(c), prev: Some(c), i: st.i + 1, ..st };
    if st.i + 1 < e {
        assert(plain_inline_char(s[st.i + 1]));
    }
    assert(tok_step(s, refs, st) == st2);
    assert(tok_from(s, refs, st) == tok_from(s, refs, st2));
    if st.i + 1 < e {
        lemma_plain_run(s, refs, st2, e);
        assert(st.buf.push(c) + s.subrange(st.i + 1, e) =~= st.buf + s.subrange(st.i, e));
    } else {
        assert(st.buf.push(c) =~= st.buf + s.subrange(st.i, e));
    }
}

proof fn lemma_il_run_to(s: Seq<char>, k: int, e: int, cls: u8)
    requires
        0 <= k <= e <= s.len(),
        forall|j: int| k <= j < e ==> crate::inline_parser::il_class(cls, #[trigger] s[j]),
        e < s.len() ==> !crate::inline_parser::il_class(cls, s[e]),
    ensures
        il_run(s, k, cls) == e,
    decreases e - k,
{
    if k < e {
        lemma_il_run_to(s, k + 1, e, cls);
    }
}

proof fn lemma_code_content_plain(s: Seq<char>, k: int, j: int)
    requires
        0 <= k <= j <= s.len(),
        forall|x: int| k <= x < j ==> plain_inline_char(#[trigger] s[x]),
    ensures
        code_content(s, k, j) == s.subrange(k, j),
    decreases j - k,
{
    if k < j {
        assert(plain_inline_char(s[k]));
        lemma_code_content_plain(s, k + 1, j);
        assert(seq![s[k]] + s.subrange(k + 1, j) =~= s.subrange(k, j));
    } else {
        assert(s.subrange(k, j) =~= Seq::<char>::empty());
    }
}

/// A code piece at the scan position becomes one code token.
proof fn lemma_code_step(s: Seq<char>, refs: RV, st: TState, w: Seq<char>)
    requires
        piece_ok((true, w)),
        0 <= st.i,
        st.i + w.len() + 2 <= s.len(),
        s[st.i] == '`',
        s.subrange(st.i + 1, st.i + 1 + w.len()) == w,
        s[st.i + 1 + w.len()] == '`',
        st.i + w.len() + 2 < s.len() ==> s[st.i + w.len() + 2] != '`',
    ensures
        tok_step(s, refs, st) == (TState {
            toks: flush_toks(st.toks, st.buf).push(ITok::Code(w)),
            i: st.i + w.len() + 2,
            buf: Seq::empty(),
            prev: Some('x'),
            ..st
        }),
{
    let i = st.i;
    let j1 = i + 1 + w.len();
    assert forall|x: int| i + 1 <= x < j1 implies plain_inline_char(#[trigger] s[x]) by {
        assert(s[x] == w[x - i - 1]);
        assert(plain_inline_char(w[x - i - 1]));
    }
    assert(s[i + 1] == w[0]);
    lemma_il_run_to(s, i, i + 1, 1);
    lemma_il_run_to(s, i + 1, j1, 2);
    lemma_il_run_to(s, j1, j1 + 1, 1);
    assert(code_close_from(s, i + 1, 1) == Some(j1));
    lemma_code_content_plain(s, i + 1, j1);
    assert(strip_code_space(w) == w);
    assert(code_at(s, i) == Some((w, j1 + 1)));
}

/// The tokens of the rest of `s`, which spells `ps` from the scan
/// position on.
proof fn lemma_pieces_tok(s: Seq<char>, refs: RV, st: TState, ps: Seq<(bool, Seq<char>)>)
    requires
        pieces_ok(ps),
        0 <= st.i <= s.len(),
        s.subrange(st.i, s.len() as int) == pieces_md(ps),
    ensures
        tok_from(s, refs, st) == spec_emph(ptoks(st.toks, st.buf, ps)),
    decreases ps.len(),
{
    let n = s.len() as int;
    if ps.len() == 0 {
        assert(s.subrange(st.i, n).len() == 0);
    } else {
        let rest = ps.drop_first();
        let w = ps[0].1;
        assert(piece_ok(ps[0]));
        assert(pieces_ok(rest)) by {
            assert forall|k: int| 0 <= k < rest.len() implies piece_ok(#[trigger] rest[k]) by {
                assert(rest[k] == ps[k + 1]);
            }
            assert forall|k: int| 0 <= k < rest.len() - 1 implies !(#[trigger] rest[k].0 && rest[k + 1].0) by {
                assert(rest[k] == ps[k + 1]);
                assert(rest[k + 1] == ps[k + 2]);
            }
        }
        let i = st.i;
        let tail = s.subrange(i, n);
        if ps[0].0 {
            let e = i + w.len() + 2;
            assert(tail == seq!['`'] + w + seq!['`'] + pieces_md(rest));
            assert(tail.len() == w.len() + 2 + pieces_md(rest).len());
            assert(s[i] == tail[0]);
            assert(s.subrange(i + 1, i + 1 + w.len()) =~= w) by {
                assert forall|x: int| 0 <= x < w.len() implies s.subrange(i + 1, i + 1 + w.len())[x] == w[x] by {
                    assert(s[i + 1 + x] == tail[1 + x]);
                }
            }
            assert(s[i + 1 + w.len()] == tail[1 + w.len() as int]);
            if e < n {
                assert(rest.len() > 0);
                assert(!ps[1].0) by {
                    assert(!(ps[0].0 && ps[1].0));
                }
                assert(rest[0] == ps[1]);
                assert(piece_ok(rest[0]));
                assert(pieces_md(rest)[0] == rest[0].1[0]);
                assert(s[e] == tail[w.len() as int + 2]);
                assert(plain_inline_char(rest[0].1[0]));
            }
            lemma_code_step(s, refs, st, w);
            let st2 = TState {
                toks: flush_toks(st.toks, st.buf).push(ITok::Code(w)),
                i: e,
                buf: Seq::empty(),
                prev: Some('x'),
                ..st
            };
            assert(tok_from(s, refs, st) == tok_from(s, refs, st2));
            assert(s.subrange(e, n) =~= pieces_md(rest)) by {
                assert forall|x: int| 0 <= x < pieces_md(rest).len() implies s.subrange(e, n)[x] == pieces_md(rest)[x] by {
                    assert(s[e + x] == tail[w.len() + 2 + x]);
                }
            }
            lemma_pieces_tok(s, refs, st2, rest);
        } else {
            let e = i + w.len();
            assert(tail == w + pieces_md(rest));
            assert forall|k: int| i <= k < e implies plain_inline_char(#[trigger] s[k]) by {
                assert(s[k] == tail[k - i]);
                assert(tail[k - i] == w[k - i]);
            }
            assert(s.subrange(i, e) =~= w) by {
                assert forall|x: int| 0 <= x < w.len() implies s.subrange(i, e)[x] == w[x] by {
                    assert(s[i + x] == tail[x]);
                }
            }
            if e < n {
                assert(rest.len() > 0);
                assert(rest[0] == ps[1]);
                assert(piece_ok(rest[0]));
                assert(s[e] == tail[w.len() as int]);
                if rest[0].0 {
                    assert(pieces_md(rest)[0] == '`');
                } else {
                    assert(pieces_md(rest)[0] == rest[0].1[0]);
                    assert(plain_inline_char(rest[0].1[0]));
                }
            }
            lemma_plain_run(s, refs, st, e);
            let st2 = TState { buf: st.buf + s.subrange(i, e), prev: Some(s[e - 1]), i: e, ..st };
            assert(s.subrange(e, n) =~= pieces_md(rest)) by {
                assert forall|x: int| 0 <= x < pieces_md(rest).len() implies s.subrange(e, n)[x] == pieces_md(rest)[x] by {
                    assert(s[e + x] == tail[w.len() + x]);
                }
            }
            lemma_pieces_tok(s, refs, st2, rest);
        }
    }
}

proof fn lemma_no_delims(ts: Seq<ITok>, k: int)
    requires
        tc_only(ts),
        0 <= k <= ts.len(),
    ensures
        delims_upto(ts, k).len() == 0,
    decreases k,
{
    if k > 0 {
        assert(tc_tok(ts[k - 1]));
        lemma_no_delims(ts, k - 1);
    }
}

/// Text and code tokens become text and code elements that spell them.
proof fn lemma_elems_tc(ts: Seq<ITok>, i: int, to: int, out: Seq<El>, buf: Seq<char>)
    requires
        tc_only(ts),
        tc_els(out),
        0 <= i <= to <= ts.len(),
    ensures
        tc_els(elems_from(ts, i, to, out, buf)),
        els_md(elems_from(ts, i, to, out, buf)) == els_md(out) + buf + toks_md(ts.subrange(i, to)),
    decreases to - i,
{
    let fl = flush_els(out, buf);
    assert(tc_els(fl) && els_md(fl) == els_md(out) + buf) by {
        if buf.len() > 0 {
            assert(fl.drop_last() == out);
            assert forall|k: int| 0 <= k < fl.len() implies tc_el(#[trigger] fl[k]) by {
                if k < out.len() {
                    assert(fl[k] == out[k]);
                }
            }
        } else {
            assert(els_md(out) + buf =~= els_md(out));
        }
    }
    if i == to {
        assert(ts.subrange(i, to) =~= Seq::<ITok>::empty());
        assert(els_md(out) + buf + Seq::<char>::empty() =~= els_md(out) + buf);
    } else {
        assert(tc_tok(ts[i]));
        assert(ts.subrange(i, to).drop_first() =~= ts.subrange(i + 1, to));
        assert(ts.subrange(i, to)[0] == ts[i]);
        match ts[i] {
            ITok::Text(x) => {
                lemma_elems_tc(ts, i + 1, to, out, buf + x);
                assert(els_md(out) + (buf + x) + toks_md(ts.subrange(i + 1, to)) =~= els_md(out) + buf + toks_md(
                    ts.subrange(i, to),
                ));
            },
            ITok::Code(c) => {
                let o2 = fl.push(El::Code(c));
                assert(o2.drop_last() == fl);
                assert(o2.last() == El::Code(c));
                assert(els_html(o2) == els_html(fl) + crate::inline_parser::el_html(El::Code(c)));
                assert(tc_els(o2)) by {
                    assert forall|k: int| 0 <= k < o2.len() implies tc_el(#[trigger] o2[k]) by {
                        if k < fl.len() {
                            assert(o2[k] == fl[k]);
                        }
                    }
                }
                lemma_elems_tc(ts, i + 1, to, o2, Seq::empty());
                assert(els_md(o2) + Seq::<char>::empty() + toks_md(ts.subrange(i + 1, to)) =~= els_md(out) + buf
                    + toks_md(ts.subrange(i, to)));
            },
            _ => {},
        }
    }
}

proof fn lemma_list_md_tc(es: Seq<InlineElement>)
    requires
        tc_els(els_view(es)),
    ensures
        list_md(es) == els_md(els_view(es)),
    decreases es.len(),
{
    reveal_strlit("`");
    if es.len() > 0 {
        let v = els_view(es);
        assert(v == els_view(es.drop_last()).push(el_view(es.last())));
        assert(v.drop_last() == els_view(es.drop_last()));
        assert(tc_els(els_view(es.drop_last()))) by {
            assert forall|k: int| 0 <= k < els_view(es.drop_last()).len() implies tc_el(
                #[trigger] els_view(es.drop_last())[k],
            ) by {
                assert(v[k] == els_view(es.drop_last())[k]);
            }
        }
        lemma_list_md_tc(es.drop_last());
        assert(v.last() == el_view(es.last()));
        assert(tc_el(v[v.len() - 1]));
        assert(elem_md(es.last()) == el_md(el_view(es.last())));
    }
}

/// Plain fragments round-trip: a fragment spelled by pieces of plain text
/// and single-backtick code spans (see [`pieces_ok`]) that does not end in
/// a space or tab parses to elements that render back to the fragment.
pub proof fn law_plain_fragment_round_trip(ps: Seq<(bool, Seq<char>)>, es: Seq<InlineElement>)
    requires
        pieces_ok(ps),
        pieces_md(ps).len() == 0 || (pieces_md(ps).last() != ' ' && pieces_md(ps).last() != '\t'),
        els_view(es) == spec_parse_inline_text(pieces_md(ps), Seq::empty()),
    ensures
        list_md(es) == pieces_md(ps),
{
    let f = pieces_md(ps);
    let n = f.len() as int;
    let refs: RV = Seq::empty();
    assert(crate::text::trail_start(f, 1, n) == n);
    assert(f.take(n) =~= f);
    let st0 = TState { toks: Seq::empty(), brs: Seq::empty(), i: 0, buf: Seq::empty(), prev: None };
    assert(f.subrange(0, n) =~= f);
    lemma_pieces_tok(f, refs, st0, ps);
    let ts = ptoks(Seq::empty(), Seq::empty(), ps);
    lemma_ptoks(Seq::empty(), Seq::empty(), ps);
    lemma_no_delims(ts, ts.len() as int);
    assert(spec_emph(ts) == ts);
    assert(spec_tokenize(f, refs) == ts);
    lemma_elems_tc(ts, 0, ts.len() as int, Seq::empty(), Seq::empty());
    assert(ts.subrange(0, ts.len() as int) =~= ts);
    assert(Seq::<char>::empty() + Seq::<char>::empty() + toks_md(ts) =~= toks_md(ts));
    assert(Seq::<char>::empty() + Seq::<char>::empty() + f =~= f);
    assert(spec_parse_inline(f, refs) == spec_elems(ts, 0, ts.len() as int));
    lemma_list_md_tc(es);
}

/// The HTML of a fragment given as pieces: a text piece escaped, a code
/// piece escaped inside `<code>`.
pub open spec fn pieces_html(ps: Seq<(bool, Seq<char>)>) -> Seq<char>
    decreases ps.len(),
{
    if ps.len() == 0 {
        Seq::empty()
    } else {
        (if ps[0].0 {
            seq!['<', 'c', 'o', 'd', 'e', '>'] + spec_escape_html(ps[0].1) + seq!['<', '/', 'c', 'o', 'd', 'e', '>']
        } else {
            spec_escape_html(ps[0].1)
        }) + pieces_html(ps.drop_first())
    }
}

spec fn tok_html(t: ITok) -> Seq<char> {
    match t {
        ITok::Text(x) => spec_escape_html(x),
        ITok::Code(c) => seq!['<', 'c', 'o', 'd', 'e', '>'] + spec_escape_html(c) + seq!['<', '/', 'c', 'o', 'd', 'e', '>'],
        _ => Seq::empty(),
    }
}

spec fn toks_html(ts: Seq<ITok>) -> Seq<char>
    decreases ts.len(),
{
    if ts.len() == 0 {
        Seq::empty()
    } else {
        tok_html(ts[0]) + toks_html(ts.drop_first())
    }
}

proof fn lemma_toks_html_push(ts: Seq<ITok>, t: ITok)
    ensures
        toks_html(ts.push(t)) == toks_html(ts) + tok_html(t),
    decreases ts.len(),
{
    if ts.len() == 0 {
        assert(ts.push(t).drop_first() =~= Seq::<ITok>::empty());
        assert(ts.push(t)[0] == t);
        assert(toks_html(Seq::<ITok>::empty()) == Seq::<char>::empty());
        assert(tok_html(t) + Seq::<char>::empty() =~= tok_html(t));
        assert(Seq::<char>::empty() + tok_html(t) =~= tok_html(t));
    } else {
        lemma_toks_html_push(ts.drop_first(), t);
        assert(ts.push(t).drop_first() =~= ts.drop_first().push(t));
        assert(ts.push(t)[0] == ts[0]);
        assert(tok_html(ts[0]) + (toks_html(ts.drop_first()) + tok_html(t)) =~= (tok_html(ts[0]) + toks_html(
            ts.drop_first(),
        )) + tok_html(t));
    }
}

proof fn lemma_flush_html(ts: Seq<ITok>, buf: Seq<char>)
    ensures
        toks_html(flush_toks(ts, buf)) == toks_html(ts) + spec_escape_html(buf),
{
    if buf.len() > 0 {
        lemma_toks_html_push(ts, ITok::Text(buf));
    } else {
        assert(spec_escape_html(buf) =~= Seq::<char>::empty());
        assert(toks_html(ts) + spec_escape_html(buf) =~= toks_html(ts));
    }
}

/// The pieces' tokens render as the pieces.
proof fn lemma_ptoks_html(toks: Seq<ITok>, buf: Seq<char>, ps: Seq<(bool, Seq<char>)>)
    ensures
        toks_html(ptoks(toks, buf, ps)) == toks_html(toks) + spec_escape_html(buf) + pieces_html(ps),
    decreases ps.len(),
{
    if ps.len() == 0 {
        lemma_flush_html(toks, buf);
        assert(toks_html(toks) + spec_escape_html(buf) + Seq::<char>::empty() =~= toks_html(toks) + spec_escape_html(
            buf,
        ));
    } else if ps[0].0 {
        lemma_flush_html(toks, buf);
        let f = flush_toks(toks, buf);
        lemma_toks_html_push(f, ITok::Code(ps[0].1));
        let t2 = f.push(ITok::Code(ps[0].1));
        lemma_ptoks_html(t2, Seq::empty(), ps.drop_first());
        assert(spec_escape_html(Seq::<char>::empty()) =~= Seq::<char>::empty());
        assert(toks_html(t2) + spec_escape_html(Seq::<char>::empty()) + pieces_html(ps.drop_first()) =~= toks_html(toks)
            + spec_escape_html(buf) + pieces_html(ps));
    } else {
        lemma_ptoks_html(toks, buf + ps[0].1, ps.drop_first());
        crate::html_escape::lemma_escape_concat(buf, ps[0].1);
        assert(toks_html(toks) + (spec_escape_html(buf) + spec_escape_html(ps[0].1)) + pieces_html(ps.drop_first())
            =~= toks_html(toks) + spec_escape_html(buf) + pieces_html(ps));
    }
}

/// Text and code tokens become elements whose HTML is the tokens'.
proof fn lemma_elems_html(ts: Seq<ITok>, i: int, to: int, out: Seq<El>, buf: Seq<char>)
    requires
        tc_only(ts),
        0 <= i <= to <= ts.len(),
    ensures
        els_html(elems_from(ts, i, to, out, buf)) == els_html(out) + spec_escape_html(buf) + toks_html(
            ts.subrange(i, to),
        ),
    decreases to - i,
{
    reveal_strlit("<code>");
    reveal_strlit("</code>");
    let fl = flush_els(out, buf);
    assert(els_html(fl) == els_html(out) + spec_escape_html(buf)) by {
        if buf.len() > 0 {
            assert(fl.drop_last() == out);
            assert(fl.last() == El::Text(buf));
            assert(els_html(fl) == els_html(fl.drop_last()) + crate::inline_parser::el_html(fl.last()));
        } else {
            assert(spec_escape_html(buf) =~= Seq::<char>::empty());
            assert(els_html(out) + spec_escape_html(buf) =~= els_html(out));
        }
    }
    if i == to {
        assert(ts.subrange(i, to) =~= Seq::<ITok>::empty());
        assert(els_html(out) + spec_escape_html(buf) + Seq::<char>::empty() =~= els_html(out) + spec_escape_html(buf));
    } else {
        assert(tc_tok(ts[i]));
        assert(ts.subrange(i, to).drop_first() =~= ts.subrange(i + 1, to));
        assert(ts.subrange(i, to)[0] == ts[i]);
        match ts[i] {
            ITok::Text(x) => {
                lemma_elems_html(ts, i + 1, to, out, buf + x);
                crate::html_escape::lemma_escape_concat(buf, x);
                assert(els_html(out) + (spec_escape_html(buf) + spec_escape_html(x)) + toks_html(ts.subrange(i + 1, to))
                    =~= els_html(out) + spec_escape_html(buf) + toks_html(ts.subrange(i, to)));
            },
            ITok::Code(c) => {
                let o2 = fl.push(El::Code(c));
                assert(o2.drop_last() == fl);
                assert(o2.last() == El::Code(c));
                assert(els_html(o2) == els_html(fl) + crate::inline_parser::el_html(El::Code(c)));
                assert("<code>"@ =~= seq!['<', 'c', 'o', 'd', 'e', '>']);
                assert("</code>"@ =~= seq!['<', '/', 'c', 'o', 'd', 'e', '>']);
                lemma_elems_html(ts, i + 1, to, o2, Seq::empty());
                assert(spec_escape_html(Seq::<char>::empty()) =~= Seq::<char>::empty());
                assert(els_html(o2) + spec_escape_html(Seq::<char>::empty()) + toks_html(ts.subrange(i + 1, to)) =~= els_html(
                    out,
                ) + spec_escape_html(buf) + toks_html(ts.subrange(i, to)));
            },
            _ => {},
        }
    }
}

/// Plain fragments render as their pieces: a fragment spelled by pieces
/// of plain text and single-backtick code spans (see [`pieces_ok`]) that
/// does not end in a space or tab renders as its text escaped and each
/// code span's content escaped inside `<code>`, whatever the link
/// references.
pub proof fn law_plain_fragment_html(ps: Seq<(bool, Seq<char>)>, refs: RV)
    requires
        pieces_ok(ps),
        pieces_md(ps).len() == 0 || (pieces_md(ps).last() != ' ' && pieces_md(ps).last() != '\t'),
    ensures
        crate::inline_parser::spec_inline_html(pieces_md(ps), refs) == pieces_html(ps),
{
    let f = pieces_md(ps);
    let n = f.len() as int;
    assert(crate::text::trail_start(f, 1, n) == n);
    assert(f.take(n) =~= f);
    let st0 = TState { toks: Seq::empty(), brs: Seq::empty(), i: 0, buf: Seq::empty(), prev: None };
    assert(f.subrange(0, n) =~= f);
    lemma_pieces_tok(f, refs, st0, ps);
    let ts = ptoks(Seq::empty(), Seq::empty(), ps);
    lemma_ptoks(Seq::empty(), Seq::empty(), ps);
    lemma_ptoks_html(Seq::empty(), Seq::empty(), ps);
    lemma_no_delims(ts, ts.len() as int);
    assert(spec_emph(ts) == ts);
    assert(spec_tokenize(f, refs) == ts);
    lemma_elems_html(ts, 0, ts.len() as int, Seq::empty(), Seq::empty());
    assert(ts.subrange(0, ts.len() as int) =~= ts);
    assert(spec_escape_html(Seq::<char>::empty()) =~= Seq::<char>::empty());
    assert(els_html(Seq::<El>::empty()) =~= Seq::<char>::empty());
    assert(Seq::<char>::empty() + Seq::<char>::empty() + toks_html(ts) =~= toks_html(ts));
    assert(Seq::<char>::empty() + Seq::<char>::empty() + pieces_html(ps) =~= pieces_html(ps));
    assert(spec_parse_inline(f, refs) == spec_elems(ts, 0, ts.len() as int));
}

} // verus!
