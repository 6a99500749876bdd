//! Properties of the compiler as a whole, stated and proved over the
//! specification functions that the public contracts use.

use vstd::prelude::*;
use crate::lexer::{lex, raw_token, single_token, Token};
use crate::parser::{murk_parse, sp_main, sp_raw, sp_word};
use crate::resolve::{brace, filling_mention, filling_text, rents, rents_list, rtext, rtext_list};
use crate::span::SpanView;
use crate::entities::{CtxView, EntityView};
use crate::text::utf16_len;

verus! {

/// A character with a role in murkdown syntax: the bracket, marker and
/// escape punctuation.
pub open spec fn is_marker(c: char) -> bool {
    ||| c == '_'
    ||| c == '|'
    ||| c == '~'
    ||| c == '`'
    ||| c == '*'
    ||| c == '['
    ||| c == ']'
    ||| c == '('
    ||| c == ')'
    ||| c == '{'
    ||| c == '}'
}

/// No character of the source is markup punctuation.
pub open spec fn no_markers(s: Seq<char>) -> bool {
    forall|i: int| 0 <= i < s.len() ==> !is_marker(#[trigger] s[i])
}

/// The source with escapes removed: each backslash is dropped and the
/// character after it kept literally; a trailing backslash is dropped.
pub open spec fn strip_escapes(s: Seq<char>) -> Seq<char>
    decreases s.len(),
{
    if s.len() == 0 {
        Seq::empty()
    } else if s[0] == '\\' {
        if s.len() >= 2 {
            seq![s[1]] + strip_escapes(s.skip(2))
        } else {
            Seq::empty()
        }
    } else {
        seq![s[0]] + strip_escapes(s.skip(1))
    }
}

/// The literal-character tokens of a character sequence.
pub open spec fn raw_tokens(cs: Seq<char>) -> Seq<Token> {
    cs.map_values(|c: char| raw_token(c))
}

/// A source without markup punctuation lexes to the literal-character
/// tokens of its escape-stripped text.
proof fn lemma_lex_no_markers(s: Seq<char>)
    requires
        no_markers(s),
    ensures
        lex(s) == raw_tokens(strip_escapes(s)),
    decreases s.len(),
{
    if s.len() == 0 {
        assert(lex(s) =~= raw_tokens(strip_escapes(s)));
    } else if s[0] == '\\' {
        if s.len() >= 2 {
            assert(no_markers(s.skip(2)));
            lemma_lex_no_markers(s.skip(2));
            assert(lex(s) =~= raw_tokens(strip_escapes(s)));
        } else {
            assert(lex(s) =~= raw_tokens(strip_escapes(s)));
        }
    } else {
        assert(!is_marker(s[0]));
        assert(single_token(s[0]) == raw_token(s[0]));
        assert(no_markers(s.skip(1)));
        lemma_lex_no_markers(s.skip(1));
        assert(lex(s) =~= raw_tokens(strip_escapes(s)));
    }
}

/// A raw run over literal-character tokens consumes them all.
proof fn lemma_sp_raw_all(cs: Seq<char>, i: int)
    requires
        0 <= i <= cs.len(),
    ensures
        sp_raw(raw_tokens(cs), i) == (cs.skip(i), cs.len() as int),
    decreases cs.len() - i,
{
    let ts = raw_tokens(cs);
    assert(ts.len() == cs.len());
    if i < cs.len() {
        assert(ts[i] == raw_token(cs[i]));
        lemma_sp_raw_all(cs, i + 1);
        assert(sp_raw(ts, i).0 =~= cs.skip(i));
    } else {
        assert(sp_raw(ts, i).0 =~= cs.skip(i));
    }
}

/// The span list that a markerless source parses to: nothing for an empty
/// text, else one plain text span.
pub open spec fn plain_spans(s: Seq<char>) -> Seq<SpanView> {
    if strip_escapes(s).len() == 0 {
        Seq::empty()
    } else {
        seq![SpanView::Raw(strip_escapes(s))]
    }
}

/// For any source string without markup punctuation, the parse succeeds,
/// and resolving it under any context yields the source with escapes
/// removed as text, and no entities.
pub proof fn lemma_no_markers_resolves_plain(s: Seq<char>, ctx: Option<CtxView>, start: int)
    requires
        no_markers(s),
    ensures
        murk_parse(s) == Some(plain_spans(s)),
        rtext_list(plain_spans(s), ctx, 0) == strip_escapes(s),
        rents_list(plain_spans(s), ctx, start, 0) == Seq::<crate::entities::EntityView>::empty(),
{
    lemma_lex_no_markers(s);
    let cs = strip_escapes(s);
    let ts = raw_tokens(cs);
    assert(ts.len() == cs.len());
    if cs.len() == 0 {
        assert(sp_main(ts, 0) == (Seq::<SpanView>::empty(), 0int));
        assert(murk_parse(s) == Some(plain_spans(s)));
        assert(rtext_list(plain_spans(s), ctx, 0) =~= cs);
        assert(rents_list(plain_spans(s), ctx, start, 0) =~= Seq::<
            crate::entities::EntityView,
        >::empty());
    } else {
        assert(ts[0] == raw_token(cs[0]));
        lemma_sp_raw_all(cs, 0);
        assert(cs.skip(0) =~= cs);
        assert(sp_main(ts, cs.len() as int) == (Seq::<SpanView>::empty(), cs.len() as int));
        assert(sp_main(ts, 0).0 =~= seq![SpanView::Raw(cs)]);
        assert(sp_main(ts, 0).1 == cs.len() as int);
        assert(murk_parse(s) == Some(plain_spans(s)));
        let ps = plain_spans(s);
        assert(ps == seq![SpanView::Raw(cs)]);
        assert(ps.len() == 1);
        assert(ps[0] == SpanView::Raw(cs));
        assert(rtext_list(ps, ctx, 1) =~= Seq::<char>::empty());
        assert(rtext(ps[0], ctx) == cs);
        assert(rtext_list(ps, ctx, 0) =~= cs);
        assert(rents(ps[0], ctx, start) =~= Seq::<crate::entities::EntityView>::empty());
        assert(rents_list(ps, ctx, start + utf16_len(rtext(ps[0], ctx)), 1) =~= Seq::<
            crate::entities::EntityView,
        >::empty());
        assert(rents_list(ps, ctx, start, 0) =~= Seq::<crate::entities::EntityView>::empty());
    }
}

/// Any filling with no context resolves to its literal form, braces
/// restored, and produces no entity.
pub proof fn lemma_filling_no_context(name: Seq<char>, start: int)
    ensures
        rtext(SpanView::Filling(name), None) == brace(name),
        rents(SpanView::Filling(name), None, start) == Seq::<
            crate::entities::EntityView,
        >::empty(),
{
    assert(filling_text(name, None) == brace(name));
    assert(filling_mention(name, None) is None);
    assert(rents(SpanView::Filling(name), None, start) =~= Seq::<
        crate::entities::EntityView,
    >::empty());
}

} // verus!

verus! {

/// All entities of a sequence lie within the given range: anchored no
/// earlier than `start`, with non-negative length, ending by `end`.
pub open spec fn ents_within(es: Seq<EntityView>, start: int, end: int) -> bool {
    forall|k: int| 0 <= k < es.len() ==> {
        let e = #[trigger] es[k];
        start <= e.offset && 0 <= e.length && e.offset + e.length <= end
    }
}

/// Entities within a range also lie within any enclosing range.
proof fn lemma_ents_within_widen(es: Seq<EntityView>, s1: int, e1: int, s2: int, e2: int)
    requires
        ents_within(es, s1, e1),
        s2 <= s1,
        e1 <= e2,
    ensures
        ents_within(es, s2, e2),
{
}

/// A concatenation of two entity sequences within one range stays within
/// it.
proof fn lemma_ents_within_concat(a: Seq<EntityView>, b: Seq<EntityView>, start: int, end: int)
    requires
        ents_within(a, start, end),
        ents_within(b, start, end),
    ensures
        ents_within(a + b, start, end),
{
    assert forall|k: int| 0 <= k < (a + b).len() implies {
        let e = #[trigger] (a + b)[k];
        start <= e.offset && 0 <= e.length && e.offset + e.length <= end
    } by {
        if k < a.len() {
            assert((a + b)[k] == a[k]);
        } else {
            assert((a + b)[k] == b[k - a.len()]);
        }
    }
}

/// Every entity one resolved span emits lies within the range its text
/// covers: no entity references text outside the span's own output.
pub proof fn lemma_rents_within(sv: SpanView, ctx: Option<CtxView>, start: int)
    ensures
        ents_within(rents(sv, ctx, start), start, start + utf16_len(rtext(sv, ctx))),
    decreases sv, 0int,
{
    let end = start + utf16_len(rtext(sv, ctx));
    match sv {
        SpanView::Code(t) => {
            assert(rents(sv, ctx, start).len() == 1);
            assert(rents(sv, ctx, start)[0].offset == start);
            assert(rents(sv, ctx, start)[0].length == utf16_len(t) as int);
            assert(ents_within(rents(sv, ctx, start), start, end));
        },
        SpanView::Raw(_) => {
            assert(ents_within(rents(sv, ctx, start), start, end));
        },
        SpanView::Filling(name) => {
            if filling_mention(name, ctx) is Some {
                assert(rents(sv, ctx, start).len() == 1);
                assert(rents(sv, ctx, start)[0].offset == start);
                assert(rents(sv, ctx, start)[0].length == utf16_len(
                    filling_text(name, ctx),
                ) as int);
            }
            assert(ents_within(rents(sv, ctx, start), start, end));
        },
        SpanView::Italic(l) => {
            lemma_rents_wrapped_within(l, ctx, start);
            assert(rents(sv, ctx, start) == crate::resolve::rents_wrapped(
                l,
                ctx,
                start,
                crate::entities::KindView::Italic,
            ));
            assert(ents_within(rents(sv, ctx, start), start, end));
        },
        SpanView::Bold(l) => {
            lemma_rents_wrapped_within(l, ctx, start);
            assert(rents(sv, ctx, start) == crate::resolve::rents_wrapped(
                l,
                ctx,
                start,
                crate::entities::KindView::Bold,
            ));
            assert(ents_within(rents(sv, ctx, start), start, end));
        },
        SpanView::Strikethrough(l) => {
            lemma_rents_wrapped_within(l, ctx, start);
            assert(rents(sv, ctx, start) == crate::resolve::rents_wrapped(
                l,
                ctx,
                start,
                crate::entities::KindView::Strikethrough,
            ));
            assert(ents_within(rents(sv, ctx, start), start, end));
        },
        SpanView::Underline(l) => {
            lemma_rents_wrapped_within(l, ctx, start);
            assert(rents(sv, ctx, start) == crate::resolve::rents_wrapped(
                l,
                ctx,
                start,
                crate::entities::KindView::Underline,
            ));
            assert(ents_within(rents(sv, ctx, start), start, end));
        },
        SpanView::Spoiler(l) => {
            lemma_rents_wrapped_within(l, ctx, start);
            assert(rents(sv, ctx, start) == crate::resolve::rents_wrapped(
                l,
                ctx,
                start,
                crate::entities::KindView::Spoiler,
            ));
            assert(ents_within(rents(sv, ctx, start), start, end));
        },
        SpanView::Link(l, url) => {
            lemma_rents_wrapped_within(l, ctx, start);
            assert(rents(sv, ctx, start) == crate::resolve::rents_wrapped(
                l,
                ctx,
                start,
                crate::entities::KindView::TextLink(url),
            ));
            assert(ents_within(rents(sv, ctx, start), start, end));
        },
    }
}

/// The entities of a wrapping span lie within its children's range.
proof fn lemma_rents_wrapped_within(l: Seq<SpanView>, ctx: Option<CtxView>, start: int)
    ensures
        forall|kind: crate::entities::KindView| ents_within(
            #[trigger] crate::resolve::rents_wrapped(l, ctx, start, kind),
            start,
            start + utf16_len(rtext_list(l, ctx, 0)),
        ),
    decreases l, l.len() + 1,
{
    let end = start + utf16_len(rtext_list(l, ctx, 0));
    lemma_rents_list_within(l, ctx, start, 0);
    assert forall|kind: crate::entities::KindView| ents_within(
        #[trigger] crate::resolve::rents_wrapped(l, ctx, start, kind),
        start,
        end,
    ) by {
        let own = seq![
            crate::entities::EntityView {
                kind: kind,
                offset: start,
                length: utf16_len(rtext_list(l, ctx, 0)) as int,
            },
        ];
        assert(ents_within(own, start, end));
        lemma_ents_within_concat(rents_list(l, ctx, start, 0), own, start, end);
    }
}

/// The entities a span list emits from index `i` lie within the range the
/// remaining spans' text covers.
pub proof fn lemma_rents_list_within(l: Seq<SpanView>, ctx: Option<CtxView>, start: int, i: int)
    ensures
        ents_within(
            rents_list(l, ctx, start, i),
            start,
            start + utf16_len(rtext_list(l, ctx, i)),
        ),
    decreases l, l.len() - i,
{
    if 0 <= i < l.len() {
        let w = utf16_len(rtext(l[i], ctx)) as int;
        let end = start + utf16_len(rtext_list(l, ctx, i));
        lemma_rents_within(l[i], ctx, start);
        lemma_rents_list_within(l, ctx, start + w, i + 1);
        assert(rtext_list(l, ctx, i) == rtext(l[i], ctx) + rtext_list(l, ctx, i + 1));
        crate::text::lemma_utf16_concat(rtext(l[i], ctx), rtext_list(l, ctx, i + 1));
        lemma_ents_within_widen(rents(l[i], ctx, start), start, start + w, start, end);
        lemma_ents_within_widen(
            rents_list(l, ctx, start + w, i + 1),
            start + w,
            end,
            start,
            end,
        );
        lemma_ents_within_concat(
            rents(l[i], ctx, start),
            rents_list(l, ctx, start + w, i + 1),
            start,
            end,
        );
    }
}

} // verus!

verus! {

/// The UTF-16 weight of the source characters one token stands for.
pub open spec fn token_weight(t: Token) -> nat {
    match t {
        Token::RawChar(c) => crate::text::char_utf16(c),
        Token::DoubleUnderscore => 2,
        Token::DoubleBar => 2,
        _ => 1,
    }
}

/// The summed weight of a token sequence.
pub open spec fn tokens_weight(ts: Seq<Token>) -> nat
    decreases ts.len(),
{
    if ts.len() == 0 {
        0
    } else {
        token_weight(ts[0]) + tokens_weight(ts.drop_first())
    }
}

/// Token weight distributes over concatenation.
proof fn lemma_tokens_weight_concat(a: Seq<Token>, b: Seq<Token>)
    ensures
        tokens_weight(a + b) == tokens_weight(a) + tokens_weight(b),
    decreases a.len(),
{
    if a.len() == 0 {
        assert(a + b =~= b);
    } else {
        assert((a + b).drop_first() =~= a.drop_first() + b);
        lemma_tokens_weight_concat(a.drop_first(), b);
    }
}

/// Lexing never increases weight: the tokens of a source weigh at most
/// its UTF-16 length.
proof fn lemma_lex_weight(s: Seq<char>)
    ensures
        tokens_weight(lex(s)) <= utf16_len(s),
    decreases s.len(),
{
    if s.len() == 0 {
    } else {
        assert(utf16_len(s) == crate::text::char_utf16(s[0]) + utf16_len(s.drop_first()));
        assert(s.drop_first() =~= s.skip(1));
        if s.len() >= 2 {
            assert(utf16_len(s.skip(1)) == crate::text::char_utf16(s[1]) + utf16_len(
                s.skip(1).drop_first(),
            ));
            assert(s.skip(1).drop_first() =~= s.skip(2));
        }
        if s[0] == '\\' {
            if s.len() >= 2 {
                lemma_lex_weight(s.skip(2));
                assert(lex(s).drop_first() =~= lex(s.skip(2)));
                assert(crate::text::char_utf16(s[0]) >= 1);
            }
        } else if s[0] == '_' {
            if s.len() >= 2 && s[1] == '_' {
                lemma_lex_weight(s.skip(2));
                assert(lex(s).drop_first() =~= lex(s.skip(2)));
            } else {
                lemma_lex_weight(s.skip(1));
                assert(lex(s).drop_first() =~= lex(s.skip(1)));
            }
        } else if s[0] == '|' {
            if s.len() >= 2 && s[1] == '|' {
                lemma_lex_weight(s.skip(2));
                assert(lex(s).drop_first() =~= lex(s.skip(2)));
            } else {
                lemma_lex_weight(s.skip(1));
            }
        } else {
            lemma_lex_weight(s.skip(1));
            assert(lex(s).drop_first() =~= lex(s.skip(1)));
            assert(token_weight(single_token(s[0])) <= crate::text::char_utf16(s[0]));
        }
    }
}

/// Shifting a cons off the front shifts resolved-text indexing by one.
proof fn lemma_rtext_list_shift(x: SpanView, r: Seq<SpanView>, ctx: Option<CtxView>, i: int)
    requires
        0 <= i <= r.len(),
    ensures
        rtext_list(seq![x] + r, ctx, i + 1) == rtext_list(r, ctx, i),
    decreases r.len() - i,
{
    let l = seq![x] + r;
    if i < r.len() {
        assert(l[i + 1] == r[i]);
        lemma_rtext_list_shift(x, r, ctx, i + 1);
    }
}

/// The resolved text of a cons is the head's text then the tail's.
proof fn lemma_rtext_list_cons(x: SpanView, r: Seq<SpanView>, ctx: Option<CtxView>)
    ensures
        rtext_list(seq![x] + r, ctx, 0) == rtext(x, ctx) + rtext_list(r, ctx, 0),
{
    let l = seq![x] + r;
    assert(l[0] == x);
    lemma_rtext_list_shift(x, r, ctx, 0);
}

/// Without context, the text that `main` resolves to weighs at most the
/// tokens it consumed.
proof fn lemma_sp_main_bound(t: Seq<Token>, i: int)
    requires
        0 <= i <= t.len(),
    ensures
        i <= sp_main(t, i).1 <= t.len(),
        utf16_len(rtext_list(sp_main(t, i).0, None, 0)) <= tokens_weight(
            t.subrange(i, sp_main(t, i).1),
        ),
    decreases t.len() - i, 3int,
{
    if 0 <= i < t.len() {
        match t[i] {
            Token::RawChar(_) => {
                crate::parser::lemma_sp_raw_bounds(t, i);
                let (cs, j1) = sp_raw(t, i);
                lemma_sp_raw_weight(t, i);
                lemma_sp_main_bound(t, j1);
                let (spans2, j2) = sp_main(t, j1);
                lemma_rtext_list_cons(SpanView::Raw(cs), spans2, None);
                crate::text::lemma_utf16_concat(cs, rtext_list(spans2, None, 0));
                assert(t.subrange(i, j2) =~= t.subrange(i, j1) + t.subrange(j1, j2));
                lemma_tokens_weight_concat(t.subrange(i, j1), t.subrange(j1, j2));
            },
            Token::LCurly => {
                lemma_sp_main_word_bound(t, i);
            },
            Token::LSBracket => {
                lemma_sp_main_word_bound(t, i);
            },
            _ => {
                assert(t.subrange(i, i) =~= Seq::<Token>::empty());
            },
        }
    } else {
        assert(t.subrange(i, i) =~= Seq::<Token>::empty());
    }
}

/// The bound for one `main` segment that starts with a word.
proof fn lemma_sp_main_word_bound(t: Seq<Token>, i: int)
    requires
        0 <= i <= t.len(),
    ensures
        i <= crate::parser::sp_main_word(t, i).1 <= t.len(),
        utf16_len(rtext_list(crate::parser::sp_main_word(t, i).0, None, 0)) <= tokens_weight(
            t.subrange(i, crate::parser::sp_main_word(t, i).1),
        ),
    decreases t.len() - i, 2int,
{
    match sp_word(t, i) {
        Some((sp, j1)) => {
            lemma_sp_word_bound(t, i);
            if i < j1 <= t.len() {
                lemma_sp_main_bound(t, j1);
                let (spans2, j2) = sp_main(t, j1);
                lemma_rtext_list_cons(sp, spans2, None);
                crate::text::lemma_utf16_concat(rtext(sp, None), rtext_list(spans2, None, 0));
                assert(t.subrange(i, j2) =~= t.subrange(i, j1) + t.subrange(j1, j2));
                lemma_tokens_weight_concat(t.subrange(i, j1), t.subrange(j1, j2));
            } else {
                assert(t.subrange(i, i) =~= Seq::<Token>::empty());
            }
        },
        None => {
            assert(t.subrange(i, i) =~= Seq::<Token>::empty());
        },
    }
}

/// A raw run's characters weigh exactly its consumed tokens.
proof fn lemma_sp_raw_weight(t: Seq<Token>, i: int)
    requires
        0 <= i <= t.len(),
    ensures
        utf16_len(sp_raw(t, i).0) == tokens_weight(t.subrange(i, sp_raw(t, i).1)),
    decreases t.len() - i,
{
    crate::parser::lemma_sp_raw_bounds(t, i);
    if 0 <= i < t.len() {
        match t[i] {
            Token::RawChar(c) => {
                lemma_sp_raw_weight(t, i + 1);
                crate::parser::lemma_sp_raw_bounds(t, i + 1);
                let (rest, j) = sp_raw(t, i + 1);
                crate::text::lemma_utf16_concat(seq![c], rest);
                assert(utf16_len(seq![c].drop_first()) == 0);
                assert(t.subrange(i, j) =~= seq![t[i]] + t.subrange(i + 1, j));
                lemma_tokens_weight_concat(seq![t[i]], t.subrange(i + 1, j));
                assert(tokens_weight(seq![t[i]].drop_first()) == 0);
            },
            _ => {
                assert(t.subrange(i, i) =~= Seq::<Token>::empty());
            },
        }
    } else {
        assert(t.subrange(i, i) =~= Seq::<Token>::empty());
    }
}

/// Without context, the text a word resolves to weighs at most the tokens
/// it consumed.
proof fn lemma_sp_word_bound(t: Seq<Token>, i: int)
    requires
        0 <= i <= t.len(),
    ensures
        match sp_word(t, i) {
            Some(p) => i < p.1 <= t.len() && utf16_len(rtext(p.0, None)) <= tokens_weight(
                t.subrange(i, p.1),
            ),
            None => true,
        },
    decreases t.len() - i, 1int,
{
    if 0 <= i < t.len() {
        match t[i] {
            Token::LCurly => {
                lemma_filling_word_bound(t, i);
            },
            Token::LSBracket => {
                if i + 1 < t.len() && t[i + 1] is Tick {
                    lemma_code_word_bound(t, i);
                } else if i + 1 < t.len() && t[i + 1] is Star {
                    lemma_wrapped_word_bound(t, i, crate::parser::WrapKind::Bold);
                } else if i + 1 < t.len() && t[i + 1] is Tilde {
                    lemma_wrapped_word_bound(t, i, crate::parser::WrapKind::Strikethrough);
                } else if i + 1 < t.len() && t[i + 1] is Underscore {
                    lemma_wrapped_word_bound(t, i, crate::parser::WrapKind::Italic);
                } else if i + 1 < t.len() && t[i + 1] is DoubleUnderscore {
                    lemma_wrapped_word_bound(t, i, crate::parser::WrapKind::Underline);
                } else if i + 1 < t.len() && t[i + 1] is DoubleBar {
                    lemma_wrapped_word_bound(t, i, crate::parser::WrapKind::Spoiler);
                } else {
                    lemma_link_word_bound(t, i);
                }
            },
            _ => {},
        }
    }
}

/// The bound for a filling word `{ raw }`.
proof fn lemma_filling_word_bound(t: Seq<Token>, i: int)
    requires
        0 <= i < t.len(),
        t[i] is LCurly,
    ensures
        match sp_word(t, i) {
            Some(p) => i < p.1 <= t.len() && utf16_len(rtext(p.0, None)) <= tokens_weight(
                t.subrange(i, p.1),
            ),
            None => true,
        },
    decreases t.len() - i, 0int,
{
    let (cs, j) = sp_raw(t, i + 1);
    crate::parser::lemma_sp_raw_bounds(t, i + 1);
    if cs.len() > 0 && 0 <= j < t.len() && t[j] is RCurly {
        lemma_sp_raw_weight(t, i + 1);
        reveal_strlit("{");
        reveal_strlit("}");
        assert("{"@ =~= seq!['{']);
        assert("}"@ =~= seq!['}']);
        assert(rtext(SpanView::Filling(cs), None) == crate::resolve::brace(cs));
        crate::text::lemma_utf16_concat("{"@ + cs, "}"@);
        crate::text::lemma_utf16_concat("{"@, cs);
        assert(utf16_len(seq!['{'].drop_first()) == 0);
        assert(utf16_len(seq!['}'].drop_first()) == 0);
        assert(utf16_len("{"@) == 1);
        assert(utf16_len("}"@) == 1);
        assert(t.subrange(i, j + 1) =~= seq![t[i]] + t.subrange(i + 1, j) + seq![t[j]]);
        lemma_tokens_weight_concat(seq![t[i]] + t.subrange(i + 1, j), seq![t[j]]);
        lemma_tokens_weight_concat(seq![t[i]], t.subrange(i + 1, j));
        assert(tokens_weight(seq![t[i]].drop_first()) == 0);
        assert(tokens_weight(seq![t[j]].drop_first()) == 0);
        assert(tokens_weight(seq![t[i]]) == 1);
        assert(tokens_weight(seq![t[j]]) == 1);
    }
}

/// The bound for a code word `` [ ` raw ] ``.
proof fn lemma_code_word_bound(t: Seq<Token>, i: int)
    requires
        0 <= i < t.len(),
        t[i] is LSBracket,
        i + 1 < t.len(),
        t[i + 1] is Tick,
    ensures
        match sp_word(t, i) {
            Some(p) => i < p.1 <= t.len() && utf16_len(rtext(p.0, None)) <= tokens_weight(
                t.subrange(i, p.1),
            ),
            None => true,
        },
    decreases t.len() - i, 0int,
{
    let (cs, j) = sp_raw(t, i + 2);
    crate::parser::lemma_sp_raw_bounds(t, i + 2);
    if cs.len() > 0 && 0 <= j < t.len() && t[j] is RSBracket {
        lemma_sp_raw_weight(t, i + 2);
        assert(t.subrange(i, j + 1) =~= t.subrange(i, i + 2) + t.subrange(i + 2, j) + seq![t[j]]);
        lemma_tokens_weight_concat(t.subrange(i, i + 2) + t.subrange(i + 2, j), seq![t[j]]);
        lemma_tokens_weight_concat(t.subrange(i, i + 2), t.subrange(i + 2, j));
    }
}

/// The bound for the wrapping words `[<marker> main ]`.
proof fn lemma_wrapped_word_bound(t: Seq<Token>, i: int, k: crate::parser::WrapKind)
    requires
        0 <= i < t.len(),
        t[i] is LSBracket,
    ensures
        match crate::parser::sp_wrapped(t, i, k) {
            Some(p) => i < p.1 <= t.len() && utf16_len(rtext(p.0, None)) <= tokens_weight(
                t.subrange(i, p.1),
            ),
            None => true,
        },
    decreases t.len() - i, 0int,
{
    if i + 2 <= t.len() {
        lemma_sp_main_bound(t, i + 2);
        let (spans, j) = sp_main(t, i + 2);
        if 0 <= j < t.len() && t[j] is RSBracket {
            if crate::parser::sp_wrapped(t, i, k) is Some {
                assert(rtext(crate::parser::wrap_span(k, spans), None) == rtext_list(
                    spans,
                    None,
                    0,
                ));
                assert(t.subrange(i, j + 1) =~= t.subrange(i, i + 2) + t.subrange(i + 2, j)
                    + seq![t[j]]);
                lemma_tokens_weight_concat(
                    t.subrange(i, i + 2) + t.subrange(i + 2, j),
                    seq![t[j]],
                );
                lemma_tokens_weight_concat(t.subrange(i, i + 2), t.subrange(i + 2, j));
            }
        }
    }
}

/// The bound for a link word `[ main ] ( raw )`.
proof fn lemma_link_word_bound(t: Seq<Token>, i: int)
    requires
        0 <= i < t.len(),
        t[i] is LSBracket,
    ensures
        match crate::parser::sp_link(t, i) {
            Some(p) => i < p.1 <= t.len() && utf16_len(rtext(p.0, None)) <= tokens_weight(
                t.subrange(i, p.1),
            ),
            None => true,
        },
    decreases t.len() - i, 0int,
{
    if i + 1 <= t.len() {
        lemma_sp_main_bound(t, i + 1);
        let (spans, j) = sp_main(t, i + 1);
        if 0 <= j && j + 1 < t.len() && t[j] is RSBracket && t[j + 1] is LParen {
            let (url, k) = sp_raw(t, j + 2);
            crate::parser::lemma_sp_raw_bounds(t, j + 2);
            if url.len() > 0 && 0 <= k < t.len() && t[k] is RParen {
                assert(rtext(SpanView::Link(spans, url), None) == rtext_list(spans, None, 0));
                assert(t.subrange(i, k + 1) =~= seq![t[i]] + t.subrange(i + 1, j) + t.subrange(
                    j,
                    k + 1,
                ));
                lemma_tokens_weight_concat(
                    seq![t[i]] + t.subrange(i + 1, j),
                    t.subrange(j, k + 1),
                );
                lemma_tokens_weight_concat(seq![t[i]], t.subrange(i + 1, j));
            }
        }
    }
}

/// Without context every filling prints its own source characters back,
/// so the whole resolved text weighs at most the source: parsing and
/// resolving cannot lengthen a message.
pub proof fn lemma_resolved_no_context_bounded(s: Seq<char>)
    ensures
        murk_parse(s) matches Some(sv) ==> utf16_len(rtext_list(sv, None, 0)) <= utf16_len(s),
{
    if murk_parse(s) is Some {
        lemma_lex_weight(s);
        lemma_sp_main_bound(lex(s), 0);
        assert(lex(s).subrange(0, lex(s).len() as int) =~= lex(s));
    }
}

} // verus!
