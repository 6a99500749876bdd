//! The murkdown parser: a deterministic recursive-descent reduction of the
//! token stream into a list of spans. Inputs that do not reduce to a
//! complete span list are parse errors, never partial trees.

use vstd::prelude::*;
use crate::lexer::{lex, Token};
use crate::span::{lemma_spans_view_len, lemma_spans_view_push, span_view, spans_view, SpanView, TgSpan};
use crate::text::chars_to_string;

verus! {

/// The error returned when a token stream cannot reduce to a span list.
#[derive(Debug, Clone, PartialEq, Eq)]
pub struct DefaultParseErr {}

impl Default for DefaultParseErr {
    /// The parse error carries no information beyond its occurrence.
    fn default() -> (r: Self)
        ensures
            r == (DefaultParseErr {}),
    {
        DefaultParseErr {}
    }
}

impl DefaultParseErr {
    /// A printable description of the error.
    pub fn message(&self) -> (r: String)
        ensures
            r@ == "default parse error"@,
    {
        "default parse error".to_owned()
    }
}

/// The longest run of literal-character tokens starting at `i`: its
/// characters, and the index just past it.
pub open spec fn sp_raw(t: Seq<Token>, i: int) -> (Seq<char>, int)
    decreases t.len() - i,
{
    if 0 <= i < t.len() {
        match t[i] {
            Token::RawChar(c) => {
                let (rest, j) = sp_raw(t, i + 1);
                (seq![c] + rest, j)
            },
            _ => (Seq::empty(), i),
        }
    } else {
        (Seq::empty(), i)
    }
}

/// A raw run ends within the input, and consumes at least the one
/// literal-character token it starts with.
pub proof fn lemma_sp_raw_bounds(t: Seq<Token>, i: int)
    requires
        0 <= i <= t.len(),
    ensures
        i <= sp_raw(t, i).1 <= t.len(),
        i < t.len() && t[i] is RawChar ==> sp_raw(t, i).1 > i,
    decreases t.len() - i,
{
    if i < t.len() && t[i] is RawChar {
        lemma_sp_raw_bounds(t, i + 1);
    }
}

/// The spans of `main` starting at `i`: a possibly empty list of segments,
/// each a raw run or a bracketed word, and the index where no further
/// segment can start. Greedy and left to right.
pub open spec fn sp_main(t: Seq<Token>, i: int) -> (Seq<SpanView>, int)
    decreases t.len() - i, 3int,
{
    if 0 <= i < t.len() {
        match t[i] {
            Token::RawChar(_) => {
                let (s, j) = sp_raw(t, i);
                if i < j <= t.len() {
                    let (spans, k) = sp_main(t, j);
                    (seq![SpanView::Raw(s)] + spans, k)
                } else {
                    (Seq::empty(), i)
                }
            },
            Token::LCurly => sp_main_word(t, i),
            Token::LSBracket => sp_main_word(t, i),
            _ => (Seq::empty(), i),
        }
    } else {
        (Seq::empty(), i)
    }
}

/// One segment of `main` that starts with a word: the word, then the rest
/// of `main`; or a stop at `i` where the word cannot be completed.
pub open spec fn sp_main_word(t: Seq<Token>, i: int) -> (Seq<SpanView>, int)
    decreases t.len() - i, 2int,
{
    match sp_word(t, i) {
        Some((sp, j)) => {
            if i < j <= t.len() {
                let (spans, k) = sp_main(t, j);
                (seq![sp] + spans, k)
            } else {
                (Seq::empty(), i)
            }
        },
        None => (Seq::empty(), i),
    }
}

/// One bracketed word starting at `i`: a filling, code, bold, italic,
/// underline, spoiler, strikethrough or link, with the index just past its
/// closing delimiter; or `None` where no word production matches.
pub open spec fn sp_word(t: Seq<Token>, i: int) -> Option<(SpanView, int)>
    decreases t.len() - i, 1int,
{
    if 0 <= i < t.len() {
        match t[i] {
            Token::LCurly => {
                let (s, j) = sp_raw(t, i + 1);
                if s.len() > 0 && 0 <= j < t.len() && t[j] is RCurly {
                    Some((SpanView::Filling(s), j + 1))
                } else {
                    None
                }
            },
            Token::LSBracket => {
                if i + 1 < t.len() && t[i + 1] is Tick {
                    let (s, j) = sp_raw(t, i + 2);
                    if s.len() > 0 && 0 <= j < t.len() && t[j] is RSBracket {
                        Some((SpanView::Code(s), j + 1))
                    } else {
                        None
                    }
                } else if i + 1 < t.len() && t[i + 1] is Star {
                    sp_wrapped(t, i, WrapKind::Bold)
                } else if i + 1 < t.len() && t[i + 1] is Tilde {
                    sp_wrapped(t, i, WrapKind::Strikethrough)
                } else if i + 1 < t.len() && t[i + 1] is Underscore {
                    sp_wrapped(t, i, WrapKind::Italic)
                } else if i + 1 < t.len() && t[i + 1] is DoubleUnderscore {
                    sp_wrapped(t, i, WrapKind::Underline)
                } else if i + 1 < t.len() && t[i + 1] is DoubleBar {
                    sp_wrapped(t, i, WrapKind::Spoiler)
                } else {
                    sp_link(t, i)
                }
            },
            _ => None,
        }
    } else {
        None
    }
}

/// The wrapping word kinds that share the shape `[<marker> main ]`.
pub enum WrapKind {
    Bold,
    Italic,
    Underline,
    Spoiler,
    Strikethrough,
}

/// The span for a wrapping kind over the given children.
pub open spec fn wrap_span(k: WrapKind, children: Seq<SpanView>) -> SpanView {
    match k {
        WrapKind::Bold => SpanView::Bold(children),
        WrapKind::Italic => SpanView::Italic(children),
        WrapKind::Underline => SpanView::Underline(children),
        WrapKind::Spoiler => SpanView::Spoiler(children),
        WrapKind::Strikethrough => SpanView::Strikethrough(children),
    }
}

/// A word of the shape `[<marker> main ]` starting at `i`, where the marker
/// stands at `i + 1`. Strikethrough alone refuses empty children.
pub open spec fn sp_wrapped(t: Seq<Token>, i: int, k: WrapKind) -> Option<(SpanView, int)>
    decreases t.len() - i, 0int,
{
    if 0 <= i && i + 2 <= t.len() {
        let (spans, j) = sp_main(t, i + 2);
        if (spans.len() > 0 || !(k is Strikethrough)) && 0 <= j < t.len() && t[j] is RSBracket {
            Some((wrap_span(k, spans), j + 1))
        } else {
            None
        }
    } else {
        None
    }
}

/// A link word `[ main ] ( raw )` starting at `i`.
pub open spec fn sp_link(t: Seq<Token>, i: int) -> Option<(SpanView, int)>
    decreases t.len() - i, 0int,
{
    if 0 <= i && i + 1 <= t.len() {
        let (spans, j) = sp_main(t, i + 1);
        if 0 <= j && j + 1 < t.len() && t[j] is RSBracket && t[j + 1] is LParen {
            let (url, k) = sp_raw(t, j + 2);
            if url.len() > 0 && 0 <= k < t.len() && t[k] is RParen {
                Some((SpanView::Link(spans, url), k + 1))
            } else {
                None
            }
        } else {
            None
        }
    } else {
        None
    }
}

/// The parse of a whole token stream: its span list, or `None` where the
/// stream does not reduce to one.
pub open spec fn spec_parse(t: Seq<Token>) -> Option<Seq<SpanView>> {
    let (spans, j) = sp_main(t, 0);
    if j == t.len() {
        Some(spans)
    } else {
        None
    }
}

/// The parse of murkdown source text.
pub open spec fn murk_parse(s: Seq<char>) -> Option<Seq<SpanView>> {
    spec_parse(lex(s))
}

} // verus!

verus! {

/// A raw run: the characters of the longest run of literal-character
/// tokens from `i`, and the index just past it.
fn parse_raw_at(t: &Vec<Token>, i: usize) -> (r: (Vec<char>, usize))
    requires
        i <= t@.len(),
    ensures
        r.0@ == sp_raw(t@, i as int).0,
        r.1 as int == sp_raw(t@, i as int).1,
        i <= r.1 <= t@.len(),
{
    let mut v: Vec<char> = Vec::new();
    let mut j: usize = i;
    loop
        invariant
            i <= j <= t@.len(),
            sp_raw(t@, i as int).0 == v@ + sp_raw(t@, j as int).0,
            sp_raw(t@, i as int).1 == sp_raw(t@, j as int).1,
        ensures
            i <= j <= t@.len(),
            sp_raw(t@, i as int).0 == v@,
            sp_raw(t@, i as int).1 == j,
        decreases t@.len() - j,
    {
        if j >= t.len() {
            proof {
                assert(sp_raw(t@, i as int).0 =~= v@);
            }
            break;
        }
        match t[j] {
            Token::RawChar(c) => {
                v.push(c);
                j = j + 1;
                proof {
                    assert(sp_raw(t@, i as int).0 =~= v@ + sp_raw(t@, j as int).0);
                }
            },
            _ => {
                proof {
                    assert(sp_raw(t@, j as int).0 =~= Seq::<char>::empty());
                    assert(sp_raw(t@, i as int).0 =~= v@);
                }
                break;
            },
        }
    }
    (v, j)
}

/// The spans of `main` from `i`, and the index where the list stops.
fn parse_main_at(t: &Vec<Token>, i: usize) -> (r: (Vec<TgSpan>, usize))
    requires
        i <= t@.len(),
    ensures
        spans_view(r.0@, 0) == sp_main(t@, i as int).0,
        r.1 as int == sp_main(t@, i as int).1,
        i <= r.1 <= t@.len(),
    decreases t@.len() - i, 3int,
{
    let mut acc: Vec<TgSpan> = Vec::new();
    let mut j: usize = i;
    proof {
        assert(spans_view(acc@, 0) + sp_main(t@, i as int).0 =~= sp_main(t@, i as int).0);
    }
    loop
        invariant
            i <= j <= t@.len(),
            t@.len() == t.len(),
            sp_main(t@, i as int).0 == spans_view(acc@, 0) + sp_main(t@, j as int).0,
            sp_main(t@, i as int).1 == sp_main(t@, j as int).1,
        ensures
            i <= j <= t@.len(),
            sp_main(t@, i as int).0 == spans_view(acc@, 0),
            sp_main(t@, i as int).1 == j,
        decreases t@.len() - j, 2int,
    {
        if j >= t.len() {
            proof {
                assert(sp_main(t@, i as int).0 =~= spans_view(acc@, 0));
            }
            break;
        }
        match t[j] {
            Token::RawChar(_) => {
                let (chars, j2) = parse_raw_at(t, j);
                proof {
                    lemma_sp_raw_bounds(t@, j as int);
                }
                let sp = TgSpan::Raw(chars_to_string(&chars));
                proof {
                    assert(span_view(sp) == SpanView::Raw(chars@));
                    lemma_spans_view_push(acc@, sp, 0);
                }
                acc.push(sp);
                j = j2;
                proof {
                    assert(sp_main(t@, i as int).0 =~= spans_view(acc@, 0) + sp_main(
                        t@,
                        j as int,
                    ).0);
                }
            },
            Token::LCurly | Token::LSBracket => {
                match parse_word_at(t, j) {
                    Some((sp, j2)) => {
                        proof {
                            assert(sp_main(t@, j as int) == sp_main_word(t@, j as int));
                            lemma_spans_view_push(acc@, sp, 0);
                        }
                        acc.push(sp);
                        j = j2;
                        proof {
                            assert(sp_main(t@, i as int).0 =~= spans_view(acc@, 0) + sp_main(
                                t@,
                                j as int,
                            ).0);
                        }
                    },
                    None => {
                        proof {
                            assert(sp_main(t@, j as int) == sp_main_word(t@, j as int));
                            assert(sp_main(t@, j as int).0 =~= Seq::<SpanView>::empty());
                            assert(sp_main(t@, i as int).0 =~= spans_view(acc@, 0));
                        }
                        break;
                    },
                }
            },
            _ => {
                proof {
                    assert(sp_main(t@, j as int).0 =~= Seq::<SpanView>::empty());
                    assert(sp_main(t@, i as int).0 =~= spans_view(acc@, 0));
                }
                break;
            },
        }
    }
    (acc, j)
}

/// One bracketed word from `i`, or `None` where no word production
/// matches there.
fn parse_word_at(t: &Vec<Token>, i: usize) -> (r: Option<(TgSpan, usize)>)
    requires
        i < t@.len(),
    ensures
        match r {
            Some(p) => {
                &&& sp_word(t@, i as int) == Some((span_view(p.0), p.1 as int))
                &&& i < p.1 <= t@.len()
            },
            None => sp_word(t@, i as int) is None,
        },
    decreases t@.len() - i, 1int,
{
    let n = t.len();
    match t[i] {
        Token::LCurly => {
            let (chars, j) = parse_raw_at(t, i + 1);
            if chars.len() > 0 && j < t.len() && matches!(t[j], Token::RCurly) {
                let sp = TgSpan::Filling(chars_to_string(&chars));
                proof {
                    assert(span_view(sp) == SpanView::Filling(chars@));
                }
                Some((sp, j + 1))
            } else {
                None
            }
        },
        Token::LSBracket => {
            if i + 1 < n && matches!(t[i + 1], Token::Tick) {
                let (chars, j) = parse_raw_at(t, i + 2);
                if chars.len() > 0 && j < t.len() && matches!(t[j], Token::RSBracket) {
                    let sp = TgSpan::Code(chars_to_string(&chars));
                    proof {
                        assert(span_view(sp) == SpanView::Code(chars@));
                    }
                    Some((sp, j + 1))
                } else {
                    None
                }
            } else if i + 1 < n && matches!(t[i + 1], Token::Star) {
                parse_wrapped_at(t, i, WrapKind::Bold)
            } else if i + 1 < n && matches!(t[i + 1], Token::Tilde) {
                parse_wrapped_at(t, i, WrapKind::Strikethrough)
            } else if i + 1 < n && matches!(t[i + 1], Token::Underscore) {
                parse_wrapped_at(t, i, WrapKind::Italic)
            } else if i + 1 < n && matches!(t[i + 1], Token::DoubleUnderscore) {
                parse_wrapped_at(t, i, WrapKind::Underline)
            } else if i + 1 < n && matches!(t[i + 1], Token::DoubleBar) {
                parse_wrapped_at(t, i, WrapKind::Spoiler)
            } else {
                parse_link_at(t, i)
            }
        },
        _ => None,
    }
}

/// The span wrapping the given children for a wrapping word kind.
fn wrap_exec(k: WrapKind, children: Vec<TgSpan>) -> (r: TgSpan)
    ensures
        span_view(r) == wrap_span(k, spans_view(children@, 0)),
{
    match k {
        WrapKind::Bold => TgSpan::Bold(children),
        WrapKind::Italic => TgSpan::Italic(children),
        WrapKind::Underline => TgSpan::Underline(children),
        WrapKind::Spoiler => TgSpan::Spoiler(children),
        WrapKind::Strikethrough => TgSpan::Strikethrough(children),
    }
}

/// A word of the shape `[<marker> main ]` whose marker stands at `i + 1`.
fn parse_wrapped_at(t: &Vec<Token>, i: usize, k: WrapKind) -> (r: Option<(TgSpan, usize)>)
    requires
        i + 2 <= t@.len(),
    ensures
        match r {
            Some(p) => {
                &&& sp_wrapped(t@, i as int, k) == Some((span_view(p.0), p.1 as int))
                &&& i < p.1 <= t@.len()
            },
            None => sp_wrapped(t@, i as int, k) is None,
        },
    decreases t@.len() - i, 0int,
{
    let n = t.len();
    let is_strike = matches!(k, WrapKind::Strikethrough);
    let (children, j) = parse_main_at(t, i + 2);
    proof {
        lemma_spans_view_len(children@, 0);
    }
    if (children.len() > 0 || !is_strike) && j < t.len() && matches!(t[j], Token::RSBracket) {
        let sp = wrap_exec(k, children);
        Some((sp, j + 1))
    } else {
        None
    }
}

/// A link word `[ main ] ( raw )` starting at `i`.
fn parse_link_at(t: &Vec<Token>, i: usize) -> (r: Option<(TgSpan, usize)>)
    requires
        i < t@.len(),
    ensures
        match r {
            Some(p) => {
                &&& sp_link(t@, i as int) == Some((span_view(p.0), p.1 as int))
                &&& i < p.1 <= t@.len()
            },
            None => sp_link(t@, i as int) is None,
        },
    decreases t@.len() - i, 0int,
{
    let n = t.len();
    let (hint, j) = parse_main_at(t, i + 1);
    if j < n && matches!(t[j], Token::RSBracket) && j + 1 < n && matches!(t[j + 1], Token::LParen) {
        let (url, k) = parse_raw_at(t, j + 2);
        if url.len() > 0 && k < t.len() && matches!(t[k], Token::RParen) {
            let sp = TgSpan::Link(hint, chars_to_string(&url));
            proof {
                assert(span_view(sp) == SpanView::Link(spans_view(hint@, 0), url@));
            }
            Some((sp, k + 1))
        } else {
            None
        }
    } else {
        None
    }
}

/// Reduces a whole token stream to a span list, or fails where the stream
/// does not reduce to one.
pub fn parse(tokens: &Vec<Token>) -> (r: Result<Vec<TgSpan>, DefaultParseErr>)
    ensures
        match r {
            Ok(spans) => spec_parse(tokens@) == Some(spans_view(spans@, 0)),
            Err(_) => spec_parse(tokens@) is None,
        },
{
    let (spans, j) = parse_main_at(tokens, 0);
    if j == tokens.len() {
        Ok(spans)
    } else {
        Err(DefaultParseErr {})
    }
}

/// Lexes and parses murkdown source text.
pub fn parse_murkdown(text: &str) -> (r: Result<Vec<TgSpan>, DefaultParseErr>)
    ensures
        match r {
            Ok(spans) => murk_parse(text@) == Some(spans_view(spans@, 0)),
            Err(_) => murk_parse(text@) is None,
        },
{
    let tokens = crate::lexer::tokenize(text);
    parse(&tokens)
}

} // verus!

