//! The entity resolver: a depth-first walk of a span tree that appends
//! text and entities into a builder, resolving template fillings against
//! optional runtime context. Broken template fields degrade to literal
//! output and never fail.

use vstd::prelude::*;
use vstd::string::StringExecFns;
use crate::builder::MarkupBuilder;
use crate::entities::{CtxView, EntityKind, EntityView, KindView, MessageContext, TgUser, UserView};
use crate::parser::{murk_parse, parse_murkdown, DefaultParseErr};
use crate::span::{lemma_spans_view_at, lemma_spans_view_len, span_view, spans_view, SpanView, TgSpan};
use crate::text::{dec_int, i64_to_dec, lemma_utf16_concat, str_eq, utf16_len, utf16_len_i64};

verus! {

/// The view of an optional borrowed context.
pub open spec fn ctx_view(c: Option<&MessageContext>) -> Option<CtxView> {
    match c {
        Some(m) => Some(m@),
        None => None,
    }
}

/// The display name of a user: the at-marked username where one exists,
/// else the first name.
pub open spec fn display_name(u: UserView) -> Seq<char> {
    match u.username {
        Some(n) => "@"@ + n,
        None => u.first_name,
    }
}

/// A placeholder name in its literal textual form, braces restored.
pub open spec fn brace(name: Seq<char>) -> Seq<char> {
    "{"@ + name + "}"@
}

/// The text a filling resolves to. Without context every filling degrades
/// to its literal form; with context the recognized names read the sender
/// and chat, a sender-reading name with no sender yields nothing, and an
/// unrecognized name degrades to its literal form.
pub open spec fn filling_text(name: Seq<char>, ctx: Option<CtxView>) -> Seq<char> {
    match ctx {
        None => brace(name),
        Some(c) => if name == "username"@ {
            match c.sender {
                Some(u) => display_name(u),
                None => Seq::empty(),
            }
        } else if name == "first"@ {
            match c.sender {
                Some(u) => u.first_name,
                None => Seq::empty(),
            }
        } else if name == "last"@ {
            match c.sender {
                Some(u) => match u.last_name {
                    Some(l) => l,
                    None => Seq::empty(),
                },
                None => Seq::empty(),
            }
        } else if name == "mention"@ {
            match c.sender {
                Some(u) => u.first_name,
                None => Seq::empty(),
            }
        } else if name == "chatname"@ {
            c.chat.name
        } else if name == "id"@ {
            match c.sender {
                Some(u) => dec_int(u.id),
                None => Seq::empty(),
            }
        } else {
            brace(name)
        },
    }
}

/// The user a filling binds a mention entity to: the sender, for the
/// `username` and `mention` names when a sender is present.
pub open spec fn filling_mention(name: Seq<char>, ctx: Option<CtxView>) -> Option<UserView> {
    match ctx {
        None => None,
        Some(c) => if name == "username"@ || name == "mention"@ {
            c.sender
        } else {
            None
        },
    }
}

/// The text one resolved span appends.
pub open spec fn rtext(sv: SpanView, ctx: Option<CtxView>) -> Seq<char>
    decreases sv, 0int,
{
    match sv {
        SpanView::Code(s) => s,
        SpanView::Raw(s) => s,
        SpanView::Filling(name) => filling_text(name, ctx),
        SpanView::Italic(l) => rtext_list(l, ctx, 0),
        SpanView::Bold(l) => rtext_list(l, ctx, 0),
        SpanView::Strikethrough(l) => rtext_list(l, ctx, 0),
        SpanView::Underline(l) => rtext_list(l, ctx, 0),
        SpanView::Spoiler(l) => rtext_list(l, ctx, 0),
        SpanView::Link(l, _) => rtext_list(l, ctx, 0),
    }
}

/// The text a list of resolved spans appends, from index `i` on.
pub open spec fn rtext_list(l: Seq<SpanView>, ctx: Option<CtxView>, i: int) -> Seq<char>
    decreases l, l.len() - i,
{
    if i < 0 || i >= l.len() {
        Seq::empty()
    } else {
        rtext(l[i], ctx) + rtext_list(l, ctx, i + 1)
    }
}

/// The entities one resolved span appends, anchored at `start`: children
/// first, then the span's own wrapping entity where it has one.
pub open spec fn rents(sv: SpanView, ctx: Option<CtxView>, start: int) -> Seq<EntityView>
    decreases sv, 0int,
{
    match sv {
        SpanView::Code(s) => seq![
            EntityView { kind: KindView::Code, offset: start, length: utf16_len(s) as int },
        ],
        SpanView::Raw(_) => Seq::empty(),
        SpanView::Filling(name) => match filling_mention(name, ctx) {
            Some(u) => seq![
                EntityView {
                    kind: KindView::TextMention(u),
                    offset: start,
                    length: utf16_len(filling_text(name, ctx)) as int,
                },
            ],
            None => Seq::empty(),
        },
        SpanView::Italic(l) => rents_wrapped(l, ctx, start, KindView::Italic),
        SpanView::Bold(l) => rents_wrapped(l, ctx, start, KindView::Bold),
        SpanView::Strikethrough(l) => rents_wrapped(l, ctx, start, KindView::Strikethrough),
        SpanView::Underline(l) => rents_wrapped(l, ctx, start, KindView::Underline),
        SpanView::Spoiler(l) => rents_wrapped(l, ctx, start, KindView::Spoiler),
        SpanView::Link(l, url) => rents_wrapped(l, ctx, start, KindView::TextLink(url)),
    }
}

/// The entities of a wrapping span: its children's entities, then one
/// entity of the wrapping kind over the children's whole range.
pub open spec fn rents_wrapped(
    l: Seq<SpanView>,
    ctx: Option<CtxView>,
    start: int,
    kind: KindView,
) -> Seq<EntityView>
    decreases l, l.len() + 1,
{
    rents_list(l, ctx, start, 0) + seq![
        EntityView { kind: kind, offset: start, length: utf16_len(rtext_list(l, ctx, 0)) as int },
    ]
}

/// The entities a list of resolved spans appends, from index `i` on, with
/// the span at `i` anchored at `start`.
pub open spec fn rents_list(
    l: Seq<SpanView>,
    ctx: Option<CtxView>,
    start: int,
    i: int,
) -> Seq<EntityView>
    decreases l, l.len() - i,
{
    if i < 0 || i >= l.len() {
        Seq::empty()
    } else {
        rents(l[i], ctx, start) + rents_list(
            l,
            ctx,
            start + utf16_len(rtext(l[i], ctx)),
            i + 1,
        )
    }
}

} // verus!

verus! {

/// The display name of a user record.
fn display_name_exec(u: &TgUser) -> (r: String)
    ensures
        r@ == display_name(u@),
{
    match &u.username {
        Some(n) => {
            let mut s = "@".to_owned();
            s.append(n.as_str());
            s
        },
        None => u.first_name.clone(),
    }
}

/// A placeholder name in its literal textual form.
fn brace_exec(name: &str) -> (r: String)
    ensures
        r@ == brace(name@),
{
    let mut s = "{".to_owned();
    s.append(name);
    s.append("}");
    s
}

/// The recognized filling names that bind no mention entity differ from
/// the two that do.
proof fn lemma_filling_names_distinct()
    ensures
        "first"@ != "username"@,
        "first"@ != "mention"@,
        "last"@ != "username"@,
        "last"@ != "mention"@,
        "chatname"@ != "username"@,
        "chatname"@ != "mention"@,
        "id"@ != "username"@,
        "id"@ != "mention"@,
{
    reveal_strlit("username");
    reveal_strlit("first");
    reveal_strlit("last");
    reveal_strlit("mention");
    reveal_strlit("chatname");
    reveal_strlit("id");
    assert("first"@.len() == 5);
    assert("last"@.len() == 4);
    assert("id"@.len() == 2);
    assert("username"@.len() == 8);
    assert("mention"@.len() == 7);
    assert("chatname"@.len() == 8);
    assert("chatname"@[0] == 'c');
    assert("username"@[0] == 'u');
}

/// The text a filling resolves to, and the user its mention entity binds
/// to where it produces one.
fn fill_value(name: &str, ctx: Option<&MessageContext>) -> (r: (String, Option<TgUser>))
    ensures
        r.0@ == filling_text(name@, ctx_view(ctx)),
        match r.1 {
            Some(u) => filling_mention(name@, ctx_view(ctx)) == Some(u@),
            None => filling_mention(name@, ctx_view(ctx)) is None,
        },
{
    proof {
        lemma_filling_names_distinct();
    }
    match ctx {
        None => (brace_exec(name), None),
        Some(m) => {
            if str_eq(name, "username") {
                match &m.sender {
                    Some(u) => (display_name_exec(u), Some(u.duplicate())),
                    None => (String::new(), None),
                }
            } else if str_eq(name, "first") {
                match &m.sender {
                    Some(u) => (u.first_name.clone(), None),
                    None => (String::new(), None),
                }
            } else if str_eq(name, "last") {
                match &m.sender {
                    Some(u) => match &u.last_name {
                        Some(l) => (l.clone(), None),
                        None => (String::new(), None),
                    },
                    None => (String::new(), None),
                }
            } else if str_eq(name, "mention") {
                match &m.sender {
                    Some(u) => (u.first_name.clone(), Some(u.duplicate())),
                    None => (String::new(), None),
                }
            } else if str_eq(name, "chatname") {
                (m.chat.name.clone(), None)
            } else if str_eq(name, "id") {
                match &m.sender {
                    Some(u) => (i64_to_dec(u.id), None),
                    None => (String::new(), None),
                }
            } else {
                (brace_exec(name), None)
            }
        },
    }
}

impl MarkupBuilder {
    /// Resolves one span: appends its text and entities, returning the
    /// UTF-16 length of the text it appended.
    fn resolve_span(&mut self, sp: &TgSpan, ctx: Option<&MessageContext>) -> (sz: i64)
        requires
            old(self)@.offset >= 0,
            old(self)@.offset + utf16_len(rtext(span_view(*sp), ctx_view(ctx))) <= i64::MAX,
        ensures
            final(self)@.text == old(self)@.text + rtext(span_view(*sp), ctx_view(ctx)),
            final(self)@.entities == old(self)@.entities + rents(
                span_view(*sp),
                ctx_view(ctx),
                old(self)@.offset,
            ),
            final(self)@.offset == old(self)@.offset + utf16_len(
                rtext(span_view(*sp), ctx_view(ctx)),
            ),
            sz as int == utf16_len(rtext(span_view(*sp), ctx_view(ctx))),
        decreases *sp, 1int,
    {
        let ghost sv = span_view(*sp);
        let ghost cv = ctx_view(ctx);
        match sp {
            TgSpan::Code(code) => {
                let n = utf16_len_i64(code.as_str());
                self.code(code.as_str());
                proof {
                    assert(final(self)@.entities =~= old(self)@.entities + rents(
                        sv,
                        cv,
                        old(self)@.offset,
                    ));
                }
                n
            },
            TgSpan::Raw(s) => {
                let n = utf16_len_i64(s.as_str());
                self.text(s.as_str());
                proof {
                    assert(final(self)@.entities =~= old(self)@.entities + rents(
                        sv,
                        cv,
                        old(self)@.offset,
                    ));
                }
                n
            },
            TgSpan::Filling(name) => {
                let (txt, men) = fill_value(name.as_str(), ctx);
                let n = utf16_len_i64(txt.as_str());
                match men {
                    Some(u) => {
                        self.text_mention(txt.as_str(), u, None);
                        proof {
                            assert(final(self)@.entities =~= old(self)@.entities + rents(
                                sv,
                                cv,
                                old(self)@.offset,
                            ));
                        }
                    },
                    None => {
                        self.text(txt.as_str());
                        proof {
                            assert(final(self)@.entities =~= old(self)@.entities + rents(
                                sv,
                                cv,
                                old(self)@.offset,
                            ));
                        }
                    },
                }
                n
            },
            TgSpan::Bold(v) => {
                let start = self.cursor();
                let n = self.resolve_vec(v, 0, ctx);
                self.manual(EntityKind::Bold, start, n);
                proof {
                    assert(final(self)@.entities =~= old(self)@.entities + rents(
                        sv,
                        cv,
                        old(self)@.offset,
                    ));
                }
                n
            },
            TgSpan::Italic(v) => {
                let start = self.cursor();
                let n = self.resolve_vec(v, 0, ctx);
                self.manual(EntityKind::Italic, start, n);
                proof {
                    assert(final(self)@.entities =~= old(self)@.entities + rents(
                        sv,
                        cv,
                        old(self)@.offset,
                    ));
                }
                n
            },
            TgSpan::Strikethrough(v) => {
                let start = self.cursor();
                let n = self.resolve_vec(v, 0, ctx);
                self.manual(EntityKind::Strikethrough, start, n);
                proof {
                    assert(final(self)@.entities =~= old(self)@.entities + rents(
                        sv,
                        cv,
                        old(self)@.offset,
                    ));
                }
                n
            },
            TgSpan::Underline(v) => {
                let start = self.cursor();
                let n = self.resolve_vec(v, 0, ctx);
                self.manual(EntityKind::Underline, start, n);
                proof {
                    assert(final(self)@.entities =~= old(self)@.entities + rents(
                        sv,
                        cv,
                        old(self)@.offset,
                    ));
                }
                n
            },
            TgSpan::Spoiler(v) => {
                let start = self.cursor();
                let n = self.resolve_vec(v, 0, ctx);
                self.manual(EntityKind::Spoiler, start, n);
                proof {
                    assert(final(self)@.entities =~= old(self)@.entities + rents(
                        sv,
                        cv,
                        old(self)@.offset,
                    ));
                }
                n
            },
            TgSpan::Link(v, url) => {
                let start = self.cursor();
                let n = self.resolve_vec(v, 0, ctx);
                self.manual(EntityKind::TextLink(url.clone()), start, n);
                proof {
                    assert(final(self)@.entities =~= old(self)@.entities + rents(
                        sv,
                        cv,
                        old(self)@.offset,
                    ));
                }
                n
            },
        }
    }

    /// Resolves the spans of a vector from index `i` on, returning the
    /// UTF-16 length of all the text they appended.
    fn resolve_vec(&mut self, v: &Vec<TgSpan>, i: usize, ctx: Option<&MessageContext>) -> (sz: i64)
        requires
            i <= v@.len(),
            old(self)@.offset >= 0,
            old(self)@.offset + utf16_len(
                rtext_list(spans_view(v@, 0), ctx_view(ctx), i as int),
            ) <= i64::MAX,
        ensures
            final(self)@.text == old(self)@.text + rtext_list(
                spans_view(v@, 0),
                ctx_view(ctx),
                i as int,
            ),
            final(self)@.entities == old(self)@.entities + rents_list(
                spans_view(v@, 0),
                ctx_view(ctx),
                old(self)@.offset,
                i as int,
            ),
            final(self)@.offset == old(self)@.offset + utf16_len(
                rtext_list(spans_view(v@, 0), ctx_view(ctx), i as int),
            ),
            sz as int == utf16_len(rtext_list(spans_view(v@, 0), ctx_view(ctx), i as int)),
        decreases v@, 0int,
    {
        let ghost svl = spans_view(v@, 0);
        let ghost cv = ctx_view(ctx);
        let ghost base = old(self)@;
        proof {
            lemma_spans_view_len(v@, 0);
        }
        let start = self.cursor();
        let mut j: usize = i;
        loop
            invariant
                i <= j <= v@.len(),
                v@.len() == v.len(),
                svl == spans_view(v@, 0),
                cv == ctx_view(ctx),
                svl.len() == v@.len(),
                base == old(self)@,
                base.offset >= 0,
                self@.offset >= base.offset,
                start as int == base.offset,
                base.offset + utf16_len(rtext_list(svl, cv, i as int)) <= i64::MAX,
                base.text + rtext_list(svl, cv, i as int) == self@.text + rtext_list(
                    svl,
                    cv,
                    j as int,
                ),
                base.entities + rents_list(svl, cv, base.offset, i as int) == self@.entities
                    + rents_list(svl, cv, self@.offset, j as int),
                base.offset + utf16_len(rtext_list(svl, cv, i as int)) == self@.offset + utf16_len(
                    rtext_list(svl, cv, j as int),
                ),
            ensures
                j == v@.len(),
                self@.text == base.text + rtext_list(svl, cv, i as int),
                self@.entities == base.entities + rents_list(svl, cv, base.offset, i as int),
                self@.offset == base.offset + utf16_len(rtext_list(svl, cv, i as int)),
            decreases v@.len() - j,
        {
            if j >= v.len() {
                proof {
                    assert(rtext_list(svl, cv, j as int) =~= Seq::<char>::empty());
                    assert(rents_list(svl, cv, self@.offset, j as int) =~= Seq::<
                        EntityView,
                    >::empty());
                    assert(self@.text =~= base.text + rtext_list(svl, cv, i as int));
                    assert(self@.entities =~= base.entities + rents_list(
                        svl,
                        cv,
                        base.offset,
                        i as int,
                    ));
                }
                break;
            }
            proof {
                lemma_spans_view_at(v@, 0, j as int);
                assert(rtext_list(svl, cv, j as int) == rtext(svl[j as int], cv) + rtext_list(
                    svl,
                    cv,
                    j as int + 1,
                ));
                lemma_utf16_concat(rtext(svl[j as int], cv), rtext_list(svl, cv, j as int + 1));
            }
            let ghost pre = self@;
            let n = self.resolve_span(&v[j], ctx);
            j = j + 1;
            proof {
                assert(base.text + rtext_list(svl, cv, i as int) =~= self@.text + rtext_list(
                    svl,
                    cv,
                    j as int,
                ));
                assert(rents_list(svl, cv, pre.offset, j as int - 1) == rents(
                    svl[j as int - 1],
                    cv,
                    pre.offset,
                ) + rents_list(svl, cv, pre.offset + utf16_len(rtext(svl[j as int - 1], cv)), j as int));
                assert(base.entities + rents_list(svl, cv, base.offset, i as int) =~= self@.entities
                    + rents_list(svl, cv, self@.offset, j as int));
            }
        }
        let sz = self.cursor() - start;
        sz
    }

    /// Resolves a whole span list into this builder, returning the offset
    /// where the resolved range starts and its UTF-16 length.
    pub fn parse_tgspan(&mut self, spans: Vec<TgSpan>, ctx: Option<&MessageContext>) -> (r: (
        i64,
        i64,
    ))
        requires
            old(self)@.offset >= 0,
            old(self)@.offset + utf16_len(
                rtext_list(spans_view(spans@, 0), ctx_view(ctx), 0),
            ) <= i64::MAX,
        ensures
            final(self)@.text == old(self)@.text + rtext_list(
                spans_view(spans@, 0),
                ctx_view(ctx),
                0,
            ),
            final(self)@.entities == old(self)@.entities + rents_list(
                spans_view(spans@, 0),
                ctx_view(ctx),
                old(self)@.offset,
                0,
            ),
            final(self)@.offset == old(self)@.offset + utf16_len(
                rtext_list(spans_view(spans@, 0), ctx_view(ctx), 0),
            ),
            r.0 as int == old(self)@.offset,
            r.1 as int == utf16_len(rtext_list(spans_view(spans@, 0), ctx_view(ctx), 0)),
    {
        let start = self.cursor();
        let sz = self.resolve_vec(&spans, 0, ctx);
        (start, sz)
    }
}

} // verus!


verus! {

/// The UTF-16 length of the text one span resolves to, or `None` where it
/// exceeds `i64::MAX`.
fn measure_span(sp: &TgSpan, ctx: Option<&MessageContext>) -> (r: Option<i64>)
    ensures
        match r {
            Some(n) => n as int == utf16_len(rtext(span_view(*sp), ctx_view(ctx))) && n >= 0,
            None => utf16_len(rtext(span_view(*sp), ctx_view(ctx))) > i64::MAX,
        },
    decreases *sp, 1int,
{
    match sp {
        TgSpan::Code(s) => crate::text::utf16_len_checked(s.as_str()),
        TgSpan::Raw(s) => crate::text::utf16_len_checked(s.as_str()),
        TgSpan::Filling(name) => {
            let (txt, _) = fill_value(name.as_str(), ctx);
            crate::text::utf16_len_checked(txt.as_str())
        },
        TgSpan::Bold(v) => measure_vec(v, 0, ctx),
        TgSpan::Italic(v) => measure_vec(v, 0, ctx),
        TgSpan::Strikethrough(v) => measure_vec(v, 0, ctx),
        TgSpan::Underline(v) => measure_vec(v, 0, ctx),
        TgSpan::Spoiler(v) => measure_vec(v, 0, ctx),
        TgSpan::Link(v, _) => measure_vec(v, 0, ctx),
    }
}

/// The UTF-16 length of the text the spans of a vector resolve to, from
/// index `i` on, or `None` where it exceeds `i64::MAX`.
fn measure_vec(v: &Vec<TgSpan>, i: usize, ctx: Option<&MessageContext>) -> (r: Option<i64>)
    requires
        i <= v@.len(),
    ensures
        match r {
            Some(n) => n as int == utf16_len(
                rtext_list(spans_view(v@, 0), ctx_view(ctx), i as int),
            ) && n >= 0,
            None => utf16_len(rtext_list(spans_view(v@, 0), ctx_view(ctx), i as int)) > i64::MAX,
        },
    decreases v@, 0int,
{
    let ghost svl = spans_view(v@, 0);
    let ghost cv = ctx_view(ctx);
    proof {
        lemma_spans_view_len(v@, 0);
    }
    let mut acc: i64 = 0;
    let mut j: usize = i;
    loop
        invariant
            i <= j <= v@.len(),
            v@.len() == v.len(),
            svl == spans_view(v@, 0),
            cv == ctx_view(ctx),
            svl.len() == v@.len(),
            0 <= acc,
            utf16_len(rtext_list(svl, cv, i as int)) == acc + utf16_len(
                rtext_list(svl, cv, j as int),
            ),
        ensures
            j == v@.len(),
            acc as int == utf16_len(rtext_list(svl, cv, i as int)),
        decreases v@.len() - j,
    {
        if j >= v.len() {
            proof {
                assert(utf16_len(rtext_list(svl, cv, j as int)) == 0);
            }
            break;
        }
        proof {
            lemma_spans_view_at(v@, 0, j as int);
            assert(rtext_list(svl, cv, j as int) == rtext(svl[j as int], cv) + rtext_list(
                svl,
                cv,
                j as int + 1,
            ));
            lemma_utf16_concat(rtext(svl[j as int], cv), rtext_list(svl, cv, j as int + 1));
        }
        match measure_span(&v[j], ctx) {
            Some(n) => {
                if acc > i64::MAX - n {
                    return None;
                }
                acc = acc + n;
                j = j + 1;
            },
            None => {
                return None;
            },
        }
    }
    Some(acc)
}

impl MarkupBuilder {
    /// Parses murkdown source and resolves it with the given context into
    /// a fresh builder. Fails exactly where the source does not parse.
    fn from_murkdown_internal(text: &str, ctx: Option<&MessageContext>) -> (r: Result<
        MarkupBuilder,
        DefaultParseErr,
    >)
        requires
            murk_parse(text@) matches Some(sv) ==> utf16_len(
                rtext_list(sv, ctx_view(ctx), 0),
            ) <= i64::MAX,
        ensures
            match r {
                Ok(b) => {
                    &&& murk_parse(text@) matches Some(sv)
                    &&& b@.text == rtext_list(sv, ctx_view(ctx), 0)
                    &&& b@.entities == rents_list(sv, ctx_view(ctx), 0, 0)
                    &&& b@.offset == utf16_len(rtext_list(sv, ctx_view(ctx), 0))
                },
                Err(_) => murk_parse(text@) is None,
            },
    {
        match parse_murkdown(text) {
            Err(e) => Err(e),
            Ok(spans) => {
                let mut b = MarkupBuilder::new();
                let _ = b.parse_tgspan(spans, ctx);
                proof {
                    assert(b@.text =~= rtext_list(
                        spans_view(spans@, 0),
                        ctx_view(ctx),
                        0,
                    ));
                    assert(b@.entities =~= rents_list(
                        spans_view(spans@, 0),
                        ctx_view(ctx),
                        0,
                        0,
                    ));
                }
                Ok(b)
            },
        }
    }

    /// Parses murkdown source without context: every filling degrades to
    /// its literal form. Fails exactly where the source does not parse.
    /// Resolution without context cannot lengthen the text, so a source
    /// whose own UTF-16 length fits the entity offset range suffices.
    pub fn from_murkdown(text: &str) -> (r: Result<MarkupBuilder, DefaultParseErr>)
        requires
            utf16_len(text@) <= i64::MAX,
        ensures
            match r {
                Ok(b) => {
                    &&& murk_parse(text@) matches Some(sv)
                    &&& b@.text == rtext_list(sv, None, 0)
                    &&& b@.entities == rents_list(sv, None, 0, 0)
                    &&& b@.offset == utf16_len(rtext_list(sv, None, 0))
                },
                Err(_) => murk_parse(text@) is None,
            },
    {
        proof {
            crate::laws::lemma_resolved_no_context_bounded(text@);
        }
        Self::from_murkdown_internal(text, None)
    }

    /// Parses murkdown source and resolves its fillings against the given
    /// message context. Fails exactly where the source does not parse.
    pub fn from_murkdown_message(text: &str, message: &MessageContext) -> (r: Result<
        MarkupBuilder,
        DefaultParseErr,
    >)
        requires
            murk_parse(text@) matches Some(sv) ==> utf16_len(
                rtext_list(sv, Some(message@), 0),
            ) <= i64::MAX,
        ensures
            match r {
                Ok(b) => {
                    &&& murk_parse(text@) matches Some(sv)
                    &&& b@.text == rtext_list(sv, Some(message@), 0)
                    &&& b@.entities == rents_list(sv, Some(message@), 0, 0)
                    &&& b@.offset == utf16_len(rtext_list(sv, Some(message@), 0))
                },
                Err(_) => murk_parse(text@) is None,
            },
    {
        Self::from_murkdown_internal(text, Some(message))
    }

    /// Parses and resolves murkdown source, first checking at run time
    /// that the resolved text's UTF-16 length fits the entity offset
    /// range; `None` reports that it does not.
    pub fn try_from_murkdown(text: &str, ctx: Option<&MessageContext>) -> (r: Option<
        Result<MarkupBuilder, DefaultParseErr>,
    >)
        ensures
            match r {
                None => {
                    &&& murk_parse(text@) matches Some(sv)
                    &&& utf16_len(rtext_list(sv, ctx_view(ctx), 0)) > i64::MAX
                },
                Some(Err(_)) => murk_parse(text@) is None,
                Some(Ok(b)) => {
                    &&& murk_parse(text@) matches Some(sv)
                    &&& b@.text == rtext_list(sv, ctx_view(ctx), 0)
                    &&& b@.entities == rents_list(sv, ctx_view(ctx), 0, 0)
                    &&& b@.offset == utf16_len(rtext_list(sv, ctx_view(ctx), 0))
                },
            },
    {
        match parse_murkdown(text) {
            Err(e) => Some(Err(e)),
            Ok(spans) => {
                match measure_vec(&spans, 0, ctx) {
                    None => None,
                    Some(_) => {
                        let mut b = MarkupBuilder::new();
                        let _ = b.parse_tgspan(spans, ctx);
                        proof {
                            assert(b@.text =~= rtext_list(
                                spans_view(spans@, 0),
                                ctx_view(ctx),
                                0,
                            ));
                            assert(b@.entities =~= rents_list(
                                spans_view(spans@, 0),
                                ctx_view(ctx),
                                0,
                                0,
                            ));
                        }
                        Some(Ok(b))
                    },
                }
            },
        }
    }
}

} // verus!
