//! The span tree: the intermediate representation of formatted text shared
//! by the murkdown parser and the Markdown adapter.

use vstd::prelude::*;

verus! {

broadcast use vstd::std_specs::vec::axiom_vec_decreases_to_view, vstd::seq::axiom_seq_index_decreases;

/// A node of the formatted-text tree.
pub enum TgSpan {
    /// Monospace text, kept verbatim.
    Code(String),
    Italic(Vec<TgSpan>),
    Bold(Vec<TgSpan>),
    Strikethrough(Vec<TgSpan>),
    Underline(Vec<TgSpan>),
    Spoiler(Vec<TgSpan>),
    /// Hint spans and the literal target URL.
    Link(Vec<TgSpan>, String),
    /// Plain text.
    Raw(String),
    /// A named template placeholder, resolved against runtime context.
    Filling(String),
}

/// Mathematical view of a span tree node.
pub enum SpanView {
    Code(Seq<char>),
    Italic(Seq<SpanView>),
    Bold(Seq<SpanView>),
    Strikethrough(Seq<SpanView>),
    Underline(Seq<SpanView>),
    Spoiler(Seq<SpanView>),
    Link(Seq<SpanView>, Seq<char>),
    Raw(Seq<char>),
    Filling(Seq<char>),
}

/// The view of one span node.
pub open spec fn span_view(t: TgSpan) -> SpanView
    decreases t, 0int,
{
    match t {
        TgSpan::Code(s) => SpanView::Code(s@),
        TgSpan::Italic(v) => SpanView::Italic(spans_view(v@, 0)),
        TgSpan::Bold(v) => SpanView::Bold(spans_view(v@, 0)),
        TgSpan::Strikethrough(v) => SpanView::Strikethrough(spans_view(v@, 0)),
        TgSpan::Underline(v) => SpanView::Underline(spans_view(v@, 0)),
        TgSpan::Spoiler(v) => SpanView::Spoiler(spans_view(v@, 0)),
        TgSpan::Link(v, url) => SpanView::Link(spans_view(v@, 0), url@),
        TgSpan::Raw(s) => SpanView::Raw(s@),
        TgSpan::Filling(s) => SpanView::Filling(s@),
    }
}

/// The views of the spans of a sequence, from the given index on.
pub open spec fn spans_view(s: Seq<TgSpan>, i: int) -> Seq<SpanView>
    decreases s, s.len() - i,
{
    if i < 0 || i >= s.len() {
        Seq::empty()
    } else {
        seq![span_view(s[i])] + spans_view(s, i + 1)
    }
}

/// A span sequence's view has one element per span.
pub proof fn lemma_spans_view_len(s: Seq<TgSpan>, i: int)
    requires
        0 <= i <= s.len(),
    ensures
        spans_view(s, i).len() == s.len() - i,
    decreases s.len() - i,
{
    if i < s.len() {
        lemma_spans_view_len(s, i + 1);
    }
}

/// Pushing a span onto a sequence appends its view.
pub proof fn lemma_spans_view_push(s: Seq<TgSpan>, x: TgSpan, i: int)
    requires
        0 <= i <= s.len(),
    ensures
        spans_view(s.push(x), i) == spans_view(s, i) + seq![span_view(x)],
    decreases s.len() - i,
{
    let w = s.push(x);
    assert(w.len() == s.len() + 1);
    if i < s.len() {
        lemma_spans_view_push(s, x, i + 1);
        assert(w[i] == s[i]);
        assert(spans_view(w, i) =~= spans_view(s, i) + seq![span_view(x)]);
    } else {
        assert(w[i] == x);
        assert(spans_view(w, i + 1) =~= Seq::<SpanView>::empty());
        assert(spans_view(w, i) =~= spans_view(s, i) + seq![span_view(x)]);
    }
}

/// The element at position `k` of the view from `i` is the view of the
/// span at position `k` of the sequence.
pub proof fn lemma_spans_view_at(s: Seq<TgSpan>, i: int, k: int)
    requires
        0 <= i <= k < s.len(),
    ensures
        spans_view(s, i)[k - i] == span_view(s[k]),
    decreases k - i,
{
    if i < k {
        lemma_spans_view_at(s, i + 1, k);
        lemma_spans_view_len(s, i + 1);
        assert(spans_view(s, i) == seq![span_view(s[i])] + spans_view(s, i + 1));
        assert(spans_view(s, i)[k - i] == spans_view(s, i + 1)[k - i - 1]);
    }
}

} // verus!
