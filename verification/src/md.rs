//! The Markdown adapter: conventional Markdown is tokenized by an outside
//! crate into a block tree, which is mapped onto the same builder
//! operations the murkdown resolver uses. No template resolution exists on
//! this path.

use vstd::prelude::*;
use crate::builder::MarkupBuilder;
use crate::entities::{EntityKind, EntityView, KindView};
use crate::text::{lemma_utf16_concat, utf16_len, utf16_len_i64};

verus! {

broadcast use vstd::std_specs::vec::axiom_vec_decreases_to_view, vstd::seq::axiom_seq_index_decreases;

/// An inline span of the Markdown block tree, holding as plain values
/// exactly what entity emission reads.
pub enum MdSpan {
    /// A line break, emitted as a newline.
    Break,
    Text(String),
    Code(String),
    /// Link text and target URL.
    Link(String, String),
    /// Images contribute no output.
    Image,
    Emphasis(Vec<MdSpan>),
    Strong(Vec<MdSpan>),
}

/// An item of a Markdown list.
pub enum MdListItem {
    Simple(Vec<MdSpan>),
    Paragraph(Vec<MdBlock>),
}

/// A block of the Markdown block tree.
pub enum MdBlock {
    Header(Vec<MdSpan>),
    Paragraph(Vec<MdSpan>),
    Blockquote(Vec<MdBlock>),
    /// The literal text of a fenced or indented code block.
    CodeBlock(String),
    OrderedList(Vec<MdListItem>),
    UnorderedList(Vec<MdListItem>),
    Raw(String),
    /// Horizontal rules contribute no output.
    Hr,
}

/// Mathematical view of an inline span.
pub enum MdSpanView {
    Break,
    Text(Seq<char>),
    Code(Seq<char>),
    Link(Seq<char>, Seq<char>),
    Image,
    Emphasis(Seq<MdSpanView>),
    Strong(Seq<MdSpanView>),
}

/// Mathematical view of a list item.
pub enum MdListItemView {
    Simple(Seq<MdSpanView>),
    Paragraph(Seq<MdBlockView>),
}

/// Mathematical view of a block.
pub enum MdBlockView {
    Header(Seq<MdSpanView>),
    Paragraph(Seq<MdSpanView>),
    Blockquote(Seq<MdBlockView>),
    CodeBlock(Seq<char>),
    OrderedList(Seq<MdListItemView>),
    UnorderedList(Seq<MdListItemView>),
    Raw(Seq<char>),
    Hr,
}

/// The view of one inline span.
pub open spec fn md_span_view(s: MdSpan) -> MdSpanView
    decreases s, 0int,
{
    match s {
        MdSpan::Break => MdSpanView::Break,
        MdSpan::Text(t) => MdSpanView::Text(t@),
        MdSpan::Code(t) => MdSpanView::Code(t@),
        MdSpan::Link(h, u) => MdSpanView::Link(h@, u@),
        MdSpan::Image => MdSpanView::Image,
        MdSpan::Emphasis(v) => MdSpanView::Emphasis(md_spans_view(v@, 0)),
        MdSpan::Strong(v) => MdSpanView::Strong(md_spans_view(v@, 0)),
    }
}

/// The views of a sequence of inline spans, from index `i` on.
pub open spec fn md_spans_view(l: Seq<MdSpan>, i: int) -> Seq<MdSpanView>
    decreases l, l.len() - i,
{
    if i < 0 || i >= l.len() {
        Seq::empty()
    } else {
        seq![md_span_view(l[i])] + md_spans_view(l, i + 1)
    }
}

/// The view of one list item.
pub open spec fn md_item_view(it: MdListItem) -> MdListItemView
    decreases it, 0int,
{
    match it {
        MdListItem::Simple(v) => MdListItemView::Simple(md_spans_view(v@, 0)),
        MdListItem::Paragraph(v) => MdListItemView::Paragraph(md_blocks_view(v@, 0)),
    }
}

/// The views of a sequence of list items, from index `i` on.
pub open spec fn md_items_view(l: Seq<MdListItem>, i: int) -> Seq<MdListItemView>
    decreases l, l.len() - i,
{
    if i < 0 || i >= l.len() {
        Seq::empty()
    } else {
        seq![md_item_view(l[i])] + md_items_view(l, i + 1)
    }
}

/// The view of one block.
pub open spec fn md_block_view(b: MdBlock) -> MdBlockView
    decreases b, 0int,
{
    match b {
        MdBlock::Header(v) => MdBlockView::Header(md_spans_view(v@, 0)),
        MdBlock::Paragraph(v) => MdBlockView::Paragraph(md_spans_view(v@, 0)),
        MdBlock::Blockquote(v) => MdBlockView::Blockquote(md_blocks_view(v@, 0)),
        MdBlock::CodeBlock(s) => MdBlockView::CodeBlock(s@),
        MdBlock::OrderedList(v) => MdBlockView::OrderedList(md_items_view(v@, 0)),
        MdBlock::UnorderedList(v) => MdBlockView::UnorderedList(md_items_view(v@, 0)),
        MdBlock::Raw(s) => MdBlockView::Raw(s@),
        MdBlock::Hr => MdBlockView::Hr,
    }
}

/// The views of a sequence of blocks, from index `i` on.
pub open spec fn md_blocks_view(l: Seq<MdBlock>, i: int) -> Seq<MdBlockView>
    decreases l, l.len() - i,
{
    if i < 0 || i >= l.len() {
        Seq::empty()
    } else {
        seq![md_block_view(l[i])] + md_blocks_view(l, i + 1)
    }
}

/// The text one inline span emits.
pub open spec fn mdtext_span(s: MdSpanView) -> Seq<char>
    decreases s, 0int,
{
    match s {
        MdSpanView::Break => seq!['\n'],
        MdSpanView::Text(t) => t,
        MdSpanView::Code(t) => t,
        MdSpanView::Link(h, _) => h,
        MdSpanView::Image => Seq::empty(),
        MdSpanView::Emphasis(l) => mdtext_spans(l, 0),
        MdSpanView::Strong(l) => mdtext_spans(l, 0),
    }
}

/// The text a list of inline spans emits, from index `i` on.
pub open spec fn mdtext_spans(l: Seq<MdSpanView>, i: int) -> Seq<char>
    decreases l, l.len() - i,
{
    if i < 0 || i >= l.len() {
        Seq::empty()
    } else {
        mdtext_span(l[i]) + mdtext_spans(l, i + 1)
    }
}

/// The text one list item emits.
pub open spec fn mdtext_item(it: MdListItemView) -> Seq<char>
    decreases it, 0int,
{
    match it {
        MdListItemView::Simple(l) => mdtext_spans(l, 0),
        MdListItemView::Paragraph(l) => mdtext_blocks(l, 0),
    }
}

/// The text a list of list items emits, from index `i` on.
pub open spec fn mdtext_items(l: Seq<MdListItemView>, i: int) -> Seq<char>
    decreases l, l.len() - i,
{
    if i < 0 || i >= l.len() {
        Seq::empty()
    } else {
        mdtext_item(l[i]) + mdtext_items(l, i + 1)
    }
}

/// The text one block emits.
pub open spec fn mdtext_block(b: MdBlockView) -> Seq<char>
    decreases b, 0int,
{
    match b {
        MdBlockView::Header(l) => mdtext_spans(l, 0),
        MdBlockView::Paragraph(l) => mdtext_spans(l, 0),
        MdBlockView::Blockquote(l) => mdtext_blocks(l, 0),
        MdBlockView::CodeBlock(s) => s,
        MdBlockView::OrderedList(l) => mdtext_items(l, 0),
        MdBlockView::UnorderedList(l) => mdtext_items(l, 0),
        MdBlockView::Raw(s) => s,
        MdBlockView::Hr => Seq::empty(),
    }
}

/// The text a list of blocks emits, from index `i` on.
pub open spec fn mdtext_blocks(l: Seq<MdBlockView>, i: int) -> Seq<char>
    decreases l, l.len() - i,
{
    if i < 0 || i >= l.len() {
        Seq::empty()
    } else {
        mdtext_block(l[i]) + mdtext_blocks(l, i + 1)
    }
}

/// The entities one inline span emits, anchored at `start`: for emphasis
/// and strong, the children's entities first, then one wrapping entity
/// over the children's whole range.
pub open spec fn mdents_span(s: MdSpanView, start: int) -> Seq<EntityView>
    decreases s, 1int,
{
    match s {
        MdSpanView::Break => Seq::empty(),
        MdSpanView::Text(_) => Seq::empty(),
        MdSpanView::Code(t) => seq![
            EntityView { kind: KindView::Code, offset: start, length: utf16_len(t) as int },
        ],
        MdSpanView::Link(h, u) => seq![
            EntityView {
                kind: KindView::TextLink(u),
                offset: start,
                length: utf16_len(h) as int,
            },
        ],
        MdSpanView::Image => Seq::empty(),
        MdSpanView::Emphasis(l) => mdents_spans(l, start, 0) + seq![
            EntityView {
                kind: KindView::Italic,
                offset: start,
                length: utf16_len(mdtext_spans(l, 0)) as int,
            },
        ],
        MdSpanView::Strong(l) => mdents_spans(l, start, 0) + seq![
            EntityView {
                kind: KindView::Bold,
                offset: start,
                length: utf16_len(mdtext_spans(l, 0)) as int,
            },
        ],
    }
}

/// The entities a list of inline spans emits, from index `i` on, with the
/// span at `i` anchored at `start`.
pub open spec fn mdents_spans(l: Seq<MdSpanView>, start: int, i: int) -> Seq<EntityView>
    decreases l, l.len() - i,
{
    if i < 0 || i >= l.len() {
        Seq::empty()
    } else {
        mdents_span(l[i], start) + mdents_spans(l, start + utf16_len(mdtext_span(l[i])), i + 1)
    }
}

/// The entities one list item emits, anchored at `start`.
pub open spec fn mdents_item(it: MdListItemView, start: int) -> Seq<EntityView>
    decreases it, 1int,
{
    match it {
        MdListItemView::Simple(l) => mdents_spans(l, start, 0),
        MdListItemView::Paragraph(l) => mdents_blocks(l, start, 0),
    }
}

/// The entities a list of list items emits, from index `i` on.
pub open spec fn mdents_items(l: Seq<MdListItemView>, start: int, i: int) -> Seq<EntityView>
    decreases l, l.len() - i,
{
    if i < 0 || i >= l.len() {
        Seq::empty()
    } else {
        mdents_item(l[i], start) + mdents_items(l, start + utf16_len(mdtext_item(l[i])), i + 1)
    }
}

/// The entities one block emits, anchored at `start`.
pub open spec fn mdents_block(b: MdBlockView, start: int) -> Seq<EntityView>
    decreases b, 1int,
{
    match b {
        MdBlockView::Header(l) => mdents_spans(l, start, 0),
        MdBlockView::Paragraph(l) => mdents_spans(l, start, 0),
        MdBlockView::Blockquote(l) => mdents_blocks(l, start, 0),
        MdBlockView::CodeBlock(s) => seq![
            EntityView { kind: KindView::Code, offset: start, length: utf16_len(s) as int },
        ],
        MdBlockView::OrderedList(l) => mdents_items(l, start, 0),
        MdBlockView::UnorderedList(l) => mdents_items(l, start, 0),
        MdBlockView::Raw(_) => Seq::empty(),
        MdBlockView::Hr => Seq::empty(),
    }
}

/// The entities a list of blocks emits, from index `i` on.
pub open spec fn mdents_blocks(l: Seq<MdBlockView>, start: int, i: int) -> Seq<EntityView>
    decreases l, l.len() - i,
{
    if i < 0 || i >= l.len() {
        Seq::empty()
    } else {
        mdents_block(l[i], start) + mdents_blocks(l, start + utf16_len(mdtext_block(l[i])), i + 1)
    }
}

/// A list-marker character of the outside tokenizer's grammars: the
/// unordered bullets, and the characters its ordered numbering can end
/// in just before the space.
pub open spec fn md_list_marker(c: char) -> bool {
    ||| c == '-'
    ||| c == '+'
    ||| c == '*'
    ||| c == '.'
    ||| ((c as u32) >= 48 && (c as u32) <= 57)
}

/// Position `p` ends a line of the source: the end of the text, a
/// newline, or a carriage return directly before either.
pub open spec fn md_line_end_at(s: Seq<char>, p: int) -> bool {
    ||| p == s.len()
    ||| (0 <= p < s.len() && s[p] == '\n')
    ||| (0 <= p < s.len() && s[p] == '\r' && (p + 1 == s.len() || s[p + 1] == '\n'))
}

/// A line tail the outside tokenizer cannot take: a list marker, one
/// space, then the end of the line. Such a tail can become a list item
/// with empty content, on which the tokenizer indexes an empty vector.
pub open spec fn md_list_tail_at(s: Seq<char>, i: int) -> bool {
    &&& 0 <= i
    &&& i + 2 <= s.len()
    &&& md_list_marker(s[i])
    &&& s[i + 1] == ' '
    &&& md_line_end_at(s, i + 2)
}

/// Three backticks in a row starting at `i`.
pub open spec fn md_fence_at(s: Seq<char>, i: int) -> bool {
    &&& 0 <= i
    &&& i + 3 <= s.len()
    &&& s[i] == '`'
    &&& s[i + 1] == '`'
    &&& s[i + 2] == '`'
}

/// No newline stands between positions `a` and `b`, inclusive.
pub open spec fn md_no_newline_between(s: Seq<char>, a: int, b: int) -> bool {
    forall|k: int| a <= k <= b ==> s[k] != '\n'
}

/// A code fence and a character outside the one-byte range on one line.
/// On such a line the outside tokenizer slices the fence line at a fixed
/// byte offset, which can miss a character boundary.
pub open spec fn md_fence_conflict(s: Seq<char>, i: int, j: int) -> bool {
    &&& md_fence_at(s, i)
    &&& 0 <= j < s.len()
    &&& (s[j] as u32) >= 128
    &&& md_no_newline_between(s, if i <= j { i } else { j }, if i <= j { j } else { i })
}

/// The sources the outside tokenizer is known not to abort on: no line
/// ends in a list marker followed by a single space, and no line holds
/// both a code fence and a character outside the one-byte range. The
/// conditions also hold of every suffix of a line, which covers the
/// tokenizer's own recursion into quote and list item contents.
pub open spec fn md_source_safe(s: Seq<char>) -> bool {
    &&& forall|i: int| !md_list_tail_at(s, i)
    &&& forall|i: int, j: int| !md_fence_conflict(s, i, j)
}

/// Whether any line of the text ends in a list marker and one space.
fn has_list_tail(v: &Vec<char>) -> (r: bool)
    ensures
        r == exists|i: int| md_list_tail_at(v@, i),
{
    let n = v.len();
    let mut i: usize = 0;
    while i < n
        invariant
            i <= n,
            n == v@.len(),
            forall|k: int| 0 <= k < i ==> !md_list_tail_at(v@, k),
        decreases n - i,
    {
        let c = v[i];
        let marker = c == '-' || c == '+' || c == '*' || c == '.' || (c as u32 >= 48 && c as u32
            <= 57);
        if marker && i + 1 < n && v[i + 1] == ' ' {
            let p = i + 2;
            let ends = p == n || v[p] == '\n' || (v[p] == '\r' && (p + 1 == n || v[p + 1]
                == '\n'));
            if ends {
                proof {
                    assert(md_list_tail_at(v@, i as int));
                }
                return true;
            }
        }
        proof {
            assert(!md_list_tail_at(v@, i as int));
        }
        i = i + 1;
    }
    proof {
        assert forall|k: int| !md_list_tail_at(v@, k) by {
            if 0 <= k < n {
                assert(!md_list_tail_at(v@, k));
            }
        }
    }
    false
}

/// Whether any line of the text holds both a code fence and a character
/// outside the one-byte range.
fn has_fence_conflict(v: &Vec<char>) -> (r: bool)
    ensures
        r == exists|i: int, j: int| md_fence_conflict(v@, i, j),
{
    let ghost s = v@;
    let n = v.len();
    let mut line_start: usize = 0;
    let mut bt: Option<usize> = None;
    let mut na: Option<usize> = None;
    let mut cur: usize = 0;
    loop
        invariant
            line_start <= cur <= n,
            n == s.len(),
            s == v@,
            line_start == 0 || s[line_start - 1] == '\n',
            forall|k: int| line_start <= k < cur ==> s[k] != '\n',
            match bt {
                Some(b) => line_start <= b && b + 2 < cur && md_fence_at(s, b as int),
                None => forall|b: int| line_start <= b && b + 2 < cur ==> !md_fence_at(s, b),
            },
            match na {
                Some(j) => line_start <= j < cur && (s[j as int] as u32) >= 128,
                None => forall|j: int| line_start <= j < cur ==> (s[j] as u32) < 128,
            },
            forall|i: int, j: int| md_fence_conflict(s, i, j) ==> i >= line_start,
        ensures
            bt is Some && na is Some ==> exists|i: int, j: int| md_fence_conflict(s, i, j),
            !(bt is Some && na is Some) ==> forall|i: int, j: int| !md_fence_conflict(s, i, j),
        decreases n - cur,
    {
        if cur >= n || v[cur] == '\n' {
            match (bt, na) {
                (Some(b), Some(j)) => {
                    proof {
                        assert(md_fence_conflict(
                            s,
                            b as int,
                            j as int,
                        ));
                    }
                    break;
                },
                _ => {},
            }
            if cur >= n {
                proof {
                    assert forall|i: int, j: int| !md_fence_conflict(s, i, j) by {
                        lemma_no_conflict_in_line(s, line_start as int, cur as int, i, j);
                    }
                }
                break;
            }
            proof {
                lemma_conflicts_pass_line(s, line_start as int, cur as int);
            }
            line_start = cur + 1;
            bt = None;
            na = None;
            cur = cur + 1;
        } else {
            if (v[cur] as u32) >= 128 && na.is_none() {
                na = Some(cur);
            }
            if cur >= 2 && cur - 2 >= line_start && v[cur] == '`' && v[cur - 1] == '`' && v[cur
                - 2] == '`' && bt.is_none() {
                proof {
                    assert(md_fence_at(s, cur - 2));
                }
                bt = Some(cur - 2);
            }
            cur = cur + 1;
        }
    }
    bt.is_some() && na.is_some()
}

/// With the last line clean on one side (no fence, or no multi-byte
/// character), no fence conflict exists anywhere once the scan reaches
/// the end of the text.
proof fn lemma_no_conflict_in_line(s: Seq<char>, line_start: int, cur: int, i: int, j: int)
    requires
        0 <= line_start <= cur,
        cur == s.len(),
        line_start == 0 || s[line_start - 1] == '\n',
        forall|k: int| line_start <= k < cur ==> s[k] != '\n',
        (forall|b: int| line_start <= b && b + 2 < cur ==> !md_fence_at(s, b)) || (forall|
            k: int,
        | line_start <= k < cur ==> (s[k] as u32) < 128),
        forall|a: int, b: int| md_fence_conflict(s, a, b) ==> a >= line_start,
    ensures
        !md_fence_conflict(s, i, j),
{
    if md_fence_conflict(s, i, j) {
        assert(i >= line_start);
        assert(i + 2 < cur);
        assert(j < cur);
        if j < line_start {
            assert(s[line_start - 1] != '\n');
            assert(false);
        }
        assert(md_fence_at(s, i) && (s[j] as u32) >= 128);
        assert(false);
    }
}

/// A fence conflict never spans the newline that ends a clean line, so
/// after the line is finished every remaining conflict starts below it.
proof fn lemma_conflicts_pass_line(s: Seq<char>, line_start: int, cur: int)
    requires
        0 <= line_start <= cur < s.len(),
        s[cur as int] == '\n',
        line_start == 0 || s[line_start - 1] == '\n',
        forall|k: int| line_start <= k < cur ==> s[k] != '\n',
        (forall|b: int| line_start <= b && b + 2 < cur ==> !md_fence_at(s, b)) || (forall|
            k: int,
        | line_start <= k < cur ==> (s[k] as u32) < 128),
        forall|a: int, b: int| md_fence_conflict(s, a, b) ==> a >= line_start,
    ensures
        forall|a: int, b: int| md_fence_conflict(s, a, b) ==> a >= cur + 1,
{
    assert forall|a: int, b: int| md_fence_conflict(s, a, b) implies a >= cur + 1 by {
        if a < cur + 1 {
            assert(a >= line_start);
            if a + 2 >= cur {
                assert(a <= cur <= a + 2);
                assert(s[cur as int] == '`');
                assert(false);
            }
            if b >= cur {
                assert(s[cur as int] != '\n');
                assert(false);
            }
            if b < line_start {
                assert(s[line_start - 1] != '\n');
                assert(false);
            }
            assert(md_fence_at(s, a) && (s[b] as u32) >= 128);
            assert(false);
        }
    }
}

/// Whether the outside tokenizer accepts this source text.
pub fn md_source_ok(text: &str) -> (r: bool)
    ensures
        r == md_source_safe(text@),
{
    let v = crate::text::str_chars(text);
    let tails = has_list_tail(&v);
    let conflicts = has_fence_conflict(&v);
    !tails && !conflicts
}

#[verifier::external_type_specification]
#[verifier::external_body]
pub struct ExMarkdownSpan(markdown::Span);

#[verifier::external_type_specification]
#[verifier::external_body]
pub struct ExMarkdownListItem(markdown::ListItem);

#[verifier::external_type_specification]
#[verifier::external_body]
pub struct ExMarkdownBlock(markdown::Block);

/// The block tree that the outside Markdown tokenizer produces for a
/// source text, as this library's view of it. The result depends on the
/// source text alone.
pub uninterp spec fn md_tokenize(s: Seq<char>) -> Seq<MdBlockView>;

/// Carries a span list over; part of the `tokenize_markdown` trust
/// boundary.
#[verifier::external_body]
fn conv_spans(v: Vec<markdown::Span>) -> Vec<MdSpan> {
    v.into_iter().map(from_md_span).collect()
}

/// Carries an item list over; part of the `tokenize_markdown` trust
/// boundary.
#[verifier::external_body]
fn conv_items(v: Vec<markdown::ListItem>) -> Vec<MdListItem> {
    v.into_iter().map(from_md_item).collect()
}

/// Carries a block list over; part of the `tokenize_markdown` trust
/// boundary.
#[verifier::external_body]
fn conv_blocks(v: Vec<markdown::Block>) -> Vec<MdBlock> {
    v.into_iter().map(from_md_block).collect()
}

/// Carries one inline span of the outside tokenizer's tree over into the
/// library's own, moving its fields; part of the `tokenize_markdown`
/// trust boundary.
#[verifier::external_body]
fn from_md_span(s: markdown::Span) -> MdSpan {
    match s {
        markdown::Span::Break => MdSpan::Break,
        markdown::Span::Text(t) => MdSpan::Text(t),
        markdown::Span::Code(t) => MdSpan::Code(t),
        markdown::Span::Link(h, u, _) => MdSpan::Link(h, u),
        markdown::Span::Image(_, _, _) => MdSpan::Image,
        markdown::Span::Emphasis(v) => MdSpan::Emphasis(conv_spans(v)),
        markdown::Span::Strong(v) => MdSpan::Strong(conv_spans(v)),
    }
}

/// Carries one list item over; part of the `tokenize_markdown` trust
/// boundary.
#[verifier::external_body]
fn from_md_item(it: markdown::ListItem) -> MdListItem {
    match it {
        markdown::ListItem::Simple(v) => MdListItem::Simple(conv_spans(v)),
        markdown::ListItem::Paragraph(v) => MdListItem::Paragraph(conv_blocks(v)),
    }
}

/// Carries one block over; part of the `tokenize_markdown` trust
/// boundary.
#[verifier::external_body]
fn from_md_block(b: markdown::Block) -> MdBlock {
    match b {
        markdown::Block::Header(v, _) => MdBlock::Header(conv_spans(v)),
        markdown::Block::Paragraph(v) => MdBlock::Paragraph(conv_spans(v)),
        markdown::Block::Blockquote(v) => MdBlock::Blockquote(conv_blocks(v)),
        markdown::Block::CodeBlock(_, s) => MdBlock::CodeBlock(s),
        markdown::Block::OrderedList(v, _) => MdBlock::OrderedList(conv_items(v)),
        markdown::Block::UnorderedList(v) => MdBlock::UnorderedList(conv_items(v)),
        markdown::Block::Raw(s) => MdBlock::Raw(s),
        markdown::Block::Hr => MdBlock::Hr,
    }
}

/// Relies on `markdown::tokenize`: the outside tokenizer turns a source
/// text into a block tree, a pure function of the text; the tree is moved
/// field by field into the library's own block type. The precondition
/// keeps out the inputs its source aborts on: a line tail that makes a
/// list item with empty content (the tokenizer then indexes an empty
/// vector), and a fence line with a multi-byte character (the tokenizer
/// then slices that line at a fixed byte offset).
#[verifier::external_body]
fn tokenize_markdown(text: &str) -> (r: Vec<MdBlock>)
    requires
        md_source_safe(text@),
    ensures
        md_blocks_view(r@, 0) == md_tokenize(text@),
{
    conv_blocks(markdown::tokenize(text))
}

} // verus!

verus! {

/// A span list's view has one element per span.
pub proof fn lemma_md_spans_view_len(l: Seq<MdSpan>, i: int)
    requires
        0 <= i <= l.len(),
    ensures
        md_spans_view(l, i).len() == l.len() - i,
    decreases l.len() - i,
{
    if i < l.len() {
        lemma_md_spans_view_len(l, i + 1);
    }
}

/// The element at `k` of a span list's view is the view of the span at `k`.
pub proof fn lemma_md_spans_view_at(l: Seq<MdSpan>, i: int, k: int)
    requires
        0 <= i <= k < l.len(),
    ensures
        md_spans_view(l, i)[k - i] == md_span_view(l[k]),
    decreases k - i,
{
    if i < k {
        lemma_md_spans_view_at(l, i + 1, k);
        lemma_md_spans_view_len(l, i + 1);
        assert(md_spans_view(l, i)[k - i] == md_spans_view(l, i + 1)[k - i - 1]);
    }
}

/// An item list's view has one element per item.
pub proof fn lemma_md_items_view_len(l: Seq<MdListItem>, i: int)
    requires
        0 <= i <= l.len(),
    ensures
        md_items_view(l, i).len() == l.len() - i,
    decreases l.len() - i,
{
    if i < l.len() {
        lemma_md_items_view_len(l, i + 1);
    }
}

/// The element at `k` of an item list's view is the view of the item at `k`.
pub proof fn lemma_md_items_view_at(l: Seq<MdListItem>, i: int, k: int)
    requires
        0 <= i <= k < l.len(),
    ensures
        md_items_view(l, i)[k - i] == md_item_view(l[k]),
    decreases k - i,
{
    if i < k {
        lemma_md_items_view_at(l, i + 1, k);
        lemma_md_items_view_len(l, i + 1);
        assert(md_items_view(l, i)[k - i] == md_items_view(l, i + 1)[k - i - 1]);
    }
}

/// A block list's view has one element per block.
pub proof fn lemma_md_blocks_view_len(l: Seq<MdBlock>, i: int)
    requires
        0 <= i <= l.len(),
    ensures
        md_blocks_view(l, i).len() == l.len() - i,
    decreases l.len() - i,
{
    if i < l.len() {
        lemma_md_blocks_view_len(l, i + 1);
    }
}

/// The element at `k` of a block list's view is the view of the block at `k`.
pub proof fn lemma_md_blocks_view_at(l: Seq<MdBlock>, i: int, k: int)
    requires
        0 <= i <= k < l.len(),
    ensures
        md_blocks_view(l, i)[k - i] == md_block_view(l[k]),
    decreases k - i,
{
    if i < k {
        lemma_md_blocks_view_at(l, i + 1, k);
        lemma_md_blocks_view_len(l, i + 1);
        assert(md_blocks_view(l, i)[k - i] == md_blocks_view(l, i + 1)[k - i - 1]);
    }
}

} // verus!

verus! {

impl MarkupBuilder {
    /// Emits one inline span, returning the UTF-16 length of the text it
    /// appended.
    fn parse_span(&mut self, sp: &MdSpan) -> (sz: i64)
        requires
            old(self)@.offset >= 0,
            old(self)@.offset + utf16_len(mdtext_span(md_span_view(*sp))) <= i64::MAX,
        ensures
            final(self)@.text == old(self)@.text + mdtext_span(md_span_view(*sp)),
            final(self)@.entities == old(self)@.entities + mdents_span(
                md_span_view(*sp),
                old(self)@.offset,
            ),
            final(self)@.offset == old(self)@.offset + utf16_len(mdtext_span(md_span_view(*sp))),
            sz as int == utf16_len(mdtext_span(md_span_view(*sp))),
        decreases *sp, 0int,
    {
        let ghost sv = md_span_view(*sp);
        match sp {
            MdSpan::Break => {
                proof {
                    reveal_strlit("\n");
                    assert("\n"@ =~= seq!['\n']);
                    assert(utf16_len(seq!['\n'].drop_first()) == 0);
                }
                self.text("\n");
                proof {
                    assert(final(self)@.entities =~= old(self)@.entities + mdents_span(
                        sv,
                        old(self)@.offset,
                    ));
                }
                1
            },
            MdSpan::Text(t) => {
                let n = utf16_len_i64(t.as_str());
                self.text(t.as_str());
                proof {
                    assert(final(self)@.entities =~= old(self)@.entities + mdents_span(
                        sv,
                        old(self)@.offset,
                    ));
                }
                n
            },
            MdSpan::Code(t) => {
                let n = utf16_len_i64(t.as_str());
                self.code(t.as_str());
                proof {
                    assert(final(self)@.entities =~= old(self)@.entities + mdents_span(
                        sv,
                        old(self)@.offset,
                    ));
                }
                n
            },
            MdSpan::Link(h, u) => {
                let n = utf16_len_i64(h.as_str());
                self.text_link(h.as_str(), u.clone(), None);
                proof {
                    assert(final(self)@.entities =~= old(self)@.entities + mdents_span(
                        sv,
                        old(self)@.offset,
                    ));
                }
                n
            },
            MdSpan::Image => {
                proof {
                    assert(final(self)@.text =~= old(self)@.text + mdtext_span(sv));
                    assert(final(self)@.entities =~= old(self)@.entities + mdents_span(
                        sv,
                        old(self)@.offset,
                    ));
                }
                0
            },
            MdSpan::Emphasis(v) => {
                let start = self.cursor();
                let n = self.parse_spans(v, 0);
                self.manual(EntityKind::Italic, start, n);
                proof {
                    assert(final(self)@.entities =~= old(self)@.entities + mdents_span(
                        sv,
                        old(self)@.offset,
                    ));
                }
                n
            },
            MdSpan::Strong(v) => {
                let start = self.cursor();
                let n = self.parse_spans(v, 0);
                self.manual(EntityKind::Bold, start, n);
                proof {
                    assert(final(self)@.entities =~= old(self)@.entities + mdents_span(
                        sv,
                        old(self)@.offset,
                    ));
                }
                n
            },
        }
    }

    /// Emits one list item.
    fn parse_listitem(&mut self, it: &MdListItem)
        requires
            old(self)@.offset >= 0,
            old(self)@.offset + utf16_len(mdtext_item(md_item_view(*it))) <= i64::MAX,
        ensures
            final(self)@.text == old(self)@.text + mdtext_item(md_item_view(*it)),
            final(self)@.entities == old(self)@.entities + mdents_item(
                md_item_view(*it),
                old(self)@.offset,
            ),
            final(self)@.offset == old(self)@.offset + utf16_len(mdtext_item(md_item_view(*it))),
        decreases *it, 0int,
    {
        let ghost iv = md_item_view(*it);
        match it {
            MdListItem::Simple(v) => {
                let _ = self.parse_spans(v, 0);
            },
            MdListItem::Paragraph(v) => {
                self.parse_blocks(v, 0);
            },
        }
    }

    /// Emits one block.
    fn parse_block(&mut self, b: &MdBlock)
        requires
            old(self)@.offset >= 0,
            old(self)@.offset + utf16_len(mdtext_block(md_block_view(*b))) <= i64::MAX,
        ensures
            final(self)@.text == old(self)@.text + mdtext_block(md_block_view(*b)),
            final(self)@.entities == old(self)@.entities + mdents_block(
                md_block_view(*b),
                old(self)@.offset,
            ),
            final(self)@.offset == old(self)@.offset + utf16_len(mdtext_block(md_block_view(*b))),
        decreases *b, 0int,
    {
        let ghost bv = md_block_view(*b);
        match b {
            MdBlock::Header(v) => {
                let _ = self.parse_spans(v, 0);
            },
            MdBlock::Paragraph(v) => {
                let _ = self.parse_spans(v, 0);
            },
            MdBlock::Blockquote(v) => {
                self.parse_blocks(v, 0);
            },
            MdBlock::CodeBlock(s) => {
                self.code(s.as_str());
                proof {
                    assert(final(self)@.entities =~= old(self)@.entities + mdents_block(
                        bv,
                        old(self)@.offset,
                    ));
                }
            },
            MdBlock::OrderedList(v) => {
                self.parse_items(v, 0);
            },
            MdBlock::UnorderedList(v) => {
                self.parse_items(v, 0);
            },
            MdBlock::Raw(s) => {
                self.text(s.as_str());
                proof {
                    assert(final(self)@.entities =~= old(self)@.entities + mdents_block(
                        bv,
                        old(self)@.offset,
                    ));
                }
            },
            MdBlock::Hr => {
                proof {
                    assert(final(self)@.text =~= old(self)@.text + mdtext_block(bv));
                    assert(final(self)@.entities =~= old(self)@.entities + mdents_block(
                        bv,
                        old(self)@.offset,
                    ));
                }
            },
        }
    }

    /// Emits the elements of the vector from index `i` on.
    fn parse_spans(&mut self, v: &Vec<MdSpan>, i: usize) -> (sz: i64)
        requires
            i <= v@.len(),
            old(self)@.offset >= 0,
            old(self)@.offset + utf16_len(mdtext_spans(md_spans_view(v@, 0), i as int)) <= i64::MAX,
        ensures
            final(self)@.text == old(self)@.text + mdtext_spans(md_spans_view(v@, 0), i as int),
            final(self)@.entities == old(self)@.entities + mdents_spans(
                md_spans_view(v@, 0),
                old(self)@.offset,
                i as int,
            ),
            final(self)@.offset == old(self)@.offset + utf16_len(
                mdtext_spans(md_spans_view(v@, 0), i as int),
            ),
            sz as int == utf16_len(mdtext_spans(md_spans_view(v@, 0), i as int)),
        decreases v@, 1int,
    {
        let ghost svl = md_spans_view(v@, 0);
        let ghost base = old(self)@;
        proof {
            lemma_md_spans_view_len(v@, 0);
        }
        let start = self.cursor();
        let mut j: usize = i;
        loop
            invariant
                i <= j <= v@.len(),
                v@.len() == v.len(),
                svl == md_spans_view(v@, 0),
                svl.len() == v@.len(),
                base == old(self)@,
                base.offset >= 0,
                self@.offset >= base.offset,
                start as int == base.offset,
                base.offset + utf16_len(mdtext_spans(svl, i as int)) <= i64::MAX,
                base.text + mdtext_spans(svl, i as int) == self@.text + mdtext_spans(svl, j as int),
                base.entities + mdents_spans(svl, base.offset, i as int) == self@.entities + mdents_spans(
                    svl,
                    self@.offset,
                    j as int,
                ),
                base.offset + utf16_len(mdtext_spans(svl, i as int)) == self@.offset + utf16_len(
                    mdtext_spans(svl, j as int),
                ),
            ensures
                j == v@.len(),
                self@.text == base.text + mdtext_spans(svl, i as int),
                self@.entities == base.entities + mdents_spans(svl, base.offset, i as int),
                self@.offset == base.offset + utf16_len(mdtext_spans(svl, i as int)),
            decreases v@.len() - j,
        {
            if j >= v.len() {
                proof {
                    assert(mdtext_spans(svl, j as int) =~= Seq::<char>::empty());
                    assert(mdents_spans(svl, self@.offset, j as int) =~= Seq::<EntityView>::empty());
                    assert(self@.text =~= base.text + mdtext_spans(svl, i as int));
                    assert(self@.entities =~= base.entities + mdents_spans(
                        svl,
                        base.offset,
                        i as int,
                    ));
                }
                break;
            }
            proof {
                lemma_md_spans_view_at(v@, 0, j as int);
                assert(mdtext_spans(svl, j as int) == mdtext_span(svl[j as int]) + mdtext_spans(
                    svl,
                    j as int + 1,
                ));
                lemma_utf16_concat(mdtext_span(svl[j as int]), mdtext_spans(svl, j as int + 1));
            }
            let ghost pre = self@;
            let _ = self.parse_span(&v[j]);
            j = j + 1;
            proof {
                assert(base.text + mdtext_spans(svl, i as int) =~= self@.text + mdtext_spans(
                    svl,
                    j as int,
                ));
                assert(mdents_spans(svl, pre.offset, j as int - 1) == mdents_span(svl[j as int - 1], pre.offset) + mdents_spans(
                    svl,
                    pre.offset + utf16_len(mdtext_span(svl[j as int - 1])),
                    j as int,
                ));
                assert(base.entities + mdents_spans(svl, base.offset, i as int) =~= self@.entities
                    + mdents_spans(svl, self@.offset, j as int));
            }
        }
        let sz = self.cursor() - start;
        sz
    }

    /// Emits the elements of the vector from index `i` on.
    fn parse_items(&mut self, v: &Vec<MdListItem>, i: usize)
        requires
            i <= v@.len(),
            old(self)@.offset >= 0,
            old(self)@.offset + utf16_len(mdtext_items(md_items_view(v@, 0), i as int)) <= i64::MAX,
        ensures
            final(self)@.text == old(self)@.text + mdtext_items(md_items_view(v@, 0), i as int),
            final(self)@.entities == old(self)@.entities + mdents_items(
                md_items_view(v@, 0),
                old(self)@.offset,
                i as int,
            ),
            final(self)@.offset == old(self)@.offset + utf16_len(
                mdtext_items(md_items_view(v@, 0), i as int),
            ),
        decreases v@, 1int,
    {
        let ghost svl = md_items_view(v@, 0);
        let ghost base = old(self)@;
        proof {
            lemma_md_items_view_len(v@, 0);
        }
        let mut j: usize = i;
        loop
            invariant
                i <= j <= v@.len(),
                v@.len() == v.len(),
                svl == md_items_view(v@, 0),
                svl.len() == v@.len(),
                base == old(self)@,
                base.offset >= 0,
                self@.offset >= base.offset,
                base.offset + utf16_len(mdtext_items(svl, i as int)) <= i64::MAX,
                base.text + mdtext_items(svl, i as int) == self@.text + mdtext_items(svl, j as int),
                base.entities + mdents_items(svl, base.offset, i as int) == self@.entities + mdents_items(
                    svl,
                    self@.offset,
                    j as int,
                ),
                base.offset + utf16_len(mdtext_items(svl, i as int)) == self@.offset + utf16_len(
                    mdtext_items(svl, j as int),
                ),
            ensures
                j == v@.len(),
                self@.text == base.text + mdtext_items(svl, i as int),
                self@.entities == base.entities + mdents_items(svl, base.offset, i as int),
                self@.offset == base.offset + utf16_len(mdtext_items(svl, i as int)),
            decreases v@.len() - j,
        {
            if j >= v.len() {
                proof {
                    assert(mdtext_items(svl, j as int) =~= Seq::<char>::empty());
                    assert(mdents_items(svl, self@.offset, j as int) =~= Seq::<EntityView>::empty());
                    assert(self@.text =~= base.text + mdtext_items(svl, i as int));
                    assert(self@.entities =~= base.entities + mdents_items(
                        svl,
                        base.offset,
                        i as int,
                    ));
                }
                break;
            }
            proof {
                lemma_md_items_view_at(v@, 0, j as int);
                assert(mdtext_items(svl, j as int) == mdtext_item(svl[j as int]) + mdtext_items(
                    svl,
                    j as int + 1,
                ));
                lemma_utf16_concat(mdtext_item(svl[j as int]), mdtext_items(svl, j as int + 1));
            }
            let ghost pre = self@;
            let _ = self.parse_listitem(&v[j]);
            j = j + 1;
            proof {
                assert(base.text + mdtext_items(svl, i as int) =~= self@.text + mdtext_items(
                    svl,
                    j as int,
                ));
                assert(mdents_items(svl, pre.offset, j as int - 1) == mdents_item(svl[j as int - 1], pre.offset) + mdents_items(
                    svl,
                    pre.offset + utf16_len(mdtext_item(svl[j as int - 1])),
                    j as int,
                ));
                assert(base.entities + mdents_items(svl, base.offset, i as int) =~= self@.entities
                    + mdents_items(svl, self@.offset, j as int));
            }
        }
    }

    /// Emits the elements of the vector from index `i` on.
    fn parse_blocks(&mut self, v: &Vec<MdBlock>, i: usize)
        requires
            i <= v@.len(),
            old(self)@.offset >= 0,
            old(self)@.offset + utf16_len(mdtext_blocks(md_blocks_view(v@, 0), i as int)) <= i64::MAX,
        ensures
            final(self)@.text == old(self)@.text + mdtext_blocks(md_blocks_view(v@, 0), i as int),
            final(self)@.entities == old(self)@.entities + mdents_blocks(
                md_blocks_view(v@, 0),
                old(self)@.offset,
                i as int,
            ),
            final(self)@.offset == old(self)@.offset + utf16_len(
                mdtext_blocks(md_blocks_view(v@, 0), i as int),
            ),
        decreases v@, 1int,
    {
        let ghost svl = md_blocks_view(v@, 0);
        let ghost base = old(self)@;
        proof {
            lemma_md_blocks_view_len(v@, 0);
        }
        let mut j: usize = i;
        loop
            invariant
                i <= j <= v@.len(),
                v@.len() == v.len(),
                svl == md_blocks_view(v@, 0),
                svl.len() == v@.len(),
                base == old(self)@,
                base.offset >= 0,
                self@.offset >= base.offset,
                base.offset + utf16_len(mdtext_blocks(svl, i as int)) <= i64::MAX,
                base.text + mdtext_blocks(svl, i as int) == self@.text + mdtext_blocks(svl, j as int),
                base.entities + mdents_blocks(svl, base.offset, i as int) == self@.entities + mdents_blocks(
                    svl,
                    self@.offset,
                    j as int,
                ),
                base.offset + utf16_len(mdtext_blocks(svl, i as int)) == self@.offset + utf16_len(
                    mdtext_blocks(svl, j as int),
                ),
            ensures
                j == v@.len(),
                self@.text == base.text + mdtext_blocks(svl, i as int),
                self@.entities == base.entities + mdents_blocks(svl, base.offset, i as int),
                self@.offset == base.offset + utf16_len(mdtext_blocks(svl, i as int)),
            decreases v@.len() - j,
        {
            if j >= v.len() {
                proof {
                    assert(mdtext_blocks(svl, j as int) =~= Seq::<char>::empty());
                    assert(mdents_blocks(svl, self@.offset, j as int) =~= Seq::<EntityView>::empty());
                    assert(self@.text =~= base.text + mdtext_blocks(svl, i as int));
                    assert(self@.entities =~= base.entities + mdents_blocks(
                        svl,
                        base.offset,
                        i as int,
                    ));
                }
                break;
            }
            proof {
                lemma_md_blocks_view_at(v@, 0, j as int);
                assert(mdtext_blocks(svl, j as int) == mdtext_block(svl[j as int]) + mdtext_blocks(
                    svl,
                    j as int + 1,
                ));
                lemma_utf16_concat(mdtext_block(svl[j as int]), mdtext_blocks(svl, j as int + 1));
            }
            let ghost pre = self@;
            let _ = self.parse_block(&v[j]);
            j = j + 1;
            proof {
                assert(base.text + mdtext_blocks(svl, i as int) =~= self@.text + mdtext_blocks(
                    svl,
                    j as int,
                ));
                assert(mdents_blocks(svl, pre.offset, j as int - 1) == mdents_block(svl[j as int - 1], pre.offset) + mdents_blocks(
                    svl,
                    pre.offset + utf16_len(mdtext_block(svl[j as int - 1])),
                    j as int,
                ));
                assert(base.entities + mdents_blocks(svl, base.offset, i as int) =~= self@.entities
                    + mdents_blocks(svl, self@.offset, j as int));
            }
        }
    }

    /// Builds a message from conventional Markdown source: the outside
    /// tokenizer's block tree is emitted into a fresh builder. The source
    /// must be one the tokenizer accepts, and the emitted text must fit
    /// the entity offset range.
    pub fn from_markdown(text: &str) -> (r: MarkupBuilder)
        requires
            md_source_safe(text@),
            utf16_len(mdtext_blocks(md_tokenize(text@), 0)) <= i64::MAX,
        ensures
            r@.text == mdtext_blocks(md_tokenize(text@), 0),
            r@.entities == mdents_blocks(md_tokenize(text@), 0, 0),
            r@.offset == utf16_len(mdtext_blocks(md_tokenize(text@), 0)),
    {
        let blocks = tokenize_markdown(text);
        let mut b = MarkupBuilder::new();
        b.parse_blocks(&blocks, 0);
        proof {
            assert(b@.text =~= mdtext_blocks(md_tokenize(text@), 0));
            assert(b@.entities =~= mdents_blocks(md_tokenize(text@), 0, 0));
        }
        b
    }
}

} // verus!

verus! {

/// The UTF-16 length of the text one inline span emits, or `None` where
/// it exceeds `i64::MAX`.
fn measure_md_span(sp: &MdSpan) -> (r: Option<i64>)
    ensures
        match r {
            Some(n) => n as int == utf16_len(mdtext_span(md_span_view(*sp))) && n >= 0,
            None => utf16_len(mdtext_span(md_span_view(*sp))) > i64::MAX,
        },
    decreases *sp, 0int,
{
    match sp {
        MdSpan::Break => {
            proof {
                assert(utf16_len(seq!['\n'].drop_first()) == 0);
            }
            Some(1)
        },
        MdSpan::Text(t) => crate::text::utf16_len_checked(t.as_str()),
        MdSpan::Code(t) => crate::text::utf16_len_checked(t.as_str()),
        MdSpan::Link(h, _) => crate::text::utf16_len_checked(h.as_str()),
        MdSpan::Image => Some(0),
        MdSpan::Emphasis(v) => measure_md_spans(v, 0),
        MdSpan::Strong(v) => measure_md_spans(v, 0),
    }
}

/// The UTF-16 length of the text one list item emits, or `None` where it
/// exceeds `i64::MAX`.
fn measure_md_item(it: &MdListItem) -> (r: Option<i64>)
    ensures
        match r {
            Some(n) => n as int == utf16_len(mdtext_item(md_item_view(*it))) && n >= 0,
            None => utf16_len(mdtext_item(md_item_view(*it))) > i64::MAX,
        },
    decreases *it, 0int,
{
    match it {
        MdListItem::Simple(v) => measure_md_spans(v, 0),
        MdListItem::Paragraph(v) => measure_md_blocks(v, 0),
    }
}

/// The UTF-16 length of the text one block emits, or `None` where it
/// exceeds `i64::MAX`.
fn measure_md_block(b: &MdBlock) -> (r: Option<i64>)
    ensures
        match r {
            Some(n) => n as int == utf16_len(mdtext_block(md_block_view(*b))) && n >= 0,
            None => utf16_len(mdtext_block(md_block_view(*b))) > i64::MAX,
        },
    decreases *b, 0int,
{
    match b {
        MdBlock::Header(v) => measure_md_spans(v, 0),
        MdBlock::Paragraph(v) => measure_md_spans(v, 0),
        MdBlock::Blockquote(v) => measure_md_blocks(v, 0),
        MdBlock::CodeBlock(s) => crate::text::utf16_len_checked(s.as_str()),
        MdBlock::OrderedList(v) => measure_md_items(v, 0),
        MdBlock::UnorderedList(v) => measure_md_items(v, 0),
        MdBlock::Raw(s) => crate::text::utf16_len_checked(s.as_str()),
        MdBlock::Hr => Some(0),
    }
}

/// The UTF-16 length of the text the elements from index `i` on emit, or
/// `None` where it exceeds `i64::MAX`.
fn measure_md_spans(v: &Vec<MdSpan>, i: usize) -> (r: Option<i64>)
    requires
        i <= v@.len(),
    ensures
        match r {
            Some(n) => n as int == utf16_len(mdtext_spans(md_spans_view(v@, 0), i as int)) && n >= 0,
            None => utf16_len(mdtext_spans(md_spans_view(v@, 0), i as int)) > i64::MAX,
        },
    decreases v@, 1int,
{
    let ghost svl = md_spans_view(v@, 0);
    proof {
        lemma_md_spans_view_len(v@, 0);
    }
    let mut acc: i64 = 0;
    let mut j: usize = i;
    loop
        invariant
            i <= j <= v@.len(),
            v@.len() == v.len(),
            svl == md_spans_view(v@, 0),
            svl.len() == v@.len(),
            0 <= acc,
            utf16_len(mdtext_spans(svl, i as int)) == acc + utf16_len(mdtext_spans(svl, j as int)),
        ensures
            j == v@.len(),
            acc as int == utf16_len(mdtext_spans(svl, i as int)),
        decreases v@.len() - j,
    {
        if j >= v.len() {
            proof {
                assert(utf16_len(mdtext_spans(svl, j as int)) == 0);
            }
            break;
        }
        proof {
            lemma_md_spans_view_at(v@, 0, j as int);
            assert(mdtext_spans(svl, j as int) == mdtext_span(svl[j as int]) + mdtext_spans(
                svl,
                j as int + 1,
            ));
            lemma_utf16_concat(mdtext_span(svl[j as int]), mdtext_spans(svl, j as int + 1));
        }
        match measure_md_span(&v[j]) {
            Some(n) => {
                if acc > i64::MAX - n {
                    return None;
                }
                acc = acc + n;
                j = j + 1;
            },
            None => {
                return None;
            },
        }
    }
    Some(acc)
}

/// The UTF-16 length of the text the elements from index `i` on emit, or
/// `None` where it exceeds `i64::MAX`.
fn measure_md_items(v: &Vec<MdListItem>, i: usize) -> (r: Option<i64>)
    requires
        i <= v@.len(),
    ensures
        match r {
            Some(n) => n as int == utf16_len(mdtext_items(md_items_view(v@, 0), i as int)) && n >= 0,
            None => utf16_len(mdtext_items(md_items_view(v@, 0), i as int)) > i64::MAX,
        },
    decreases v@, 1int,
{
    let ghost svl = md_items_view(v@, 0);
    proof {
        lemma_md_items_view_len(v@, 0);
    }
    let mut acc: i64 = 0;
    let mut j: usize = i;
    loop
        invariant
            i <= j <= v@.len(),
            v@.len() == v.len(),
            svl == md_items_view(v@, 0),
            svl.len() == v@.len(),
            0 <= acc,
            utf16_len(mdtext_items(svl, i as int)) == acc + utf16_len(mdtext_items(svl, j as int)),
        ensures
            j == v@.len(),
            acc as int == utf16_len(mdtext_items(svl, i as int)),
        decreases v@.len() - j,
    {
        if j >= v.len() {
            proof {
                assert(utf16_len(mdtext_items(svl, j as int)) == 0);
            }
            break;
        }
        proof {
            lemma_md_items_view_at(v@, 0, j as int);
            assert(mdtext_items(svl, j as int) == mdtext_item(svl[j as int]) + mdtext_items(
                svl,
                j as int + 1,
            ));
            lemma_utf16_concat(mdtext_item(svl[j as int]), mdtext_items(svl, j as int + 1));
        }
        match measure_md_item(&v[j]) {
            Some(n) => {
                if acc > i64::MAX - n {
                    return None;
                }
                acc = acc + n;
                j = j + 1;
            },
            None => {
                return None;
            },
        }
    }
    Some(acc)
}

/// The UTF-16 length of the text the elements from index `i` on emit, or
/// `None` where it exceeds `i64::MAX`.
fn measure_md_blocks(v: &Vec<MdBlock>, i: usize) -> (r: Option<i64>)
    requires
        i <= v@.len(),
    ensures
        match r {
            Some(n) => n as int == utf16_len(mdtext_blocks(md_blocks_view(v@, 0), i as int)) && n >= 0,
            None => utf16_len(mdtext_blocks(md_blocks_view(v@, 0), i as int)) > i64::MAX,
        },
    decreases v@, 1int,
{
    let ghost svl = md_blocks_view(v@, 0);
    proof {
        lemma_md_blocks_view_len(v@, 0);
    }
    let mut acc: i64 = 0;
    let mut j: usize = i;
    loop
        invariant
            i <= j <= v@.len(),
            v@.len() == v.len(),
            svl == md_blocks_view(v@, 0),
            svl.len() == v@.len(),
            0 <= acc,
            utf16_len(mdtext_blocks(svl, i as int)) == acc + utf16_len(mdtext_blocks(svl, j as int)),
        ensures
            j == v@.len(),
            acc as int == utf16_len(mdtext_blocks(svl, i as int)),
        decreases v@.len() - j,
    {
        if j >= v.len() {
            proof {
                assert(utf16_len(mdtext_blocks(svl, j as int)) == 0);
            }
            break;
        }
        proof {
            lemma_md_blocks_view_at(v@, 0, j as int);
            assert(mdtext_blocks(svl, j as int) == mdtext_block(svl[j as int]) + mdtext_blocks(
                svl,
                j as int + 1,
            ));
            lemma_utf16_concat(mdtext_block(svl[j as int]), mdtext_blocks(svl, j as int + 1));
        }
        match measure_md_block(&v[j]) {
            Some(n) => {
                if acc > i64::MAX - n {
                    return None;
                }
                acc = acc + n;
                j = j + 1;
            },
            None => {
                return None;
            },
        }
    }
    Some(acc)
}

impl MarkupBuilder {
    /// Builds a message from conventional Markdown source, first checking
    /// at run time that the tokenizer accepts the source and that the
    /// emitted text's UTF-16 length fits the entity offset range; `None`
    /// reports that one of the two fails.
    pub fn try_from_markdown(text: &str) -> (r: Option<MarkupBuilder>)
        ensures
            match r {
                Some(b) => {
                    &&& md_source_safe(text@)
                    &&& b@.text == mdtext_blocks(md_tokenize(text@), 0)
                    &&& b@.entities == mdents_blocks(md_tokenize(text@), 0, 0)
                    &&& b@.offset == utf16_len(mdtext_blocks(md_tokenize(text@), 0))
                },
                None => !md_source_safe(text@) || utf16_len(
                    mdtext_blocks(md_tokenize(text@), 0),
                ) > i64::MAX,
            },
    {
        if !md_source_ok(text) {
            return None;
        }
        let blocks = tokenize_markdown(text);
        match measure_md_blocks(&blocks, 0) {
            None => None,
            Some(_) => Some(Self::from_markdown(text)),
        }
    }
}

} // verus!
