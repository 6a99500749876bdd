//! The markup builder: a text buffer, an ordered entity list and a cursor
//! counted in UTF-16 code units. Every append anchors its entity at the
//! cursor value before the text goes in; nothing ever rewinds the cursor
//! or removes an entity.

use vstd::prelude::*;
use vstd::string::StringExecFns;
use crate::entities::{
    entities_view, lemma_entities_view_push, EntityKind, EntityView, KindView, MessageEntity,
    TgUser,
};
use crate::text::{lemma_utf16_concat, utf16_len, utf16_len_i64};

verus! {

/// Mathematical view of a builder: the accumulated text, the entities in
/// the order they were appended, and the cursor.
pub struct BuilderView {
    pub text: Seq<char>,
    pub entities: Seq<EntityView>,
    pub offset: int,
}

/// The builder invariant: the cursor equals the UTF-16 length of the text
/// accumulated so far. Every append that supplies no override advance
/// preserves it.
pub open spec fn cursor_consistent(b: BuilderView) -> bool {
    b.offset == utf16_len(b.text)
}

/// An append adds text and advances the cursor by its UTF-16 length; any
/// such step preserves the builder invariant. Together with `new`, which
/// starts consistent, this gives the invariant after any sequence of
/// append operations without override advances.
pub proof fn lemma_append_keeps_cursor(pre: BuilderView, post: BuilderView, s: Seq<char>)
    requires
        cursor_consistent(pre),
        post.text == pre.text + s,
        post.offset == pre.offset + utf16_len(s),
    ensures
        cursor_consistent(post),
{
    lemma_utf16_concat(pre.text, s);
}

/// The stateful accumulator both the resolver and direct callers use to
/// assemble one outgoing message.
#[derive(Clone)]
pub struct MarkupBuilder {
    entities: Vec<MessageEntity>,
    offset: i64,
    text: String,
}

/// A pending markup piece: a kind, the text it covers, and an optional
/// override advance used when displayed length differs from the logical
/// cursor advance.
pub struct Markup<'a> {
    markup_type: MarkupType,
    text: &'a str,
    advance: Option<i64>,
}

/// The kinds of markup a builder can append, with their payloads.
pub enum MarkupType {
    Text,
    StrikeThrough,
    HashTag,
    CashTag,
    BotCommand,
    Email,
    PhoneNumber,
    Bold,
    Italic,
    Underline,
    Spoiler,
    Code,
    Mention,
    TextLink(String),
    TextMention(TgUser),
    Pre(String),
    CustomEmoji(String),
}

/// The entity kind a markup type produces.
pub open spec fn markup_kind(mt: MarkupType) -> KindView {
    match mt {
        MarkupType::Text => KindView::Text,
        MarkupType::StrikeThrough => KindView::Strikethrough,
        MarkupType::HashTag => KindView::Hashtag,
        MarkupType::CashTag => KindView::Cashtag,
        MarkupType::BotCommand => KindView::BotCommand,
        MarkupType::Email => KindView::Email,
        MarkupType::PhoneNumber => KindView::PhoneNumber,
        MarkupType::Bold => KindView::Bold,
        MarkupType::Italic => KindView::Italic,
        MarkupType::Underline => KindView::Underline,
        MarkupType::Spoiler => KindView::Spoiler,
        MarkupType::Code => KindView::Code,
        MarkupType::Mention => KindView::Mention,
        MarkupType::TextLink(url) => KindView::TextLink(url@),
        MarkupType::TextMention(u) => KindView::TextMention(u@),
        MarkupType::Pre(lang) => KindView::Pre(lang@),
        MarkupType::CustomEmoji(id) => KindView::CustomEmoji(id@),
    }
}

impl MarkupType {
    /// This markup kind over the given text, with no override advance.
    pub fn text<'a>(self, text: &'a str) -> (r: Markup<'a>)
        ensures
            r.kind() == markup_kind(self),
            r.text_view() == text@,
            r.adv() is None,
    {
        Markup { markup_type: self, text, advance: None }
    }
}

impl<'a> Markup<'a> {
    /// The entity kind this markup produces.
    pub closed spec fn kind(self) -> KindView {
        markup_kind(self.markup_type)
    }

    /// The text this markup covers.
    pub closed spec fn text_view(self) -> Seq<char> {
        self.text@
    }

    /// The override advance, if one was supplied.
    pub closed spec fn adv(self) -> Option<int> {
        match self.advance {
            Some(a) => Some(a as int),
            None => None,
        }
    }

    /// The cursor advance this markup asks for: the override where one was
    /// supplied, else the UTF-16 length of its text.
    pub open spec fn advance_by(self) -> int {
        match self.adv() {
            Some(a) => a,
            None => utf16_len(self.text_view()) as int,
        }
    }

    /// Replaces the cursor advance of this markup.
    pub fn advance(self, advance: i64) -> (r: Markup<'a>)
        ensures
            r.kind() == self.kind(),
            r.text_view() == self.text_view(),
            r.adv() == Some(advance as int),
    {
        Markup { advance: Some(advance), ..self }
    }
}

/// The entity kind record built from a markup type, carrying its payload.
fn kind_of_markup(mt: MarkupType) -> (r: EntityKind)
    ensures
        r@ == markup_kind(mt),
{
    match mt {
        MarkupType::Text => EntityKind::Text,
        MarkupType::StrikeThrough => EntityKind::Strikethrough,
        MarkupType::HashTag => EntityKind::Hashtag,
        MarkupType::CashTag => EntityKind::Cashtag,
        MarkupType::BotCommand => EntityKind::BotCommand,
        MarkupType::Email => EntityKind::Email,
        MarkupType::PhoneNumber => EntityKind::PhoneNumber,
        MarkupType::Bold => EntityKind::Bold,
        MarkupType::Italic => EntityKind::Italic,
        MarkupType::Underline => EntityKind::Underline,
        MarkupType::Spoiler => EntityKind::Spoiler,
        MarkupType::Code => EntityKind::Code,
        MarkupType::Mention => EntityKind::Mention,
        MarkupType::TextLink(url) => EntityKind::TextLink(url),
        MarkupType::TextMention(u) => EntityKind::TextMention(u),
        MarkupType::Pre(lang) => EntityKind::Pre(lang),
        MarkupType::CustomEmoji(id) => EntityKind::CustomEmoji(id),
    }
}

impl View for MarkupBuilder {
    type V = BuilderView;

    closed spec fn view(&self) -> BuilderView {
        BuilderView {
            text: self.text@,
            entities: entities_view(self.entities@),
            offset: self.offset as int,
        }
    }
}

impl MarkupBuilder {
    /// An empty builder: no text, no entities, cursor at zero.
    pub fn new() -> (r: Self)
        ensures
            r@.text == Seq::<char>::empty(),
            r@.entities == Seq::<EntityView>::empty(),
            r@.offset == 0,
            cursor_consistent(r@),
    {
        let r = MarkupBuilder { entities: Vec::new(), offset: 0, text: String::new() };
        proof {
            assert(entities_view(r.entities@) =~= Seq::<EntityView>::empty());
        }
        r
    }

    /// Appends plain text: no entity, cursor advances by the text's UTF-16
    /// length.
    pub fn text(&mut self, text: &str)
        requires
            utf16_len(text@) <= i64::MAX,
            old(self)@.offset + utf16_len(text@) <= i64::MAX,
        ensures
            final(self)@.text == old(self)@.text + text@,
            final(self)@.entities == old(self)@.entities,
            final(self)@.offset == old(self)@.offset + utf16_len(text@),
            cursor_consistent(old(self)@) ==> cursor_consistent(final(self)@),
    {
        let n = utf16_len_i64(text);
        self.text.append(text);
        self.offset = self.offset + n;
        proof {
            if cursor_consistent(old(self)@) {
                lemma_append_keeps_cursor(old(self)@, self@, text@);
            }
        }
    }

    /// Appends one markup piece: the entity of its kind is anchored at the
    /// current cursor with the UTF-16 length of its text, the text goes
    /// into the buffer, and the cursor advances by the markup's advance.
    pub fn regular(&mut self, markup: Markup<'_>)
        requires
            utf16_len(markup.text_view()) <= i64::MAX,
            markup.adv() matches Some(a) ==> a >= 0,
            old(self)@.offset + markup.advance_by() <= i64::MAX,
        ensures
            final(self)@.text == old(self)@.text + markup.text_view(),
            final(self)@.entities == old(self)@.entities.push(
                EntityView {
                    kind: markup.kind(),
                    offset: old(self)@.offset,
                    length: utf16_len(markup.text_view()) as int,
                },
            ),
            final(self)@.offset == old(self)@.offset + markup.advance_by(),
            cursor_consistent(old(self)@) && markup.adv() is None ==> cursor_consistent(
                final(self)@,
            ),
    {
        let n = utf16_len_i64(markup.text);
        self.text.append(markup.text);
        let entity = MessageEntity {
            kind: kind_of_markup(markup.markup_type),
            offset: self.offset,
            length: n,
        };
        proof {
            lemma_entities_view_push(self.entities@, entity);
        }
        self.entities.push(entity);
        let adv = match markup.advance {
            Some(a) => a,
            None => n,
        };
        self.offset = self.offset + adv;
        proof {
            if cursor_consistent(old(self)@) && markup.adv() is None {
                lemma_append_keeps_cursor(old(self)@, self@, markup.text_view());
            }
        }
    }

    /// Appends an entity of the given kind over the given text, at the
    /// current cursor, with an optional override advance.
    fn append_kind(&mut self, kind: EntityKind, text: &str, advance: Option<i64>)
        requires
            utf16_len(text@) <= i64::MAX,
            advance matches Some(a) ==> a >= 0,
            old(self)@.offset + (match advance {
                Some(a) => a as int,
                None => utf16_len(text@) as int,
            }) <= i64::MAX,
        ensures
            final(self)@.text == old(self)@.text + text@,
            final(self)@.entities == old(self)@.entities.push(
                EntityView {
                    kind: kind@,
                    offset: old(self)@.offset,
                    length: utf16_len(text@) as int,
                },
            ),
            final(self)@.offset == old(self)@.offset + (match advance {
                Some(a) => a as int,
                None => utf16_len(text@) as int,
            }),
            cursor_consistent(old(self)@) && advance is None ==> cursor_consistent(final(self)@),
    {
        let n = utf16_len_i64(text);
        let entity = MessageEntity { kind, offset: self.offset, length: n };
        proof {
            lemma_entities_view_push(self.entities@, entity);
        }
        self.entities.push(entity);
        self.text.append(text);
        let adv = match advance {
            Some(a) => a,
            None => n,
        };
        self.offset = self.offset + adv;
        proof {
            if cursor_consistent(old(self)@) && advance is None {
                lemma_append_keeps_cursor(old(self)@, self@, text@);
            }
        }
    }

    /// Appends a text link over the given text.
    pub fn text_link(&mut self, text: &str, link: String, advance: Option<i64>)
        requires
            utf16_len(text@) <= i64::MAX,
            advance matches Some(a) ==> a >= 0,
            old(self)@.offset + (match advance {
                Some(a) => a as int,
                None => utf16_len(text@) as int,
            }) <= i64::MAX,
        ensures
            final(self)@.text == old(self)@.text + text@,
            final(self)@.entities == old(self)@.entities.push(
                EntityView {
                    kind: KindView::TextLink(link@),
                    offset: old(self)@.offset,
                    length: utf16_len(text@) as int,
                },
            ),
            final(self)@.offset == old(self)@.offset + (match advance {
                Some(a) => a as int,
                None => utf16_len(text@) as int,
            }),
            cursor_consistent(old(self)@) && advance is None ==> cursor_consistent(final(self)@),
    {
        self.append_kind(EntityKind::TextLink(link), text, advance)
    }

    /// Appends a mention bound to the given user record over the text.
    pub fn text_mention(&mut self, text: &str, mention: TgUser, advance: Option<i64>)
        requires
            utf16_len(text@) <= i64::MAX,
            advance matches Some(a) ==> a >= 0,
            old(self)@.offset + (match advance {
                Some(a) => a as int,
                None => utf16_len(text@) as int,
            }) <= i64::MAX,
        ensures
            final(self)@.text == old(self)@.text + text@,
            final(self)@.entities == old(self)@.entities.push(
                EntityView {
                    kind: KindView::TextMention(mention@),
                    offset: old(self)@.offset,
                    length: utf16_len(text@) as int,
                },
            ),
            final(self)@.offset == old(self)@.offset + (match advance {
                Some(a) => a as int,
                None => utf16_len(text@) as int,
            }),
            cursor_consistent(old(self)@) && advance is None ==> cursor_consistent(final(self)@),
    {
        let ghost m = mention@;
        self.append_kind(EntityKind::TextMention(mention), text, advance)
    }

    /// Appends a code block with a language tag over the text.
    pub fn pre(&mut self, text: &str, language: String, advance: Option<i64>)
        requires
            utf16_len(text@) <= i64::MAX,
            advance matches Some(a) ==> a >= 0,
            old(self)@.offset + (match advance {
                Some(a) => a as int,
                None => utf16_len(text@) as int,
            }) <= i64::MAX,
        ensures
            final(self)@.text == old(self)@.text + text@,
            final(self)@.entities == old(self)@.entities.push(
                EntityView {
                    kind: KindView::Pre(language@),
                    offset: old(self)@.offset,
                    length: utf16_len(text@) as int,
                },
            ),
            final(self)@.offset == old(self)@.offset + (match advance {
                Some(a) => a as int,
                None => utf16_len(text@) as int,
            }),
            cursor_consistent(old(self)@) && advance is None ==> cursor_consistent(final(self)@),
    {
        self.append_kind(EntityKind::Pre(language), text, advance)
    }

    /// Appends a custom emoji entity over the text.
    pub fn custom_emoji(&mut self, text: &str, emoji_id: String, advance: Option<i64>)
        requires
            utf16_len(text@) <= i64::MAX,
            advance matches Some(a) ==> a >= 0,
            old(self)@.offset + (match advance {
                Some(a) => a as int,
                None => utf16_len(text@) as int,
            }) <= i64::MAX,
        ensures
            final(self)@.text == old(self)@.text + text@,
            final(self)@.entities == old(self)@.entities.push(
                EntityView {
                    kind: KindView::CustomEmoji(emoji_id@),
                    offset: old(self)@.offset,
                    length: utf16_len(text@) as int,
                },
            ),
            final(self)@.offset == old(self)@.offset + (match advance {
                Some(a) => a as int,
                None => utf16_len(text@) as int,
            }),
            cursor_consistent(old(self)@) && advance is None ==> cursor_consistent(final(self)@),
    {
        self.append_kind(EntityKind::CustomEmoji(emoji_id), text, advance)
    }

    /// Appends struck-through text. The entity covers the text's UTF-16 range
    /// at the current cursor.
    pub fn strikethrough(&mut self, text: &str)
        requires
            utf16_len(text@) <= i64::MAX,
            old(self)@.offset + utf16_len(text@) <= i64::MAX,
        ensures
            final(self)@.text == old(self)@.text + text@,
            final(self)@.entities == old(self)@.entities.push(
                EntityView {
                    kind: KindView::Strikethrough,
                    offset: old(self)@.offset,
                    length: utf16_len(text@) as int,
                },
            ),
            final(self)@.offset == old(self)@.offset + utf16_len(text@),
            cursor_consistent(old(self)@) ==> cursor_consistent(final(self)@),
    {
        self.regular(MarkupType::StrikeThrough.text(text))
    }

    /// Appends a hashtag. The entity covers the text's UTF-16 range
    /// at the current cursor.
    pub fn hashtag(&mut self, text: &str)
        requires
            utf16_len(text@) <= i64::MAX,
            old(self)@.offset + utf16_len(text@) <= i64::MAX,
        ensures
            final(self)@.text == old(self)@.text + text@,
            final(self)@.entities == old(self)@.entities.push(
                EntityView {
                    kind: KindView::Hashtag,
                    offset: old(self)@.offset,
                    length: utf16_len(text@) as int,
                },
            ),
            final(self)@.offset == old(self)@.offset + utf16_len(text@),
            cursor_consistent(old(self)@) ==> cursor_consistent(final(self)@),
    {
        self.regular(MarkupType::HashTag.text(text))
    }

    /// Appends a cashtag. The entity covers the text's UTF-16 range
    /// at the current cursor.
    pub fn cashtag(&mut self, text: &str)
        requires
            utf16_len(text@) <= i64::MAX,
            old(self)@.offset + utf16_len(text@) <= i64::MAX,
        ensures
            final(self)@.text == old(self)@.text + text@,
            final(self)@.entities == old(self)@.entities.push(
                EntityView {
                    kind: KindView::Cashtag,
                    offset: old(self)@.offset,
                    length: utf16_len(text@) as int,
                },
            ),
            final(self)@.offset == old(self)@.offset + utf16_len(text@),
            cursor_consistent(old(self)@) ==> cursor_consistent(final(self)@),
    {
        self.regular(MarkupType::CashTag.text(text))
    }

    /// Appends a bot command. The entity covers the text's UTF-16 range
    /// at the current cursor.
    pub fn bot_command(&mut self, text: &str)
        requires
            utf16_len(text@) <= i64::MAX,
            old(self)@.offset + utf16_len(text@) <= i64::MAX,
        ensures
            final(self)@.text == old(self)@.text + text@,
            final(self)@.entities == old(self)@.entities.push(
                EntityView {
                    kind: KindView::BotCommand,
                    offset: old(self)@.offset,
                    length: utf16_len(text@) as int,
                },
            ),
            final(self)@.offset == old(self)@.offset + utf16_len(text@),
            cursor_consistent(old(self)@) ==> cursor_consistent(final(self)@),
    {
        self.regular(MarkupType::BotCommand.text(text))
    }

    /// Appends an email address. The entity covers the text's UTF-16 range
    /// at the current cursor.
    pub fn email(&mut self, text: &str)
        requires
            utf16_len(text@) <= i64::MAX,
            old(self)@.offset + utf16_len(text@) <= i64::MAX,
        ensures
            final(self)@.text == old(self)@.text + text@,
            final(self)@.entities == old(self)@.entities.push(
                EntityView {
                    kind: KindView::Email,
                    offset: old(self)@.offset,
                    length: utf16_len(text@) as int,
                },
            ),
            final(self)@.offset == old(self)@.offset + utf16_len(text@),
            cursor_consistent(old(self)@) ==> cursor_consistent(final(self)@),
    {
        self.regular(MarkupType::Email.text(text))
    }

    /// Appends a phone number. The entity covers the text's UTF-16 range
    /// at the current cursor.
    pub fn phone_number(&mut self, text: &str)
        requires
            utf16_len(text@) <= i64::MAX,
            old(self)@.offset + utf16_len(text@) <= i64::MAX,
        ensures
            final(self)@.text == old(self)@.text + text@,
            final(self)@.entities == old(self)@.entities.push(
                EntityView {
                    kind: KindView::PhoneNumber,
                    offset: old(self)@.offset,
                    length: utf16_len(text@) as int,
                },
            ),
            final(self)@.offset == old(self)@.offset + utf16_len(text@),
            cursor_consistent(old(self)@) ==> cursor_consistent(final(self)@),
    {
        self.regular(MarkupType::PhoneNumber.text(text))
    }

    /// Appends bold text. The entity covers the text's UTF-16 range
    /// at the current cursor.
    pub fn bold(&mut self, text: &str)
        requires
            utf16_len(text@) <= i64::MAX,
            old(self)@.offset + utf16_len(text@) <= i64::MAX,
        ensures
            final(self)@.text == old(self)@.text + text@,
            final(self)@.entities == old(self)@.entities.push(
                EntityView {
                    kind: KindView::Bold,
                    offset: old(self)@.offset,
                    length: utf16_len(text@) as int,
                },
            ),
            final(self)@.offset == old(self)@.offset + utf16_len(text@),
            cursor_consistent(old(self)@) ==> cursor_consistent(final(self)@),
    {
        self.regular(MarkupType::Bold.text(text))
    }

    /// Appends italic text. The entity covers the text's UTF-16 range
    /// at the current cursor.
    pub fn italic(&mut self, text: &str)
        requires
            utf16_len(text@) <= i64::MAX,
            old(self)@.offset + utf16_len(text@) <= i64::MAX,
        ensures
            final(self)@.text == old(self)@.text + text@,
            final(self)@.entities == old(self)@.entities.push(
                EntityView {
                    kind: KindView::Italic,
                    offset: old(self)@.offset,
                    length: utf16_len(text@) as int,
                },
            ),
            final(self)@.offset == old(self)@.offset + utf16_len(text@),
            cursor_consistent(old(self)@) ==> cursor_consistent(final(self)@),
    {
        self.regular(MarkupType::Italic.text(text))
    }

    /// Appends underlined text. The entity covers the text's UTF-16 range
    /// at the current cursor.
    pub fn underline(&mut self, text: &str)
        requires
            utf16_len(text@) <= i64::MAX,
            old(self)@.offset + utf16_len(text@) <= i64::MAX,
        ensures
            final(self)@.text == old(self)@.text + text@,
            final(self)@.entities == old(self)@.entities.push(
                EntityView {
                    kind: KindView::Underline,
                    offset: old(self)@.offset,
                    length: utf16_len(text@) as int,
                },
            ),
            final(self)@.offset == old(self)@.offset + utf16_len(text@),
            cursor_consistent(old(self)@) ==> cursor_consistent(final(self)@),
    {
        self.regular(MarkupType::Underline.text(text))
    }

    /// Appends spoiler text. The entity covers the text's UTF-16 range
    /// at the current cursor.
    pub fn spoiler(&mut self, text: &str)
        requires
            utf16_len(text@) <= i64::MAX,
            old(self)@.offset + utf16_len(text@) <= i64::MAX,
        ensures
            final(self)@.text == old(self)@.text + text@,
            final(self)@.entities == old(self)@.entities.push(
                EntityView {
                    kind: KindView::Spoiler,
                    offset: old(self)@.offset,
                    length: utf16_len(text@) as int,
                },
            ),
            final(self)@.offset == old(self)@.offset + utf16_len(text@),
            cursor_consistent(old(self)@) ==> cursor_consistent(final(self)@),
    {
        self.regular(MarkupType::Spoiler.text(text))
    }

    /// Appends monospace text. The entity covers the text's UTF-16 range
    /// at the current cursor.
    pub fn code(&mut self, text: &str)
        requires
            utf16_len(text@) <= i64::MAX,
            old(self)@.offset + utf16_len(text@) <= i64::MAX,
        ensures
            final(self)@.text == old(self)@.text + text@,
            final(self)@.entities == old(self)@.entities.push(
                EntityView {
                    kind: KindView::Code,
                    offset: old(self)@.offset,
                    length: utf16_len(text@) as int,
                },
            ),
            final(self)@.offset == old(self)@.offset + utf16_len(text@),
            cursor_consistent(old(self)@) ==> cursor_consistent(final(self)@),
    {
        self.regular(MarkupType::Code.text(text))
    }

    /// Appends a mention. The entity covers the text's UTF-16 range
    /// at the current cursor.
    pub fn mention(&mut self, text: &str)
        requires
            utf16_len(text@) <= i64::MAX,
            old(self)@.offset + utf16_len(text@) <= i64::MAX,
        ensures
            final(self)@.text == old(self)@.text + text@,
            final(self)@.entities == old(self)@.entities.push(
                EntityView {
                    kind: KindView::Mention,
                    offset: old(self)@.offset,
                    length: utf16_len(text@) as int,
                },
            ),
            final(self)@.offset == old(self)@.offset + utf16_len(text@),
            cursor_consistent(old(self)@) ==> cursor_consistent(final(self)@),
    {
        self.regular(MarkupType::Mention.text(text))
    }

    /// Appends one entity of the given kind over an already-emitted range,
    /// touching neither the text nor the cursor.
    pub(crate) fn manual(&mut self, kind: EntityKind, start: i64, length: i64)
        ensures
            final(self)@.text == old(self)@.text,
            final(self)@.entities == old(self)@.entities.push(
                EntityView { kind: kind@, offset: start as int, length: length as int },
            ),
            final(self)@.offset == old(self)@.offset,
    {
        let entity = MessageEntity { kind, offset: start, length };
        proof {
            lemma_entities_view_push(self.entities@, entity);
        }
        self.entities.push(entity);
    }

    /// Appends a literal space, advancing the cursor by one.
    pub fn s(&mut self)
        requires
            old(self)@.offset + 1 <= i64::MAX,
        ensures
            final(self)@.text == old(self)@.text + " "@,
            final(self)@.entities == old(self)@.entities,
            final(self)@.offset == old(self)@.offset + 1,
            cursor_consistent(old(self)@) ==> cursor_consistent(final(self)@),
    {
        self.offset = self.offset + 1;
        self.text.append(" ");
        proof {
            reveal_strlit(" ");
            assert(utf16_len(" "@.drop_first()) == 0);
            assert(utf16_len(" "@) == 1);
            if cursor_consistent(old(self)@) {
                lemma_append_keeps_cursor(old(self)@, self@, " "@);
            }
        }
    }

    /// The current cursor value.
    pub(crate) fn cursor(&self) -> (r: i64)
        ensures
            r as int == self@.offset,
    {
        self.offset
    }

    /// The accumulated text and entities, borrowed.
    pub fn build(&self) -> (r: (&str, &Vec<MessageEntity>))
        ensures
            r.0@ == self@.text,
            entities_view(r.1@) == self@.entities,
    {
        (self.text.as_str(), &self.entities)
    }

    /// The accumulated text and entities, owned; the builder is consumed.
    pub fn build_owned(self) -> (r: (String, Vec<MessageEntity>))
        ensures
            r.0@ == self@.text,
            entities_view(r.1@) == self@.entities,
    {
        (self.text, self.entities)
    }
}

/// A message under construction, as a builder wrapped for sending.
pub struct EntityMessage(pub MarkupBuilder);

impl EntityMessage {
    /// An empty message.
    pub fn new() -> (r: Self)
        ensures
            r.0@.text == Seq::<char>::empty(),
            r.0@.entities == Seq::<EntityView>::empty(),
            r.0@.offset == 0,
    {
        EntityMessage(MarkupBuilder::new())
    }

    /// The accumulated text and entities, borrowed.
    pub fn textentities(&self) -> (r: (&str, &Vec<MessageEntity>))
        ensures
            r.0@ == self.0@.text,
            entities_view(r.1@) == self.0@.entities,
    {
        self.0.build()
    }
}

} // verus!
