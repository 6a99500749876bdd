//! The output side of the compiler: formatting entities over the emitted
//! text, and the runtime context records that template fillings read.

use vstd::prelude::*;

verus! {

/// The sender of the triggering message.
#[derive(Debug, Clone, PartialEq, Eq)]
pub struct TgUser {
    pub id: i64,
    pub first_name: String,
    pub last_name: Option<String>,
    pub username: Option<String>,
    pub is_bot: bool,
}

/// Mathematical view of a sender record.
pub struct UserView {
    pub id: int,
    pub first_name: Seq<char>,
    pub last_name: Option<Seq<char>>,
    pub username: Option<Seq<char>>,
    pub is_bot: bool,
}

impl View for TgUser {
    type V = UserView;

    open spec fn view(&self) -> UserView {
        UserView {
            id: self.id as int,
            first_name: self.first_name@,
            last_name: match self.last_name {
                Some(s) => Some(s@),
                None => None,
            },
            username: match self.username {
                Some(s) => Some(s@),
                None => None,
            },
            is_bot: self.is_bot,
        }
    }
}

/// The chat the triggering message arrived in.
#[derive(Debug, Clone, PartialEq, Eq)]
pub struct TgChat {
    pub id: i64,
    /// The chat's display name.
    pub name: String,
}

/// Mathematical view of a chat record.
pub struct ChatView {
    pub id: int,
    pub name: Seq<char>,
}

impl View for TgChat {
    type V = ChatView;

    open spec fn view(&self) -> ChatView {
        ChatView { id: self.id as int, name: self.name@ }
    }
}

/// Runtime context for template resolution: the triggering message's
/// sender, if any, and its chat.
#[derive(Debug, Clone, PartialEq, Eq)]
pub struct MessageContext {
    pub sender: Option<TgUser>,
    pub chat: TgChat,
}

/// Mathematical view of the runtime context.
pub struct CtxView {
    pub sender: Option<UserView>,
    pub chat: ChatView,
}

impl View for MessageContext {
    type V = CtxView;

    open spec fn view(&self) -> CtxView {
        CtxView {
            sender: match self.sender {
                Some(u) => Some(u@),
                None => None,
            },
            chat: self.chat@,
        }
    }
}

impl TgUser {
    /// A copy of this user record.
    pub fn duplicate(&self) -> (r: TgUser)
        ensures
            r == *self,
    {
        TgUser {
            id: self.id,
            first_name: self.first_name.clone(),
            last_name: match &self.last_name {
                Some(l) => Some(l.clone()),
                None => None,
            },
            username: match &self.username {
                Some(u) => Some(u.clone()),
                None => None,
            },
            is_bot: self.is_bot,
        }
    }
}

/// The kind of a formatting entity, with its payload where the wire format
/// carries one.
#[derive(Debug, Clone, PartialEq, Eq)]
pub enum EntityKind {
    Text,
    Bold,
    Italic,
    Underline,
    Strikethrough,
    Spoiler,
    Code,
    Mention,
    Hashtag,
    Cashtag,
    BotCommand,
    Email,
    PhoneNumber,
    /// A link over the covered text; the payload is the literal URL.
    TextLink(String),
    /// A mention bound to a user record rather than a username.
    TextMention(TgUser),
    /// A code block with a language tag.
    Pre(String),
    CustomEmoji(String),
}

/// Mathematical view of an entity kind.
pub enum KindView {
    Text,
    Bold,
    Italic,
    Underline,
    Strikethrough,
    Spoiler,
    Code,
    Mention,
    Hashtag,
    Cashtag,
    BotCommand,
    Email,
    PhoneNumber,
    TextLink(Seq<char>),
    TextMention(UserView),
    Pre(Seq<char>),
    CustomEmoji(Seq<char>),
}

impl View for EntityKind {
    type V = KindView;

    open spec fn view(&self) -> KindView {
        match self {
            EntityKind::Text => KindView::Text,
            EntityKind::Bold => KindView::Bold,
            EntityKind::Italic => KindView::Italic,
            EntityKind::Underline => KindView::Underline,
            EntityKind::Strikethrough => KindView::Strikethrough,
            EntityKind::Spoiler => KindView::Spoiler,
            EntityKind::Code => KindView::Code,
            EntityKind::Mention => KindView::Mention,
            EntityKind::Hashtag => KindView::Hashtag,
            EntityKind::Cashtag => KindView::Cashtag,
            EntityKind::BotCommand => KindView::BotCommand,
            EntityKind::Email => KindView::Email,
            EntityKind::PhoneNumber => KindView::PhoneNumber,
            EntityKind::TextLink(url) => KindView::TextLink(url@),
            EntityKind::TextMention(u) => KindView::TextMention(u@),
            EntityKind::Pre(lang) => KindView::Pre(lang@),
            EntityKind::CustomEmoji(id) => KindView::CustomEmoji(id@),
        }
    }
}

/// The wire name of an entity kind.
pub open spec fn kind_name(k: KindView) -> Seq<char> {
    match k {
        KindView::Text => ""@,
        KindView::Bold => "bold"@,
        KindView::Italic => "italic"@,
        KindView::Underline => "underline"@,
        KindView::Strikethrough => "strikethrough"@,
        KindView::Spoiler => "spoiler"@,
        KindView::Code => "code"@,
        KindView::Mention => "mention"@,
        KindView::Hashtag => "hashtag"@,
        KindView::Cashtag => "cashtag"@,
        KindView::BotCommand => "bot_command"@,
        KindView::Email => "email"@,
        KindView::PhoneNumber => "phone_number"@,
        KindView::TextLink(_) => "text_link"@,
        KindView::TextMention(_) => "text_mention"@,
        KindView::Pre(_) => "pre"@,
        KindView::CustomEmoji(_) => "custom_emoji"@,
    }
}

impl EntityKind {
    /// The wire name of this kind.
    pub fn type_str(&self) -> (r: String)
        ensures
            r@ == kind_name(self@),
    {
        match self {
            EntityKind::Text => "".to_owned(),
            EntityKind::Bold => "bold".to_owned(),
            EntityKind::Italic => "italic".to_owned(),
            EntityKind::Underline => "underline".to_owned(),
            EntityKind::Strikethrough => "strikethrough".to_owned(),
            EntityKind::Spoiler => "spoiler".to_owned(),
            EntityKind::Code => "code".to_owned(),
            EntityKind::Mention => "mention".to_owned(),
            EntityKind::Hashtag => "hashtag".to_owned(),
            EntityKind::Cashtag => "cashtag".to_owned(),
            EntityKind::BotCommand => "bot_command".to_owned(),
            EntityKind::Email => "email".to_owned(),
            EntityKind::PhoneNumber => "phone_number".to_owned(),
            EntityKind::TextLink(_) => "text_link".to_owned(),
            EntityKind::TextMention(_) => "text_mention".to_owned(),
            EntityKind::Pre(_) => "pre".to_owned(),
            EntityKind::CustomEmoji(_) => "custom_emoji".to_owned(),
        }
    }
}

/// One formatting annotation over the emitted text. Offset and length are
/// counted in UTF-16 code units of the text buffer.
#[derive(Debug, Clone, PartialEq, Eq)]
pub struct MessageEntity {
    pub kind: EntityKind,
    pub offset: i64,
    pub length: i64,
}

/// Mathematical view of an entity.
pub struct EntityView {
    pub kind: KindView,
    pub offset: int,
    pub length: int,
}

impl View for MessageEntity {
    type V = EntityView;

    open spec fn view(&self) -> EntityView {
        EntityView { kind: self.kind@, offset: self.offset as int, length: self.length as int }
    }
}

/// The views of a sequence of entities.
pub open spec fn entities_view(s: Seq<MessageEntity>) -> Seq<EntityView> {
    s.map_values(|e: MessageEntity| e@)
}

/// Pushing an entity appends its view.
pub proof fn lemma_entities_view_push(s: Seq<MessageEntity>, e: MessageEntity)
    ensures
        entities_view(s.push(e)) == entities_view(s).push(e@),
{
    assert(entities_view(s.push(e)) =~= entities_view(s).push(e@));
}

} // verus!
