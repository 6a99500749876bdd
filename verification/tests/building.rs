//! The builder's append operations, the cursor invariant, and the small
//! formatting kernels: decimal keys, joined names, module help text.

use murkdown::builder::{EntityMessage, MarkupBuilder, MarkupType};
use murkdown::entities::{EntityKind, TgUser};
use murkdown::keys::{get_action_key, get_chat_admin_cache_key, get_lang_key};
use murkdown::meta::{Metadata, MetadataCollection};
use murkdown::perms::{BotPermissions, NamedBotPermissions, NamedPermission};
use murkdown::text::{i64_to_dec, join, str_eq, u64_to_dec, utf16_len_checked};

#[test]
fn appends_keep_cursor_equal_to_utf16_length() {
    let mut b = MarkupBuilder::new();
    b.text("plain ");
    b.bold("bold");
    b.s();
    b.italic("it");
    b.code("c");
    b.text("\u{1F600}");
    let (text, _) = b.build();
    let units: usize = text.encode_utf16().count();
    let mut again = MarkupBuilder::new();
    again.text(text);
    let (t2, e2) = again.build();
    assert_eq!(t2, text);
    assert_eq!(e2.len(), 0);
    assert_eq!(utf16_len_checked(text), Some(units as i64));
    assert_eq!(units, 6 + 4 + 1 + 2 + 1 + 2);
}

#[test]
fn each_entity_is_anchored_at_the_cursor_before_its_text() {
    let mut b = MarkupBuilder::new();
    b.text("ab");
    b.bold("cd");
    b.underline("e");
    let (text, entities) = b.build();
    assert_eq!(text, "abcde");
    assert_eq!(entities.len(), 2);
    assert_eq!(entities[0].kind, EntityKind::Bold);
    assert_eq!(entities[0].offset, 2);
    assert_eq!(entities[0].length, 2);
    assert_eq!(entities[1].kind, EntityKind::Underline);
    assert_eq!(entities[1].offset, 4);
    assert_eq!(entities[1].length, 1);
}

#[test]
fn override_advance_moves_the_cursor_but_not_the_length() {
    let mut b = MarkupBuilder::new();
    b.regular(MarkupType::Bold.text("hidden").advance(0));
    b.text("x");
    let (text, entities) = b.build();
    assert_eq!(text, "hiddenx");
    assert_eq!(entities.len(), 1);
    assert_eq!(entities[0].offset, 0);
    assert_eq!(entities[0].length, 6);
}

#[test]
fn mention_and_payload_kinds_carry_their_payloads() {
    let user = TgUser {
        id: 9,
        first_name: "Bea".to_owned(),
        last_name: None,
        username: None,
        is_bot: false,
    };
    let mut b = MarkupBuilder::new();
    b.text_mention("Bea", user, None);
    b.text_link("here", "http://example.com".to_owned(), None);
    b.pre("let x;", "rust".to_owned(), None);
    b.custom_emoji("?", "5555".to_owned(), None);
    let (text, entities) = b.build();
    assert_eq!(text, "Beaherelet x;?");
    assert_eq!(entities.len(), 4);
    assert!(matches!(&entities[0].kind, EntityKind::TextMention(u) if u.first_name == "Bea"));
    assert!(matches!(&entities[1].kind, EntityKind::TextLink(u) if u == "http://example.com"));
    assert!(matches!(&entities[2].kind, EntityKind::Pre(l) if l == "rust"));
    assert!(matches!(&entities[3].kind, EntityKind::CustomEmoji(e) if e == "5555"));
    assert_eq!(entities[1].offset, 3);
    assert_eq!(entities[2].offset, 7);
    assert_eq!(entities[3].offset, 13);
}

#[test]
fn kind_names_match_the_wire_format() {
    assert_eq!(EntityKind::Bold.type_str(), "bold");
    assert_eq!(EntityKind::BotCommand.type_str(), "bot_command");
    assert_eq!(EntityKind::PhoneNumber.type_str(), "phone_number");
    assert_eq!(EntityKind::TextLink("u".to_owned()).type_str(), "text_link");
    assert_eq!(EntityKind::Text.type_str(), "");
}

#[test]
fn entity_message_exposes_text_and_entities() {
    let mut m = EntityMessage::new();
    m.0.hashtag("tag");
    let (text, entities) = m.textentities();
    assert_eq!(text, "tag");
    assert_eq!(entities.len(), 1);
    assert_eq!(entities[0].kind, EntityKind::Hashtag);
}

#[test]
fn decimal_rendering_is_exact() {
    assert_eq!(u64_to_dec(0), "0");
    assert_eq!(u64_to_dec(90210), "90210");
    assert_eq!(i64_to_dec(-1), "-1");
    assert_eq!(i64_to_dec(i64::MIN), "-9223372036854775808");
    assert_eq!(i64_to_dec(i64::MAX), "9223372036854775807");
}

#[test]
fn cache_keys_are_formatted_exactly() {
    assert_eq!(get_action_key(1, 2), "act:1:2");
    assert_eq!(get_action_key(-3, -100), "act:-3:-100");
    assert_eq!(get_chat_admin_cache_key(77), "ca:77");
    assert_eq!(get_lang_key(-5), "lang:-5");
}

#[test]
fn join_inserts_the_separator_between_parts() {
    let parts: Vec<String> = vec!["a".to_owned(), "b".to_owned(), "c".to_owned()];
    assert_eq!(join(&parts, ", "), "a, b, c");
    let one: Vec<String> = vec!["solo".to_owned()];
    assert_eq!(join(&one, ", "), "solo");
    let none: Vec<String> = vec![];
    assert_eq!(join(&none, ", "), "");
    assert!(str_eq("same", "same"));
    assert!(!str_eq("same", "other"));
}

#[test]
fn compound_permission_is_granted_only_when_all_are() {
    let p = NamedPermission::new("CanManageChat", true);
    let q = NamedPermission::new("CanPinMessages", false);
    let both = p.and(q);
    assert!(!both.is_granted());
    assert_eq!(both.get_name(), "CanManageChat and CanPinMessages");
    let r = NamedPermission::new("Sudo", true).and(NamedPermission::new("Support", true));
    assert!(r.is_granted());
}

#[test]
fn named_permissions_round_trip_their_flags() {
    let flags = BotPermissions {
        can_manage_chat: true,
        can_restrict_members: false,
        can_delete_messages: true,
        can_change_info: false,
        can_promote_members: true,
        can_pin_messages: false,
    };
    let named = NamedBotPermissions::from_flags(flags);
    assert_eq!(named.can_manage_chat.get_name(), "CanManageChat");
    assert!(named.can_manage_chat.is_granted());
    assert!(!named.can_restrict_members.is_granted());
    assert!(!named.is_sudo.is_granted());
    let back = BotPermissions::from_named(&named);
    assert_eq!(back, flags);
}

#[test]
fn module_text_renders_name_description_and_commands() {
    let coll = MetadataCollection {
        helps: vec![],
        modules: vec![Metadata {
            name: "Warns".to_owned(),
            description: "Keep your users in line".to_owned(),
            commands: vec![
                ("warn".to_owned(), "Warns a user".to_owned()),
                ("warns".to_owned(), "Get warn count".to_owned()),
            ],
        }],
    };
    assert_eq!(
        coll.get_module_text("Warns"),
        "[*Warns]:\nKeep your users in line\n\nCommands:\n/warn: Warns a user\n/warns: Get warn count",
    );
    assert_eq!(coll.get_module_text("Missing"), "invalid");
}
