//! Scenario tests: resolution results, entity placement, template
//! fillings, the Markdown path, and the error cases.

use murkdown::builder::MarkupBuilder;
use murkdown::entities::{EntityKind, MessageContext, TgChat, TgUser};
use murkdown::lexer::tokenize;
use murkdown::parser::parse;

#[test]
fn plain_text_resolves_verbatim() {
    let b = MarkupBuilder::from_murkdown("thing").unwrap();
    let (text, entities) = b.build();
    assert_eq!(text, "thing");
    assert_eq!(entities.len(), 0);
}

#[test]
fn markerless_text_with_escape_resolves_stripped() {
    let b = MarkupBuilder::from_murkdown("a\\bc").unwrap();
    let (text, entities) = b.build();
    assert_eq!(text, "abc");
    assert_eq!(entities.len(), 0);
}

#[test]
fn bold_word_resolves_with_one_entity() {
    let b = MarkupBuilder::from_murkdown("[*bold]").unwrap();
    let (text, entities) = b.build();
    assert_eq!(text, "bold");
    assert_eq!(entities.len(), 1);
    assert_eq!(entities[0].kind, EntityKind::Bold);
    assert_eq!(entities[0].offset, 0);
    assert_eq!(entities[0].length, 4);
}

#[test]
fn escaped_bracket_resolves_literally() {
    let b = MarkupBuilder::from_murkdown("\\[ thing").unwrap();
    let (text, entities) = b.build();
    assert_eq!(text, "[ thing");
    assert_eq!(entities.len(), 0);
}

#[test]
fn nested_same_kind_markers_parse() {
    let tokens = tokenize("[*[*bold] [*bold]]");
    assert!(parse(&tokens).is_ok());
}

#[test]
fn unterminated_bracket_is_a_parse_error() {
    let tokens = tokenize("[*unterminated");
    assert!(parse(&tokens).is_err());
    assert!(MarkupBuilder::from_murkdown("[*unterminated").is_err());
}

#[test]
fn unknown_filling_without_context_is_literal() {
    let b = MarkupBuilder::from_murkdown("{name}").unwrap();
    let (text, entities) = b.build();
    assert_eq!(text, "{name}");
    assert_eq!(entities.len(), 0);
}

#[test]
fn markdown_path_bold_and_link_give_two_entities() {
    let b = MarkupBuilder::from_markdown("**bold** [link](http://example.com)");
    let (_, entities) = b.build();
    assert_eq!(entities.len(), 2);
    let bolds = entities
        .iter()
        .filter(|e| matches!(e.kind, EntityKind::Bold))
        .count();
    let links = entities
        .iter()
        .filter(|e| matches!(e.kind, EntityKind::TextLink(_)))
        .count();
    assert_eq!(bolds, 1);
    assert_eq!(links, 1);
}

#[test]
fn try_from_markdown_accepts_ordinary_sources() {
    let b = murkdown::builder::MarkupBuilder::try_from_markdown("plain text").unwrap();
    let (text, entities) = b.build();
    assert_eq!(text, "plain text");
    assert_eq!(entities.len(), 0);
}

fn context_with_sender() -> MessageContext {
    MessageContext {
        sender: Some(TgUser {
            id: 42,
            first_name: "Ada".to_owned(),
            last_name: Some("Lovelace".to_owned()),
            username: Some("ada".to_owned()),
            is_bot: false,
        }),
        chat: TgChat {
            id: -100,
            name: "engine room".to_owned(),
        },
    }
}

#[test]
fn first_filling_reads_the_sender() {
    let ctx = context_with_sender();
    let b = MarkupBuilder::from_murkdown_message("hi {first}", &ctx).unwrap();
    let (text, entities) = b.build();
    assert_eq!(text, "hi Ada");
    assert_eq!(entities.len(), 0);
}

#[test]
fn username_filling_emits_a_mention() {
    let ctx = context_with_sender();
    let b = MarkupBuilder::from_murkdown_message("{username}", &ctx).unwrap();
    let (text, entities) = b.build();
    assert_eq!(text, "@ada");
    assert_eq!(entities.len(), 1);
    assert_eq!(entities[0].offset, 0);
    assert_eq!(entities[0].length, 4);
    match &entities[0].kind {
        EntityKind::TextMention(u) => assert_eq!(u.id, 42),
        k => panic!("unexpected kind {:?}", k),
    }
}

#[test]
fn id_filling_renders_the_sender_id() {
    let ctx = context_with_sender();
    let b = MarkupBuilder::from_murkdown_message("{id}", &ctx).unwrap();
    let (text, entities) = b.build();
    assert_eq!(text, "42");
    assert_eq!(entities.len(), 0);
}

#[test]
fn chatname_filling_renders_the_chat_name() {
    let ctx = context_with_sender();
    let b = MarkupBuilder::from_murkdown_message("{chatname}", &ctx).unwrap();
    let (text, _) = b.build();
    assert_eq!(text, "engine room");
}

#[test]
fn sender_fillings_without_sender_emit_nothing() {
    let ctx = MessageContext {
        sender: None,
        chat: TgChat {
            id: 7,
            name: "quiet".to_owned(),
        },
    };
    let b = MarkupBuilder::from_murkdown_message("a{first}b", &ctx).unwrap();
    let (text, entities) = b.build();
    assert_eq!(text, "ab");
    assert_eq!(entities.len(), 0);
}

#[test]
fn unknown_filling_with_context_is_literal() {
    let ctx = context_with_sender();
    let b = MarkupBuilder::from_murkdown_message("{nope}", &ctx).unwrap();
    let (text, entities) = b.build();
    assert_eq!(text, "{nope}");
    assert_eq!(entities.len(), 0);
}

#[test]
fn code_span_resolves_with_code_entity() {
    let b = MarkupBuilder::from_murkdown("[`print]").unwrap();
    let (text, entities) = b.build();
    assert_eq!(text, "print");
    assert_eq!(entities.len(), 1);
    assert_eq!(entities[0].kind, EntityKind::Code);
    assert_eq!(entities[0].offset, 0);
    assert_eq!(entities[0].length, 5);
}

#[test]
fn link_resolves_with_text_link_entity() {
    let b = MarkupBuilder::from_murkdown("[click](http://example.com)").unwrap();
    let (text, entities) = b.build();
    assert_eq!(text, "click");
    assert_eq!(entities.len(), 1);
    assert_eq!(entities[0].offset, 0);
    assert_eq!(entities[0].length, 5);
    match &entities[0].kind {
        EntityKind::TextLink(url) => assert_eq!(url, "http://example.com"),
        k => panic!("unexpected kind {:?}", k),
    }
}

#[test]
fn surrogate_pair_characters_count_two_units() {
    let b = MarkupBuilder::from_murkdown("[*\u{1F600}] after").unwrap();
    let (text, entities) = b.build();
    assert_eq!(text, "\u{1F600} after");
    assert_eq!(entities.len(), 1);
    assert_eq!(entities[0].kind, EntityKind::Bold);
    assert_eq!(entities[0].offset, 0);
    assert_eq!(entities[0].length, 2);
}

#[test]
fn empty_filling_is_a_parse_error() {
    assert!(MarkupBuilder::from_murkdown("{}").is_err());
}

#[test]
fn empty_strikethrough_is_a_parse_error() {
    assert!(MarkupBuilder::from_murkdown("[~]").is_err());
}

#[test]
fn lone_marker_is_a_parse_error() {
    assert!(MarkupBuilder::from_murkdown("bro*").is_err());
}

#[test]
fn lone_bar_is_skipped() {
    let b = MarkupBuilder::from_murkdown("a|b").unwrap();
    let (text, entities) = b.build();
    assert_eq!(text, "ab");
    assert_eq!(entities.len(), 0);
}

#[test]
fn parse_error_reports_its_message() {
    let err = match MarkupBuilder::from_murkdown("[*oops") {
        Err(e) => e,
        Ok(_) => panic!("expected a parse error"),
    };
    assert_eq!(err.message(), "default parse error");
    let other: murkdown::parser::DefaultParseErr = Default::default();
    assert_eq!(err, other);
}

#[test]
fn nested_spans_emit_children_before_wrapper() {
    let b = MarkupBuilder::from_murkdown("[a[*b]c](http://u)").unwrap();
    let (text, entities) = b.build();
    assert_eq!(text, "abc");
    assert_eq!(entities.len(), 2);
    assert_eq!(entities[0].kind, EntityKind::Bold);
    assert_eq!(entities[0].offset, 1);
    assert_eq!(entities[0].length, 1);
    assert_eq!(entities[1].offset, 0);
    assert_eq!(entities[1].length, 3);
    assert!(matches!(&entities[1].kind, EntityKind::TextLink(u) if u == "http://u"));
}

#[test]
fn italic_underline_spoiler_and_strikethrough_words() {
    let cases = [
        ("[_it]", "it", EntityKind::Italic),
        ("[__un]", "un", EntityKind::Underline),
        ("[||sp]", "sp", EntityKind::Spoiler),
        ("[~st]", "st", EntityKind::Strikethrough),
    ];
    for (src, expect, kind) in cases {
        let b = MarkupBuilder::from_murkdown(src).unwrap();
        let (text, entities) = b.build();
        assert_eq!(text, expect);
        assert_eq!(entities.len(), 1);
        assert_eq!(entities[0].kind, kind);
        assert_eq!(entities[0].offset, 0);
        assert_eq!(entities[0].length, 2);
    }
}

#[test]
fn stray_double_bar_is_a_parse_error() {
    assert!(MarkupBuilder::from_murkdown("a||b").is_err());
}

#[test]
fn bracketed_text_without_url_is_a_parse_error() {
    assert!(MarkupBuilder::from_murkdown("[just brackets]").is_err());
}

#[test]
fn tokenizer_rejected_sources_return_none() {
    assert!(MarkupBuilder::try_from_markdown("- ").is_none());
    assert!(MarkupBuilder::try_from_markdown("* ").is_none());
    assert!(MarkupBuilder::try_from_markdown("1. ").is_none());
    assert!(MarkupBuilder::try_from_markdown("text\n- \nmore").is_none());
    assert!(MarkupBuilder::try_from_markdown("\u{1F600}```").is_none());
    assert!(MarkupBuilder::try_from_markdown("start\nab\u{20AC}``` fence").is_none());
}

#[test]
fn accepted_markdown_lists_and_fences_resolve() {
    let b = MarkupBuilder::try_from_markdown("- one\n- two").unwrap();
    let (text, _) = b.build();
    assert_eq!(text, "onetwo");

    let b = MarkupBuilder::try_from_markdown("```\nlet x;\n```").unwrap();
    let (text, entities) = b.build();
    assert_eq!(text, "let x;");
    assert_eq!(entities.len(), 1);
    assert_eq!(entities[0].kind, EntityKind::Code);

    let b = MarkupBuilder::try_from_markdown("emoji \u{1F600} text, fence elsewhere\n```\nc\n```")
        .unwrap();
    let (text, _) = b.build();
    assert!(text.contains('\u{1F600}'));
}
