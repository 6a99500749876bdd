//! The murkdown lexer, parser and resolver on representative sources.

use murkdown::builder::MarkupBuilder;
use murkdown::lexer::{tokenize, Lexer, Token};
use murkdown::parser::parse;
use murkdown::span::TgSpan;

const MARKDOWN_TEST: &str = "what
        [*bold]
        thing
        [coinscam](http://coinscam.org)
        ";

const MARKDOWN_SIMPLE: &str = "[*bold]";

const NESTED_BOLD: &str = "[*[*bold] [*bold]]";
const EMPTY: &str = "";

const RAW: &str = "thing";

const ESCAPE: &str = "\\[ thing";

fn test_parse(markdown: &str) -> Vec<TgSpan> {
    let tokens = tokenize(markdown);
    parse(&tokens).unwrap()
}

#[test]
fn tokenize_test() {
    let mut tokenizer = Lexer::new(MARKDOWN_SIMPLE);
    if let Some(Token::LSBracket) = tokenizer.next_token() {
    } else {
        panic!("got invalid token");
    }

    if let Some(Token::Star) = tokenizer.next_token() {
    } else {
        panic!("got invalid token");
    }

    for c in ['b', 'o', 'l', 'd'] {
        if let Some(Token::RawChar(s)) = tokenizer.next_token() {
            assert_eq!(s, c);
        } else {
            panic!("got invalid token");
        }
    }

    if let Some(Token::RSBracket) = tokenizer.next_token() {
    } else {
        panic!("got invalid token");
    }

    if let Some(_) = tokenizer.next_token() {
        assert!(false);
    }
}

#[test]
fn parse_simple() {
    test_parse(MARKDOWN_SIMPLE);
}

#[test]
fn parse_empty() {
    test_parse(EMPTY);
}

#[test]
fn parse_nested() {
    test_parse(EMPTY);
}

#[test]
fn parse_multi() {
    let tokens = test_parse(MARKDOWN_TEST);
    let mut counter = 0;
    for token in tokens {
        if let TgSpan::Raw(raw) = token {
            println!("RAW {}", raw);
            counter += 1;
        }
    }
    assert_eq!(counter, 3);
}

#[test]
fn raw_test() {
    if let Some(TgSpan::Raw(res)) = test_parse(RAW).get(0) {
        assert_eq!(res, RAW);
    } else {
        panic!("failed to parse");
    }
}

#[test]
fn nested_bold() {
    test_parse(NESTED_BOLD);
}

#[test]
fn escape() {
    if let Some(TgSpan::Raw(res)) = test_parse(ESCAPE).get(0) {
        assert_eq!(res, ESCAPE.replace("\\", "").as_str());
    } else {
        panic!("failed to parse");
    }
}

#[test]
fn markup_builder() {
    let p = test_parse(MARKDOWN_TEST);
    let mut b = MarkupBuilder::new();
    b.parse_tgspan(p, None);
    let (text, entities) = b.build();
    assert_eq!(entities.len(), 2);
    println!("{}", text);
}
