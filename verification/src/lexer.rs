//! The murkdown lexer: turns source text into a stream of tokens, one per
//! call. Every input character maps to some token, so lexing never fails.

use vstd::prelude::*;
use crate::text::str_chars;

verus! {

/// One lexical token of murkdown source.
#[derive(Debug, Clone, Copy, PartialEq, Eq)]
pub enum Token {
    /// A literal character, either ordinary or produced by an escape.
    RawChar(char),
    Underscore,
    DoubleUnderscore,
    DoubleBar,
    Tilde,
    Tick,
    Star,
    LSBracket,
    RSBracket,
    LParen,
    RParen,
    LCurly,
    RCurly,
}

/// The token for a single character that is not part of an escape or a
/// two-character marker.
pub open spec fn single_token(c: char) -> Token {
    if c == '~' {
        Token::Tilde
    } else if c == '`' {
        Token::Tick
    } else if c == '*' {
        Token::Star
    } else if c == '[' {
        Token::LSBracket
    } else if c == ']' {
        Token::RSBracket
    } else if c == '(' {
        Token::LParen
    } else if c == ')' {
        Token::RParen
    } else if c == '{' {
        Token::LCurly
    } else if c == '}' {
        Token::RCurly
    } else {
        Token::RawChar(c)
    }
}

/// The literal-character token for a character.
pub open spec fn raw_token(c: char) -> Token {
    Token::RawChar(c)
}

/// The token stream of a source text. A backslash makes the following
/// character a literal (a trailing backslash is dropped), a doubled
/// underscore or bar forms one two-character marker, a lone bar is skipped,
/// and every other character maps to exactly one token.
pub open spec fn lex(s: Seq<char>) -> Seq<Token>
    decreases s.len(),
{
    if s.len() == 0 {
        Seq::empty()
    } else if s[0] == '\\' && s.len() >= 2 {
        seq![raw_token(s[1])] + lex(s.skip(2))
    } else if s[0] == '\\' {
        Seq::empty()
    } else if s[0] == '_' {
        if s.len() >= 2 && s[1] == '_' {
            seq![Token::DoubleUnderscore] + lex(s.skip(2))
        } else {
            seq![Token::Underscore] + lex(s.skip(1))
        }
    } else if s[0] == '|' {
        if s.len() >= 2 && s[1] == '|' {
            seq![Token::DoubleBar] + lex(s.skip(2))
        } else {
            lex(s.skip(1))
        }
    } else {
        seq![single_token(s[0])] + lex(s.skip(1))
    }
}

/// Pull-based lexer over a source string.
pub struct Lexer {
    chars: Vec<char>,
    pos: usize,
}

impl Lexer {
    /// The characters of the source this lexer was built from.
    pub closed spec fn src(self) -> Seq<char> {
        self.chars@
    }

    /// The current position within the source.
    pub closed spec fn at(self) -> int {
        self.pos as int
    }

    /// The lexer position never passes the end of the source.
    pub closed spec fn wf(self) -> bool {
        self.pos <= self.chars@.len()
    }

    /// The tokens not yet produced.
    pub open spec fn remaining(self) -> Seq<Token> {
        lex(self.src().skip(self.at()))
    }

    /// A lexer at the start of the given source.
    pub fn new(input: &str) -> (lx: Lexer)
        ensures
            lx.wf(),
            lx.src() == input@,
            lx.at() == 0,
    {
        Lexer { chars: str_chars(input), pos: 0 }
    }

    /// The next token, or `None` at the end of the input. Produces exactly
    /// the stream that `lex` describes.
    pub fn next_token(&mut self) -> (r: Option<Token>)
        requires
            old(self).wf(),
        ensures
            final(self).wf(),
            final(self).src() == old(self).src(),
            old(self).at() <= final(self).at(),
            match r {
                None => {
                    &&& old(self).remaining() == Seq::<Token>::empty()
                    &&& final(self).at() == final(self).src().len()
                },
                Some(t) => {
                    &&& old(self).remaining() == seq![t] + final(self).remaining()
                    &&& old(self).at() < final(self).at()
                },
            },
        decreases old(self).src().len() - old(self).at(),
    {
        let ghost rem = self.src().skip(self.at());
        if self.pos >= self.chars.len() {
            return None;
        }
        let c = self.chars[self.pos];
        self.pos = self.pos + 1;
        proof {
            assert(rem[0] == c);
            assert(rem.skip(1) =~= self.src().skip(self.at()));
        }
        match c {
            '\\' => {
                if self.pos < self.chars.len() {
                    let c2 = self.chars[self.pos];
                    self.pos = self.pos + 1;
                    proof {
                        assert(rem[1] == c2);
                        assert(rem.skip(2) =~= self.src().skip(self.at()));
                        assert(lex(rem) == seq![raw_token(rem[1])] + lex(rem.skip(2)));
                    }
                    Some(Token::RawChar(c2))
                } else {
                    proof {
                        assert(rem.len() == 1);
                        assert(lex(rem) == Seq::<Token>::empty());
                    }
                    None
                }
            },
            '_' => {
                if self.pos < self.chars.len() && self.chars[self.pos] == '_' {
                    self.pos = self.pos + 1;
                    proof {
                        assert(rem[1] == '_');
                        assert(rem.skip(2) =~= self.src().skip(self.at()));
                    }
                    Some(Token::DoubleUnderscore)
                } else {
                    Some(Token::Underscore)
                }
            },
            '|' => {
                if self.pos < self.chars.len() && self.chars[self.pos] == '|' {
                    self.pos = self.pos + 1;
                    proof {
                        assert(rem[1] == '|');
                        assert(rem.skip(2) =~= self.src().skip(self.at()));
                    }
                    Some(Token::DoubleBar)
                } else {
                    self.next_token()
                }
            },
            _ => Some(single_token_exec(c)),
        }
    }
}

/// Executable counterpart of `single_token`.
fn single_token_exec(c: char) -> (t: Token)
    ensures
        t == single_token(c),
{
    match c {
        '~' => Token::Tilde,
        '`' => Token::Tick,
        '*' => Token::Star,
        '[' => Token::LSBracket,
        ']' => Token::RSBracket,
        '(' => Token::LParen,
        ')' => Token::RParen,
        '{' => Token::LCurly,
        '}' => Token::RCurly,
        _ => Token::RawChar(c),
    }
}

/// The whole token stream of a source string.
pub fn tokenize(input: &str) -> (v: Vec<Token>)
    ensures
        v@ == lex(input@),
{
    let mut lx = Lexer::new(input);
    let mut v: Vec<Token> = Vec::new();
    proof {
        assert(input@.skip(0) =~= input@);
        assert(v@ + lx.remaining() =~= lx.remaining());
    }
    loop
        invariant
            lx.wf(),
            lx.src() == input@,
            lex(input@) == v@ + lx.remaining(),
        ensures
            v@ == lex(input@),
        decreases lx.src().len() - lx.at(),
    {
        match lx.next_token() {
            Some(t) => {
                v.push(t);
                proof {
                    assert(lex(input@) =~= v@ + lx.remaining());
                }
            },
            None => {
                proof {
                    assert(lex(input@) =~= v@);
                }
                break;
            },
        }
    }
    v
}

} // verus!

