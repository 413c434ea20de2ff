//! The lexer: turns source text into the token stream the parser consumes.
//! After the end of input it answers with `Eof` tokens indefinitely.

use vstd::prelude::*;
use vstd::string::*;

use crate::token::{Token, TokenKind};

verus! {

/// True of the characters that may start or continue an identifier.
pub open spec fn spec_is_letter(c: char) -> bool {
    (97 <= c as int <= 122) || (65 <= c as int <= 90) || c as int == 95
}

/// True of decimal digit characters.
pub open spec fn spec_is_digit(c: char) -> bool {
    48 <= c as int <= 57
}

/// True of the whitespace the lexer skips: space, tab, newline, carriage
/// return.
pub open spec fn spec_is_ws(c: char) -> bool {
    c as int == 32 || c as int == 9 || c as int == 10 || c as int == 13
}

fn is_letter(c: char) -> (r: bool)
    ensures
        r == spec_is_letter(c),
{
    let v = c as u32;
    (97 <= v && v <= 122) || (65 <= v && v <= 90) || v == 95
}

fn is_digit(c: char) -> (r: bool)
    ensures
        r == spec_is_digit(c),
{
    let v = c as u32;
    48 <= v && v <= 57
}

fn is_ws(c: char) -> (r: bool)
    ensures
        r == spec_is_ws(c),
{
    let v = c as u32;
    v == 32 || v == 9 || v == 10 || v == 13
}

/// The keyword kind of an identifier lexeme, `Ident` when it is none.
pub open spec fn spec_keyword_kind(s: Seq<char>) -> TokenKind {
    if s == "fn"@ {
        TokenKind::Function
    } else if s == "let"@ {
        TokenKind::Let
    } else if s == "true"@ {
        TokenKind::True
    } else if s == "false"@ {
        TokenKind::False
    } else if s == "if"@ {
        TokenKind::If
    } else if s == "else"@ {
        TokenKind::Else
    } else if s == "return"@ {
        TokenKind::Return
    } else {
        TokenKind::Ident
    }
}

fn keyword_kind(s: &String) -> (r: TokenKind)
    ensures
        r == spec_keyword_kind(s@),
{
    if s.eq(&String::from_str("fn")) {
        TokenKind::Function
    } else if s.eq(&String::from_str("let")) {
        TokenKind::Let
    } else if s.eq(&String::from_str("true")) {
        TokenKind::True
    } else if s.eq(&String::from_str("false")) {
        TokenKind::False
    } else if s.eq(&String::from_str("if")) {
        TokenKind::If
    } else if s.eq(&String::from_str("else")) {
        TokenKind::Else
    } else if s.eq(&String::from_str("return")) {
        TokenKind::Return
    } else {
        TokenKind::Ident
    }
}

/// A lexer over source text: the text and a cursor, counted in characters.
pub struct Lexer {
    input: String,
    pos: usize,
}

impl Lexer {
    /// The cursor never passes the end of the text.
    pub closed spec fn wf(&self) -> bool {
        self.pos <= self.input@.len()
    }

    /// The source text this lexer reads.
    pub closed spec fn spec_input(&self) -> Seq<char> {
        self.input@
    }

    /// The cursor position, in characters.
    pub closed spec fn spec_pos(&self) -> int {
        self.pos as int
    }

    /// A lexer at the start of the given source text.
    pub fn new(input: String) -> (r: Lexer)
        ensures
            r.wf(),
            r.spec_input() == input@,
            r.spec_pos() == 0,
    {
        Lexer { input, pos: 0 }
    }

    /// Reads the next token. Whitespace is skipped; identifiers, keywords,
    /// integer literals, string literals and the punctuation of the language
    /// are recognised; any other character yields an `Illegal` token. At the
    /// end of the text every call yields `Eof`, so the cursor advances
    /// exactly when the token is not `Eof`.
    pub fn next_token(&mut self) -> (t: Token)
        requires
            old(self).wf(),
        ensures
            final(self).wf(),
            final(self).spec_pos() <= final(self).spec_input().len(),
            final(self).spec_input() == old(self).spec_input(),
            final(self).spec_pos() >= old(self).spec_pos(),
            t.kind != TokenKind::Eof ==> final(self).spec_pos() > old(self).spec_pos(),
            t.kind == TokenKind::Eof ==> final(self).spec_pos() == final(self).spec_input().len(),
    {
        let n = self.input.as_str().unicode_len();
        while self.pos < n && is_ws(self.input.as_str().get_char(self.pos))
            invariant
                self.wf(),
                n == self.input@.len(),
                self.input@ == old(self).input@,
                self.pos >= old(self).pos,
            decreases n - self.pos,
        {
            self.pos = self.pos + 1;
        }
        if self.pos >= n {
            self.pos = n;
            return Token { kind: TokenKind::Eof, literal: String::new() };
        }
        let c = self.input.as_str().get_char(self.pos);
        if is_letter(c) {
            let start = self.pos;
            while self.pos < n && is_letter(self.input.as_str().get_char(self.pos))
                invariant
                    self.wf(),
                    n == self.input@.len(),
                    self.input@ == old(self).input@,
                    start <= self.pos,
                decreases n - self.pos,
            {
                self.pos = self.pos + 1;
            }
            let literal = String::from_str(self.input.as_str().substring_char(start, self.pos));
            let kind = keyword_kind(&literal);
            return Token { kind, literal };
        }
        if is_digit(c) {
            let start = self.pos;
            while self.pos < n && is_digit(self.input.as_str().get_char(self.pos))
                invariant
                    self.wf(),
                    n == self.input@.len(),
                    self.input@ == old(self).input@,
                    start <= self.pos,
                decreases n - self.pos,
            {
                self.pos = self.pos + 1;
            }
            let literal = String::from_str(self.input.as_str().substring_char(start, self.pos));
            return Token { kind: TokenKind::Int, literal };
        }
        let cv = c as u32;
        if cv == 34 {
            // A string literal: everything up to the closing quote.
            self.pos = self.pos + 1;
            let start = self.pos;
            while self.pos < n && self.input.as_str().get_char(self.pos) as u32 != 34
                invariant
                    self.wf(),
                    n == self.input@.len(),
                    self.input@ == old(self).input@,
                    start <= self.pos,
                decreases n - self.pos,
            {
                self.pos = self.pos + 1;
            }
            let literal = String::from_str(self.input.as_str().substring_char(start, self.pos));
            if self.pos < n {
                self.pos = self.pos + 1;
                return Token { kind: TokenKind::Str, literal };
            } else {
                // The text ended before a closing quote.
                return Token { kind: TokenKind::Illegal, literal };
            }
        }
        if cv == 61 {
            // `=` or `==`
            if self.pos + 1 < n && self.input.as_str().get_char(self.pos + 1) as u32 == 61 {
                self.pos = self.pos + 2;
                return Token { kind: TokenKind::EqEq, literal: String::from_str("==") };
            } else {
                self.pos = self.pos + 1;
                return Token { kind: TokenKind::Assign, literal: String::from_str("=") };
            }
        }
        if cv == 33 {
            // `!` or `!=`
            if self.pos + 1 < n && self.input.as_str().get_char(self.pos + 1) as u32 == 61 {
                self.pos = self.pos + 2;
                return Token { kind: TokenKind::NotEq, literal: String::from_str("!=") };
            } else {
                self.pos = self.pos + 1;
                return Token { kind: TokenKind::Bang, literal: String::from_str("!") };
            }
        }
        let single = self.input.as_str().substring_char(self.pos, self.pos + 1);
        self.pos = self.pos + 1;
        let kind = if cv == 43 {
            TokenKind::Plus
        } else if cv == 45 {
            TokenKind::Minus
        } else if cv == 42 {
            TokenKind::Asterisk
        } else if cv == 47 {
            TokenKind::Slash
        } else if cv == 60 {
            TokenKind::Lt
        } else if cv == 62 {
            TokenKind::Gt
        } else if cv == 44 {
            TokenKind::Comma
        } else if cv == 59 {
            TokenKind::Semicolon
        } else if cv == 40 {
            TokenKind::LParen
        } else if cv == 41 {
            TokenKind::RParen
        } else if cv == 123 {
            TokenKind::LBrace
        } else if cv == 125 {
            TokenKind::RBrace
        } else if cv == 91 {
            TokenKind::LBracket
        } else if cv == 93 {
            TokenKind::RBracket
        } else {
            TokenKind::Illegal
        };
        Token { kind, literal: String::from_str(single) }
    }
}

} // verus!
