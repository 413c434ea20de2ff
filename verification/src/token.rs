//! Lexical tokens: the closed set of token kinds, the token record handed
//! from the lexer to the parser, and the operator-precedence table.

use vstd::prelude::*;

verus! {

/// The closed set of token kinds of the language.
#[derive(Clone, Copy, PartialEq, Eq, Structural, Debug)]
pub enum TokenKind {
    Ident,
    Int,
    Str,
    Assign,
    Plus,
    Minus,
    Bang,
    Asterisk,
    Slash,
    Lt,
    Gt,
    EqEq,
    NotEq,
    Comma,
    Semicolon,
    LParen,
    RParen,
    LBrace,
    RBrace,
    LBracket,
    RBracket,
    Function,
    Let,
    True,
    False,
    If,
    Else,
    Return,
    Eof,
    Illegal,
}

/// A token: a kind tag plus the lexeme it was read from.
pub struct Token {
    pub kind: TokenKind,
    pub literal: String,
}

/// Mathematical image of a token: the kind and the lexeme as a character
/// sequence.
pub struct TokenV {
    pub kind: TokenKind,
    pub literal: Seq<char>,
}

impl View for Token {
    type V = TokenV;

    open spec fn view(&self) -> TokenV {
        TokenV { kind: self.kind, literal: self.literal@ }
    }
}

impl Clone for Token {
    fn clone(&self) -> (r: Self)
        ensures
            r@ == self@,
    {
        Token { kind: self.kind, literal: self.literal.clone() }
    }
}

/// The stable string identifier of a token kind, used in diagnostics.
pub open spec fn spec_kind_name(k: TokenKind) -> Seq<char> {
    match k {
        TokenKind::Ident => "IDENT"@,
        TokenKind::Int => "INT"@,
        TokenKind::Str => "STRING"@,
        TokenKind::Assign => "="@,
        TokenKind::Plus => "+"@,
        TokenKind::Minus => "-"@,
        TokenKind::Bang => "!"@,
        TokenKind::Asterisk => "*"@,
        TokenKind::Slash => "/"@,
        TokenKind::Lt => "<"@,
        TokenKind::Gt => ">"@,
        TokenKind::EqEq => "=="@,
        TokenKind::NotEq => "!="@,
        TokenKind::Comma => "COMMA"@,
        TokenKind::Semicolon => "SEMICOLON"@,
        TokenKind::LParen => "LPAREN"@,
        TokenKind::RParen => "RPAREN"@,
        TokenKind::LBrace => "LBRACE"@,
        TokenKind::RBrace => "RBRACE"@,
        TokenKind::LBracket => "LBRACKET"@,
        TokenKind::RBracket => "RBRACKET"@,
        TokenKind::Function => "FUNCTION"@,
        TokenKind::Let => "LET"@,
        TokenKind::True => "TRUE"@,
        TokenKind::False => "FALSE"@,
        TokenKind::If => "IF"@,
        TokenKind::Else => "ELSE"@,
        TokenKind::Return => "RETURN"@,
        TokenKind::Eof => "EOF"@,
        TokenKind::Illegal => "ILLEGAL"@,
    }
}

/// The stable string identifier of a token kind, used in diagnostics.
pub fn kind_name(k: TokenKind) -> (r: &'static str)
    ensures
        r@ == spec_kind_name(k),
{
    match k {
        TokenKind::Ident => "IDENT",
        TokenKind::Int => "INT",
        TokenKind::Str => "STRING",
        TokenKind::Assign => "=",
        TokenKind::Plus => "+",
        TokenKind::Minus => "-",
        TokenKind::Bang => "!",
        TokenKind::Asterisk => "*",
        TokenKind::Slash => "/",
        TokenKind::Lt => "<",
        TokenKind::Gt => ">",
        TokenKind::EqEq => "==",
        TokenKind::NotEq => "!=",
        TokenKind::Comma => "COMMA",
        TokenKind::Semicolon => "SEMICOLON",
        TokenKind::LParen => "LPAREN",
        TokenKind::RParen => "RPAREN",
        TokenKind::LBrace => "LBRACE",
        TokenKind::RBrace => "RBRACE",
        TokenKind::LBracket => "LBRACKET",
        TokenKind::RBracket => "RBRACKET",
        TokenKind::Function => "FUNCTION",
        TokenKind::Let => "LET",
        TokenKind::True => "TRUE",
        TokenKind::False => "FALSE",
        TokenKind::If => "IF",
        TokenKind::Else => "ELSE",
        TokenKind::Return => "RETURN",
        TokenKind::Eof => "EOF",
        TokenKind::Illegal => "ILLEGAL",
    }
}

/// Lowest binding power; every unregistered token kind sits here.
pub const LOWEST: u8 = 0;

/// Binding power of `==` and `!=`.
pub const EQUALS: u8 = 1;

/// Binding power of `<` and `>`.
pub const LESSGREATER: u8 = 2;

/// Binding power of `+` and binary `-`.
pub const SUM: u8 = 3;

/// Binding power of `*` and `/`.
pub const PRODUCT: u8 = 4;

/// Binding power of prefix `!` and unary `-`.
pub const PREFIX: u8 = 5;

/// Binding power of a call's `(`.
pub const CALL: u8 = 6;

/// Binding power of an index's `[`.
pub const INDEX: u8 = 7;

/// The fixed precedence table: the binding power of each token kind in
/// infix position, `LOWEST` when the kind is unmapped.
pub open spec fn spec_precedence(k: TokenKind) -> u8 {
    match k {
        TokenKind::EqEq => EQUALS,
        TokenKind::NotEq => EQUALS,
        TokenKind::Lt => LESSGREATER,
        TokenKind::Gt => LESSGREATER,
        TokenKind::Plus => SUM,
        TokenKind::Minus => SUM,
        TokenKind::Slash => PRODUCT,
        TokenKind::Asterisk => PRODUCT,
        TokenKind::LParen => CALL,
        TokenKind::LBracket => INDEX,
        _ => LOWEST,
    }
}

/// Looks a token kind up in the fixed precedence table.
pub fn precedence_by_token_type(k: TokenKind) -> (r: u8)
    ensures
        r == spec_precedence(k),
{
    match k {
        TokenKind::EqEq => EQUALS,
        TokenKind::NotEq => EQUALS,
        TokenKind::Lt => LESSGREATER,
        TokenKind::Gt => LESSGREATER,
        TokenKind::Plus => SUM,
        TokenKind::Minus => SUM,
        TokenKind::Slash => PRODUCT,
        TokenKind::Asterisk => PRODUCT,
        TokenKind::LParen => CALL,
        TokenKind::LBracket => INDEX,
        _ => LOWEST,
    }
}

} // verus!
