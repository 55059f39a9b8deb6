//! The token model: the closed set of lexical categories produced by the
//! lexer, and the position-annotated wrapper around them.
//!
//! A float literal is carried as its source text (digits, one dot, digits):
//! the numeric value is left to consumers of the token stream, so that the
//! lexer itself stays within exact integer and character reasoning.

use vstd::prelude::*;

verus! {

/// One lexical unit. Literal and name variants carry their decoded value;
/// all other variants are bare markers.
#[derive(Debug)]
pub enum Token {
    // Literals
    Integer(i64),
    /// The source text of a float literal: digits, one `.`, digits.
    Float(String),
    StringLiteral(String),
    // Identifiers & keywords
    Variable(String),
    Identifier(String),
    // Keywords
    Echo,
    If,
    Else,
    Elseif,
    While,
    For,
    Function,
    Return,
    True,
    False,
    Null,
    // Operators
    Plus,
    Minus,
    Star,
    Slash,
    Percent,
    /// String concatenation `.`
    Dot,
    /// `=`
    Assign,
    /// `==`
    Equal,
    /// `===`
    Identical,
    /// `!=`
    NotEqual,
    /// `!==`
    NotIdentical,
    Less,
    LessEqual,
    Greater,
    GreaterEqual,
    /// `&&`
    And,
    /// `||`
    Or,
    /// `!`
    Not,
    // Delimiters
    OpenParen,
    CloseParen,
    OpenBrace,
    CloseBrace,
    OpenBracket,
    CloseBracket,
    Semicolon,
    Comma,
    /// `=>`
    Arrow,
    // Special
    /// The `<?php` tag
    OpenTag,
    Eof,
}

/// The mathematical value of a token: the same categories, with text as a
/// sequence of characters and integers unbounded.
pub enum TokenV {
    Integer(int),
    Float(Seq<char>),
    StringLiteral(Seq<char>),
    Variable(Seq<char>),
    Identifier(Seq<char>),
    Echo,
    If,
    Else,
    Elseif,
    While,
    For,
    Function,
    Return,
    True,
    False,
    Null,
    Plus,
    Minus,
    Star,
    Slash,
    Percent,
    Dot,
    Assign,
    Equal,
    Identical,
    NotEqual,
    NotIdentical,
    Less,
    LessEqual,
    Greater,
    GreaterEqual,
    And,
    Or,
    Not,
    OpenParen,
    CloseParen,
    OpenBrace,
    CloseBrace,
    OpenBracket,
    CloseBracket,
    Semicolon,
    Comma,
    Arrow,
    OpenTag,
    Eof,
}

impl View for Token {
    type V = TokenV;

    open spec fn view(&self) -> TokenV {
        match self {
            Token::Integer(n) => TokenV::Integer(*n as int),
            Token::Float(s) => TokenV::Float(s@),
            Token::StringLiteral(s) => TokenV::StringLiteral(s@),
            Token::Variable(s) => TokenV::Variable(s@),
            Token::Identifier(s) => TokenV::Identifier(s@),
            Token::Echo => TokenV::Echo,
            Token::If => TokenV::If,
            Token::Else => TokenV::Else,
            Token::Elseif => TokenV::Elseif,
            Token::While => TokenV::While,
            Token::For => TokenV::For,
            Token::Function => TokenV::Function,
            Token::Return => TokenV::Return,
            Token::True => TokenV::True,
            Token::False => TokenV::False,
            Token::Null => TokenV::Null,
            Token::Plus => TokenV::Plus,
            Token::Minus => TokenV::Minus,
            Token::Star => TokenV::Star,
            Token::Slash => TokenV::Slash,
            Token::Percent => TokenV::Percent,
            Token::Dot => TokenV::Dot,
            Token::Assign => TokenV::Assign,
            Token::Equal => TokenV::Equal,
            Token::Identical => TokenV::Identical,
            Token::NotEqual => TokenV::NotEqual,
            Token::NotIdentical => TokenV::NotIdentical,
            Token::Less => TokenV::Less,
            Token::LessEqual => TokenV::LessEqual,
            Token::Greater => TokenV::Greater,
            Token::GreaterEqual => TokenV::GreaterEqual,
            Token::And => TokenV::And,
            Token::Or => TokenV::Or,
            Token::Not => TokenV::Not,
            Token::OpenParen => TokenV::OpenParen,
            Token::CloseParen => TokenV::CloseParen,
            Token::OpenBrace => TokenV::OpenBrace,
            Token::CloseBrace => TokenV::CloseBrace,
            Token::OpenBracket => TokenV::OpenBracket,
            Token::CloseBracket => TokenV::CloseBracket,
            Token::Semicolon => TokenV::Semicolon,
            Token::Comma => TokenV::Comma,
            Token::Arrow => TokenV::Arrow,
            Token::OpenTag => TokenV::OpenTag,
            Token::Eof => TokenV::Eof,
        }
    }
}

/// A token together with the 1-based line and column of its first source
/// character; the position is diagnostic only and never read by the parser's
/// grammar decisions.
pub struct Spanned {
    pub token: Token,
    pub line: usize,
    pub col: usize,
}

/// The mathematical value of a [`Spanned`] token.
pub struct SpannedV {
    pub token: TokenV,
    pub line: int,
    pub col: int,
}

impl View for Spanned {
    type V = SpannedV;

    open spec fn view(&self) -> SpannedV {
        SpannedV { token: self.token@, line: self.line as int, col: self.col as int }
    }
}

/// The mathematical value of a sequence of spanned tokens, element by
/// element.
pub open spec fn view_spanneds(s: Seq<Spanned>) -> Seq<SpannedV>
    decreases s.len(),
{
    if s.len() == 0 {
        Seq::empty()
    } else {
        view_spanneds(s.drop_last()).push(s.last()@)
    }
}

/// Appending one spanned token appends its mathematical value.
pub proof fn lemma_view_spanneds_push(s: Seq<Spanned>, x: Spanned)
    ensures
        view_spanneds(s.push(x)) == view_spanneds(s).push(x@),
{
    assert(s.push(x).drop_last() =~= s);
    assert(s.push(x).last() == x);
}

/// The length of the mathematical value of a spanned-token sequence.
pub proof fn lemma_view_spanneds_len(s: Seq<Spanned>)
    ensures
        view_spanneds(s).len() == s.len(),
        forall|i: int| 0 <= i < s.len() ==> view_spanneds(s)[i] == #[trigger] s[i]@,
    decreases s.len(),
{
    if s.len() > 0 {
        lemma_view_spanneds_len(s.drop_last());
        assert forall|i: int| 0 <= i < s.len() implies view_spanneds(s)[i] == #[trigger] s[i]@ by {
            if i < s.len() - 1 {
                assert(s.drop_last()[i] == s[i]);
            }
        }
    }
}

/// Decides whether two tokens are the same category with the same carried
/// value, i.e. whether their mathematical values coincide.
#[verifier::rlimit(60)]
pub fn token_eq(a: &Token, b: &Token) -> (r: bool)
    ensures
        r == (a@ == b@),
{
    match (a, b) {
        (Token::Integer(x), Token::Integer(y)) => *x == *y,
        (Token::Float(x), Token::Float(y)) => (*x) == (*y),
        (Token::StringLiteral(x), Token::StringLiteral(y)) => (*x) == (*y),
        (Token::Variable(x), Token::Variable(y)) => (*x) == (*y),
        (Token::Identifier(x), Token::Identifier(y)) => (*x) == (*y),
        (Token::Echo, Token::Echo) => true,
        (Token::If, Token::If) => true,
        (Token::Else, Token::Else) => true,
        (Token::Elseif, Token::Elseif) => true,
        (Token::While, Token::While) => true,
        (Token::For, Token::For) => true,
        (Token::Function, Token::Function) => true,
        (Token::Return, Token::Return) => true,
        (Token::True, Token::True) => true,
        (Token::False, Token::False) => true,
        (Token::Null, Token::Null) => true,
        (Token::Plus, Token::Plus) => true,
        (Token::Minus, Token::Minus) => true,
        (Token::Star, Token::Star) => true,
        (Token::Slash, Token::Slash) => true,
        (Token::Percent, Token::Percent) => true,
        (Token::Dot, Token::Dot) => true,
        (Token::Assign, Token::Assign) => true,
        (Token::Equal, Token::Equal) => true,
        (Token::Identical, Token::Identical) => true,
        (Token::NotEqual, Token::NotEqual) => true,
        (Token::NotIdentical, Token::NotIdentical) => true,
        (Token::Less, Token::Less) => true,
        (Token::LessEqual, Token::LessEqual) => true,
        (Token::Greater, Token::Greater) => true,
        (Token::GreaterEqual, Token::GreaterEqual) => true,
        (Token::And, Token::And) => true,
        (Token::Or, Token::Or) => true,
        (Token::Not, Token::Not) => true,
        (Token::OpenParen, Token::OpenParen) => true,
        (Token::CloseParen, Token::CloseParen) => true,
        (Token::OpenBrace, Token::OpenBrace) => true,
        (Token::CloseBrace, Token::CloseBrace) => true,
        (Token::OpenBracket, Token::OpenBracket) => true,
        (Token::CloseBracket, Token::CloseBracket) => true,
        (Token::Semicolon, Token::Semicolon) => true,
        (Token::Comma, Token::Comma) => true,
        (Token::Arrow, Token::Arrow) => true,
        (Token::OpenTag, Token::OpenTag) => true,
        (Token::Eof, Token::Eof) => true,
        _ => false,
    }
}


/// An explicit copy of a token, with the same mathematical value. Written
/// by hand so that verified code can rely on what the copy holds.
pub fn clone_token(t: &Token) -> (r: Token)
    ensures
        r@ == t@,
{
    match t {
        Token::Integer(n) => Token::Integer(*n),
        Token::Float(s) => Token::Float(s.clone()),
        Token::StringLiteral(s) => Token::StringLiteral(s.clone()),
        Token::Variable(s) => Token::Variable(s.clone()),
        Token::Identifier(s) => Token::Identifier(s.clone()),
        Token::Echo => Token::Echo,
        Token::If => Token::If,
        Token::Else => Token::Else,
        Token::Elseif => Token::Elseif,
        Token::While => Token::While,
        Token::For => Token::For,
        Token::Function => Token::Function,
        Token::Return => Token::Return,
        Token::True => Token::True,
        Token::False => Token::False,
        Token::Null => Token::Null,
        Token::Plus => Token::Plus,
        Token::Minus => Token::Minus,
        Token::Star => Token::Star,
        Token::Slash => Token::Slash,
        Token::Percent => Token::Percent,
        Token::Dot => Token::Dot,
        Token::Assign => Token::Assign,
        Token::Equal => Token::Equal,
        Token::Identical => Token::Identical,
        Token::NotEqual => Token::NotEqual,
        Token::NotIdentical => Token::NotIdentical,
        Token::Less => Token::Less,
        Token::LessEqual => Token::LessEqual,
        Token::Greater => Token::Greater,
        Token::GreaterEqual => Token::GreaterEqual,
        Token::And => Token::And,
        Token::Or => Token::Or,
        Token::Not => Token::Not,
        Token::OpenParen => Token::OpenParen,
        Token::CloseParen => Token::CloseParen,
        Token::OpenBrace => Token::OpenBrace,
        Token::CloseBrace => Token::CloseBrace,
        Token::OpenBracket => Token::OpenBracket,
        Token::CloseBracket => Token::CloseBracket,
        Token::Semicolon => Token::Semicolon,
        Token::Comma => Token::Comma,
        Token::Arrow => Token::Arrow,
        Token::OpenTag => Token::OpenTag,
        Token::Eof => Token::Eof,
    }
}

} // verus!
