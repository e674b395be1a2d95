//! Token types produced by the tokenizer.
//!
//! A token records its kind and payload together with the line and column at
//! which it starts and the length of its source text. Floating-point literals
//! keep their source text as written; turning that text into a number is the
//! host application's concern.

use vstd::prelude::*;
use vstd::string::StringExecFns;

verus! {

#[derive(Debug)]
pub enum TokenType {
    // Literals
    Integer(i64),
    Float(String),
    String(String),
    Boolean(bool),
    // Identifiers and keywords
    Identifier(String),
    Let,
    Const,
    Fn,
    Return,
    If,
    Else,
    For,
    While,
    In,
    Try,
    Catch,
    Match,
    True,
    False,
    Nil,
    Is,
    // Operators
    Plus,
    Minus,
    Multiply,
    Divide,
    Modulo,
    Power,
    // Assignment
    Assign,
    ColonAssign,
    PlusAssign,
    MinusAssign,
    // Comparison
    Equal,
    NotEqual,
    Less,
    LessEqual,
    Greater,
    GreaterEqual,
    // Logical
    And,
    Or,
    Not,
    // Bitwise
    BitwiseAnd,
    BitwiseOr,
    BitwiseXor,
    BitwiseNot,
    LeftShift,
    RightShift,
    // Punctuation
    LeftParen,
    RightParen,
    LeftBrace,
    RightBrace,
    LeftBracket,
    RightBracket,
    Comma,
    Semicolon,
    Colon,
    Dot,
    Arrow,
    Pipeline,
    // String interpolation
    InterpolationStart,
    InterpolationEnd,
    // Command execution
    Command(String),
    // Comments
    Comment(String),
    // Special
    Newline,
    EOF,
    // Error
    Error(String),
}

/// The kind of a token, with payloads stripped; used by the parser to compare
/// tokens without looking at their contents.
#[derive(Clone, Copy, PartialEq, Eq, Structural, Debug)]
pub enum TokenKind {
    Integer,
    Float,
    String,
    Boolean,
    Identifier,
    Let,
    Const,
    Fn,
    Return,
    If,
    Else,
    For,
    While,
    In,
    Try,
    Catch,
    Match,
    True,
    False,
    Nil,
    Is,
    Plus,
    Minus,
    Multiply,
    Divide,
    Modulo,
    Power,
    Assign,
    ColonAssign,
    PlusAssign,
    MinusAssign,
    Equal,
    NotEqual,
    Less,
    LessEqual,
    Greater,
    GreaterEqual,
    And,
    Or,
    Not,
    BitwiseAnd,
    BitwiseOr,
    BitwiseXor,
    BitwiseNot,
    LeftShift,
    RightShift,
    LeftParen,
    RightParen,
    LeftBrace,
    RightBrace,
    LeftBracket,
    RightBracket,
    Comma,
    Semicolon,
    Colon,
    Dot,
    Arrow,
    Pipeline,
    InterpolationStart,
    InterpolationEnd,
    Command,
    Comment,
    Newline,
    EOF,
    Error,
}

/// The kind of a token type, with payloads stripped.
pub open spec fn spec_kind(t: &TokenType) -> TokenKind {
    match t {
        TokenType::Integer(_) => TokenKind::Integer,
        TokenType::Float(_) => TokenKind::Float,
        TokenType::String(_) => TokenKind::String,
        TokenType::Boolean(_) => TokenKind::Boolean,
        TokenType::Identifier(_) => TokenKind::Identifier,
        TokenType::Let => TokenKind::Let,
        TokenType::Const => TokenKind::Const,
        TokenType::Fn => TokenKind::Fn,
        TokenType::Return => TokenKind::Return,
        TokenType::If => TokenKind::If,
        TokenType::Else => TokenKind::Else,
        TokenType::For => TokenKind::For,
        TokenType::While => TokenKind::While,
        TokenType::In => TokenKind::In,
        TokenType::Try => TokenKind::Try,
        TokenType::Catch => TokenKind::Catch,
        TokenType::Match => TokenKind::Match,
        TokenType::True => TokenKind::True,
        TokenType::False => TokenKind::False,
        TokenType::Nil => TokenKind::Nil,
        TokenType::Is => TokenKind::Is,
        TokenType::Plus => TokenKind::Plus,
        TokenType::Minus => TokenKind::Minus,
        TokenType::Multiply => TokenKind::Multiply,
        TokenType::Divide => TokenKind::Divide,
        TokenType::Modulo => TokenKind::Modulo,
        TokenType::Power => TokenKind::Power,
        TokenType::Assign => TokenKind::Assign,
        TokenType::ColonAssign => TokenKind::ColonAssign,
        TokenType::PlusAssign => TokenKind::PlusAssign,
        TokenType::MinusAssign => TokenKind::MinusAssign,
        TokenType::Equal => TokenKind::Equal,
        TokenType::NotEqual => TokenKind::NotEqual,
        TokenType::Less => TokenKind::Less,
        TokenType::LessEqual => TokenKind::LessEqual,
        TokenType::Greater => TokenKind::Greater,
        TokenType::GreaterEqual => TokenKind::GreaterEqual,
        TokenType::And => TokenKind::And,
        TokenType::Or => TokenKind::Or,
        TokenType::Not => TokenKind::Not,
        TokenType::BitwiseAnd => TokenKind::BitwiseAnd,
        TokenType::BitwiseOr => TokenKind::BitwiseOr,
        TokenType::BitwiseXor => TokenKind::BitwiseXor,
        TokenType::BitwiseNot => TokenKind::BitwiseNot,
        TokenType::LeftShift => TokenKind::LeftShift,
        TokenType::RightShift => TokenKind::RightShift,
        TokenType::LeftParen => TokenKind::LeftParen,
        TokenType::RightParen => TokenKind::RightParen,
        TokenType::LeftBrace => TokenKind::LeftBrace,
        TokenType::RightBrace => TokenKind::RightBrace,
        TokenType::LeftBracket => TokenKind::LeftBracket,
        TokenType::RightBracket => TokenKind::RightBracket,
        TokenType::Comma => TokenKind::Comma,
        TokenType::Semicolon => TokenKind::Semicolon,
        TokenType::Colon => TokenKind::Colon,
        TokenType::Dot => TokenKind::Dot,
        TokenType::Arrow => TokenKind::Arrow,
        TokenType::Pipeline => TokenKind::Pipeline,
        TokenType::InterpolationStart => TokenKind::InterpolationStart,
        TokenType::InterpolationEnd => TokenKind::InterpolationEnd,
        TokenType::Command(_) => TokenKind::Command,
        TokenType::Comment(_) => TokenKind::Comment,
        TokenType::Newline => TokenKind::Newline,
        TokenType::EOF => TokenKind::EOF,
        TokenType::Error(_) => TokenKind::Error,
    }
}

impl TokenType {
    /// The kind of this token type.
    pub fn kind(&self) -> (k: TokenKind)
        ensures
            k == spec_kind(self),
    {
        match self {
            TokenType::Integer(_) => TokenKind::Integer,
            TokenType::Float(_) => TokenKind::Float,
            TokenType::String(_) => TokenKind::String,
            TokenType::Boolean(_) => TokenKind::Boolean,
            TokenType::Identifier(_) => TokenKind::Identifier,
            TokenType::Let => TokenKind::Let,
            TokenType::Const => TokenKind::Const,
            TokenType::Fn => TokenKind::Fn,
            TokenType::Return => TokenKind::Return,
            TokenType::If => TokenKind::If,
            TokenType::Else => TokenKind::Else,
            TokenType::For => TokenKind::For,
            TokenType::While => TokenKind::While,
            TokenType::In => TokenKind::In,
            TokenType::Try => TokenKind::Try,
            TokenType::Catch => TokenKind::Catch,
            TokenType::Match => TokenKind::Match,
            TokenType::True => TokenKind::True,
            TokenType::False => TokenKind::False,
            TokenType::Nil => TokenKind::Nil,
            TokenType::Is => TokenKind::Is,
            TokenType::Plus => TokenKind::Plus,
            TokenType::Minus => TokenKind::Minus,
            TokenType::Multiply => TokenKind::Multiply,
            TokenType::Divide => TokenKind::Divide,
            TokenType::Modulo => TokenKind::Modulo,
            TokenType::Power => TokenKind::Power,
            TokenType::Assign => TokenKind::Assign,
            TokenType::ColonAssign => TokenKind::ColonAssign,
            TokenType::PlusAssign => TokenKind::PlusAssign,
            TokenType::MinusAssign => TokenKind::MinusAssign,
            TokenType::Equal => TokenKind::Equal,
            TokenType::NotEqual => TokenKind::NotEqual,
            TokenType::Less => TokenKind::Less,
            TokenType::LessEqual => TokenKind::LessEqual,
            TokenType::Greater => TokenKind::Greater,
            TokenType::GreaterEqual => TokenKind::GreaterEqual,
            TokenType::And => TokenKind::And,
            TokenType::Or => TokenKind::Or,
            TokenType::Not => TokenKind::Not,
            TokenType::BitwiseAnd => TokenKind::BitwiseAnd,
            TokenType::BitwiseOr => TokenKind::BitwiseOr,
            TokenType::BitwiseXor => TokenKind::BitwiseXor,
            TokenType::BitwiseNot => TokenKind::BitwiseNot,
            TokenType::LeftShift => TokenKind::LeftShift,
            TokenType::RightShift => TokenKind::RightShift,
            TokenType::LeftParen => TokenKind::LeftParen,
            TokenType::RightParen => TokenKind::RightParen,
            TokenType::LeftBrace => TokenKind::LeftBrace,
            TokenType::RightBrace => TokenKind::RightBrace,
            TokenType::LeftBracket => TokenKind::LeftBracket,
            TokenType::RightBracket => TokenKind::RightBracket,
            TokenType::Comma => TokenKind::Comma,
            TokenType::Semicolon => TokenKind::Semicolon,
            TokenType::Colon => TokenKind::Colon,
            TokenType::Dot => TokenKind::Dot,
            TokenType::Arrow => TokenKind::Arrow,
            TokenType::Pipeline => TokenKind::Pipeline,
            TokenType::InterpolationStart => TokenKind::InterpolationStart,
            TokenType::InterpolationEnd => TokenKind::InterpolationEnd,
            TokenType::Command(_) => TokenKind::Command,
            TokenType::Comment(_) => TokenKind::Comment,
            TokenType::Newline => TokenKind::Newline,
            TokenType::EOF => TokenKind::EOF,
            TokenType::Error(_) => TokenKind::Error,
        }
    }
}

#[derive(Debug)]
pub struct Token {
    pub token_type: TokenType,
    pub line: usize,
    pub column: usize,
    pub length: usize,
}

impl Token {
    pub fn new(token_type: TokenType, line: usize, column: usize, length: usize) -> (t: Token)
        ensures
            t == (Token { token_type, line, column, length }),
    {
        Token { token_type, line, column, length }
    }

    pub fn error(message: String, line: usize, column: usize) -> (t: Token)
        ensures
            t.token_type matches TokenType::Error(m) && m@ == message@,
            t.line == line,
            t.column == column,
            t.length == 1,
    {
        Token { token_type: TokenType::Error(message), line, column, length: 1 }
    }

    pub fn eof(line: usize, column: usize) -> (t: Token)
        ensures
            t.token_type is EOF,
            t.line == line,
            t.column == column,
            t.length == 0,
    {
        Token { token_type: TokenType::EOF, line, column, length: 0 }
    }
}

/// True when `w` is one of the language's keywords.
pub open spec fn is_keyword(w: Seq<char>) -> bool {
    ||| w == "let"@
    ||| w == "const"@
    ||| w == "fn"@
    ||| w == "return"@
    ||| w == "if"@
    ||| w == "else"@
    ||| w == "for"@
    ||| w == "while"@
    ||| w == "in"@
    ||| w == "try"@
    ||| w == "catch"@
    ||| w == "match"@
    ||| w == "true"@
    ||| w == "false"@
    ||| w == "nil"@
    ||| w == "is"@
}

/// Relates a word to the token that stands for it: the keyword's own token
/// when `w` is a keyword, and an identifier token holding `w` otherwise.
pub open spec fn keyword_or_identifier_spec(w: Seq<char>, t: TokenType) -> bool {
    if w == "let"@ {
        t is Let
    } else if w == "const"@ {
        t is Const
    } else if w == "fn"@ {
        t is Fn
    } else if w == "return"@ {
        t is Return
    } else if w == "if"@ {
        t is If
    } else if w == "else"@ {
        t is Else
    } else if w == "for"@ {
        t is For
    } else if w == "while"@ {
        t is While
    } else if w == "in"@ {
        t is In
    } else if w == "try"@ {
        t is Try
    } else if w == "catch"@ {
        t is Catch
    } else if w == "match"@ {
        t is Match
    } else if w == "true"@ {
        t is True
    } else if w == "false"@ {
        t is False
    } else if w == "nil"@ {
        t is Nil
    } else if w == "is"@ {
        t is Is
    } else {
        t matches TokenType::Identifier(s) && s@ == w
    }
}

/// Looks a word up in the keyword table; a word that is not a keyword is a
/// plain identifier.
pub fn keyword_or_identifier(word: &str) -> (t: TokenType)
    ensures
        keyword_or_identifier_spec(word@, t),
{
    if crate::strutil::str_eq(word, "let") {
        TokenType::Let
    } else if crate::strutil::str_eq(word, "const") {
        TokenType::Const
    } else if crate::strutil::str_eq(word, "fn") {
        TokenType::Fn
    } else if crate::strutil::str_eq(word, "return") {
        TokenType::Return
    } else if crate::strutil::str_eq(word, "if") {
        TokenType::If
    } else if crate::strutil::str_eq(word, "else") {
        TokenType::Else
    } else if crate::strutil::str_eq(word, "for") {
        TokenType::For
    } else if crate::strutil::str_eq(word, "while") {
        TokenType::While
    } else if crate::strutil::str_eq(word, "in") {
        TokenType::In
    } else if crate::strutil::str_eq(word, "try") {
        TokenType::Try
    } else if crate::strutil::str_eq(word, "catch") {
        TokenType::Catch
    } else if crate::strutil::str_eq(word, "match") {
        TokenType::Match
    } else if crate::strutil::str_eq(word, "true") {
        TokenType::True
    } else if crate::strutil::str_eq(word, "false") {
        TokenType::False
    } else if crate::strutil::str_eq(word, "nil") {
        TokenType::Nil
    } else if crate::strutil::str_eq(word, "is") {
        TokenType::Is
    } else {
        TokenType::Identifier(String::from_str(word))
    }
}

} // verus!
