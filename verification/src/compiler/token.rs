//! Lexical tokens and the keyword table.

use crate::text::str_eq;
use vstd::prelude::*;

verus! {

/// A lexical unit of the language.
#[derive(Debug, PartialEq)]
pub enum Token {
    // Helpers
    Illegal,
    EOF,
    // Operators
    Assign,
    Add,
    Subtract,
    Multiply,
    Divide,
    Or,
    And,
    LogicalOr,
    LogicalAnd,
    ShiftLeft,
    ShiftRight,
    Xor,
    Modulo,
    // Logic
    LessThan,
    GreaterThan,
    LessThanEqual,
    GreaterThanEqual,
    Bang,
    Equality,
    NotEquality,
    // Delimiters
    Dot,
    Comma,
    LeftParenthesis,
    RightParenthesis,
    LeftBrace,
    RightBrace,
    Semicolon,
    Colon,
    Quote,
    // Control flow
    If,
    Else,
    Return,
    Match,
    For,
    While,
    Comment,
    // Objects and declarations
    Super,
    Struct,
    Function,
    VarDecl,
    ConstDecl,
    Identifier(String),
    DotDot,
    // Literals
    RangeLiteral,
    StringLiteral(String),
    IntegerLiteral(i32),
    /// A decimal literal with a fractional part, kept as written.
    FloatLiteral(String),
    BooleanLiteral(bool),
    CollectionLiteral,
    // Type names
    StringDecl,
    IntegerDecl,
    FloatDecl,
    BooleanDecl,
    CollectionDecl,
    StructDecl,
    FunctionDecl,
    VoidDecl,
    // Others
    Null,
    Error(String),
    Print,
}

/// The mathematical value of a [`Token`]: text is a sequence of characters.
pub enum TokenView {
    Illegal,
    EOF,
    Assign,
    Add,
    Subtract,
    Multiply,
    Divide,
    Or,
    And,
    LogicalOr,
    LogicalAnd,
    ShiftLeft,
    ShiftRight,
    Xor,
    Modulo,
    LessThan,
    GreaterThan,
    LessThanEqual,
    GreaterThanEqual,
    Bang,
    Equality,
    NotEquality,
    Dot,
    Comma,
    LeftParenthesis,
    RightParenthesis,
    LeftBrace,
    RightBrace,
    Semicolon,
    Colon,
    Quote,
    If,
    Else,
    Return,
    Match,
    For,
    While,
    Comment,
    Super,
    Struct,
    Function,
    VarDecl,
    ConstDecl,
    Identifier(Seq<char>),
    DotDot,
    RangeLiteral,
    StringLiteral(Seq<char>),
    IntegerLiteral(i32),
    FloatLiteral(Seq<char>),
    BooleanLiteral(bool),
    CollectionLiteral,
    StringDecl,
    IntegerDecl,
    FloatDecl,
    BooleanDecl,
    CollectionDecl,
    StructDecl,
    FunctionDecl,
    VoidDecl,
    Null,
    Error(Seq<char>),
    Print,
}

impl View for Token {
    type V = TokenView;

    open spec fn view(&self) -> TokenView {
        match self {
            Token::Illegal => TokenView::Illegal,
            Token::EOF => TokenView::EOF,
            Token::Assign => TokenView::Assign,
            Token::Add => TokenView::Add,
            Token::Subtract => TokenView::Subtract,
            Token::Multiply => TokenView::Multiply,
            Token::Divide => TokenView::Divide,
            Token::Or => TokenView::Or,
            Token::And => TokenView::And,
            Token::LogicalOr => TokenView::LogicalOr,
            Token::LogicalAnd => TokenView::LogicalAnd,
            Token::ShiftLeft => TokenView::ShiftLeft,
            Token::ShiftRight => TokenView::ShiftRight,
            Token::Xor => TokenView::Xor,
            Token::Modulo => TokenView::Modulo,
            Token::LessThan => TokenView::LessThan,
            Token::GreaterThan => TokenView::GreaterThan,
            Token::LessThanEqual => TokenView::LessThanEqual,
            Token::GreaterThanEqual => TokenView::GreaterThanEqual,
            Token::Bang => TokenView::Bang,
            Token::Equality => TokenView::Equality,
            Token::NotEquality => TokenView::NotEquality,
            Token::Dot => TokenView::Dot,
            Token::Comma => TokenView::Comma,
            Token::LeftParenthesis => TokenView::LeftParenthesis,
            Token::RightParenthesis => TokenView::RightParenthesis,
            Token::LeftBrace => TokenView::LeftBrace,
            Token::RightBrace => TokenView::RightBrace,
            Token::Semicolon => TokenView::Semicolon,
            Token::Colon => TokenView::Colon,
            Token::Quote => TokenView::Quote,
            Token::If => TokenView::If,
            Token::Else => TokenView::Else,
            Token::Return => TokenView::Return,
            Token::Match => TokenView::Match,
            Token::For => TokenView::For,
            Token::While => TokenView::While,
            Token::Comment => TokenView::Comment,
            Token::Super => TokenView::Super,
            Token::Struct => TokenView::Struct,
            Token::Function => TokenView::Function,
            Token::VarDecl => TokenView::VarDecl,
            Token::ConstDecl => TokenView::ConstDecl,
            Token::Identifier(s) => TokenView::Identifier(s@),
            Token::DotDot => TokenView::DotDot,
            Token::RangeLiteral => TokenView::RangeLiteral,
            Token::StringLiteral(s) => TokenView::StringLiteral(s@),
            Token::IntegerLiteral(x) => TokenView::IntegerLiteral(*x),
            Token::FloatLiteral(s) => TokenView::FloatLiteral(s@),
            Token::BooleanLiteral(x) => TokenView::BooleanLiteral(*x),
            Token::CollectionLiteral => TokenView::CollectionLiteral,
            Token::StringDecl => TokenView::StringDecl,
            Token::IntegerDecl => TokenView::IntegerDecl,
            Token::FloatDecl => TokenView::FloatDecl,
            Token::BooleanDecl => TokenView::BooleanDecl,
            Token::CollectionDecl => TokenView::CollectionDecl,
            Token::StructDecl => TokenView::StructDecl,
            Token::FunctionDecl => TokenView::FunctionDecl,
            Token::VoidDecl => TokenView::VoidDecl,
            Token::Null => TokenView::Null,
            Token::Error(s) => TokenView::Error(s@),
            Token::Print => TokenView::Print,
        }
    }
}

/// The values of a sequence of tokens, in order.
pub open spec fn token_views(tokens: Seq<Token>) -> Seq<TokenView> {
    Seq::new(tokens.len(), |i: int| tokens[i]@)
}

impl Clone for Token {
    fn clone(&self) -> (r: Self)
        ensures
            r@ == self@,
    {
        match self {
            Token::Illegal => Token::Illegal,
            Token::EOF => Token::EOF,
            Token::Assign => Token::Assign,
            Token::Add => Token::Add,
            Token::Subtract => Token::Subtract,
            Token::Multiply => Token::Multiply,
            Token::Divide => Token::Divide,
            Token::Or => Token::Or,
            Token::And => Token::And,
            Token::LogicalOr => Token::LogicalOr,
            Token::LogicalAnd => Token::LogicalAnd,
            Token::ShiftLeft => Token::ShiftLeft,
            Token::ShiftRight => Token::ShiftRight,
            Token::Xor => Token::Xor,
            Token::Modulo => Token::Modulo,
            Token::LessThan => Token::LessThan,
            Token::GreaterThan => Token::GreaterThan,
            Token::LessThanEqual => Token::LessThanEqual,
            Token::GreaterThanEqual => Token::GreaterThanEqual,
            Token::Bang => Token::Bang,
            Token::Equality => Token::Equality,
            Token::NotEquality => Token::NotEquality,
            Token::Dot => Token::Dot,
            Token::Comma => Token::Comma,
            Token::LeftParenthesis => Token::LeftParenthesis,
            Token::RightParenthesis => Token::RightParenthesis,
            Token::LeftBrace => Token::LeftBrace,
            Token::RightBrace => Token::RightBrace,
            Token::Semicolon => Token::Semicolon,
            Token::Colon => Token::Colon,
            Token::Quote => Token::Quote,
            Token::If => Token::If,
            Token::Else => Token::Else,
            Token::Return => Token::Return,
            Token::Match => Token::Match,
            Token::For => Token::For,
            Token::While => Token::While,
            Token::Comment => Token::Comment,
            Token::Super => Token::Super,
            Token::Struct => Token::Struct,
            Token::Function => Token::Function,
            Token::VarDecl => Token::VarDecl,
            Token::ConstDecl => Token::ConstDecl,
            Token::Identifier(s) => Token::Identifier(s.clone()),
            Token::DotDot => Token::DotDot,
            Token::RangeLiteral => Token::RangeLiteral,
            Token::StringLiteral(s) => Token::StringLiteral(s.clone()),
            Token::IntegerLiteral(x) => Token::IntegerLiteral(*x),
            Token::FloatLiteral(s) => Token::FloatLiteral(s.clone()),
            Token::BooleanLiteral(x) => Token::BooleanLiteral(*x),
            Token::CollectionLiteral => Token::CollectionLiteral,
            Token::StringDecl => Token::StringDecl,
            Token::IntegerDecl => Token::IntegerDecl,
            Token::FloatDecl => Token::FloatDecl,
            Token::BooleanDecl => Token::BooleanDecl,
            Token::CollectionDecl => Token::CollectionDecl,
            Token::StructDecl => Token::StructDecl,
            Token::FunctionDecl => Token::FunctionDecl,
            Token::VoidDecl => Token::VoidDecl,
            Token::Null => Token::Null,
            Token::Error(s) => Token::Error(s.clone()),
            Token::Print => Token::Print,
        }
    }
}

impl Default for Token {
    fn default() -> (r: Token)
        ensures
            r == Token::Illegal,
    {
        Token::Illegal
    }
}

/// The token that a word stands for: the keyword spelled exactly so, or else
/// an identifier that carries the word.
pub open spec fn word_token(word: Seq<char>) -> TokenView {
    if word == "fn"@ {
        TokenView::FunctionDecl
    } else if word == "const"@ {
        TokenView::ConstDecl
    } else if word == "var"@ {
        TokenView::VarDecl
    } else if word == "match"@ {
        TokenView::Match
    } else if word == "return"@ {
        TokenView::Return
    } else if word == "super"@ {
        TokenView::Super
    } else if word == "if"@ {
        TokenView::If
    } else if word == "else"@ {
        TokenView::Else
    } else if word == "null"@ {
        TokenView::Null
    } else if word == "for"@ {
        TokenView::For
    } else if word == "while"@ {
        TokenView::While
    } else if word == "true"@ {
        TokenView::BooleanLiteral(true)
    } else if word == "false"@ {
        TokenView::BooleanLiteral(false)
    } else if word == "void"@ {
        TokenView::VoidDecl
    } else if word == "collection"@ {
        TokenView::CollectionDecl
    } else if word == "int"@ {
        TokenView::IntegerDecl
    } else if word == "float"@ {
        TokenView::FloatDecl
    } else if word == "string"@ {
        TokenView::StringDecl
    } else if word == "bool"@ {
        TokenView::BooleanDecl
    } else if word == "struct"@ {
        TokenView::StructDecl
    } else if word == "print"@ {
        TokenView::Print
    } else {
        TokenView::Identifier(word)
    }
}

/// Classifies a word as a keyword or an identifier. Matching is by exact,
/// case-sensitive spelling.
pub fn lookup(ident: &str) -> (tok: Token)
    ensures
        tok@ == word_token(ident@),
{
    if str_eq(ident, "fn") {
        Token::FunctionDecl
    } else if str_eq(ident, "const") {
        Token::ConstDecl
    } else if str_eq(ident, "var") {
        Token::VarDecl
    } else if str_eq(ident, "match") {
        Token::Match
    } else if str_eq(ident, "return") {
        Token::Return
    } else if str_eq(ident, "super") {
        Token::Super
    } else if str_eq(ident, "if") {
        Token::If
    } else if str_eq(ident, "else") {
        Token::Else
    } else if str_eq(ident, "null") {
        Token::Null
    } else if str_eq(ident, "for") {
        Token::For
    } else if str_eq(ident, "while") {
        Token::While
    } else if str_eq(ident, "true") {
        Token::BooleanLiteral(true)
    } else if str_eq(ident, "false") {
        Token::BooleanLiteral(false)
    } else if str_eq(ident, "void") {
        Token::VoidDecl
    } else if str_eq(ident, "collection") {
        Token::CollectionDecl
    } else if str_eq(ident, "int") {
        Token::IntegerDecl
    } else if str_eq(ident, "float") {
        Token::FloatDecl
    } else if str_eq(ident, "string") {
        Token::StringDecl
    } else if str_eq(ident, "bool") {
        Token::BooleanDecl
    } else if str_eq(ident, "struct") {
        Token::StructDecl
    } else if str_eq(ident, "print") {
        Token::Print
    } else {
        Token::Identifier(ident.to_owned())
    }
}

} // verus!
