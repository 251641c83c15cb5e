//! Why a parse failed.

use vstd::prelude::*;

verus! {

/// The five classes of failure.
#[derive(Debug, PartialEq, Eq, Clone, Copy, Structural)]
pub enum ErrorKind {
    /// The input ended where more tokens were expected.
    EndOfInput,
    /// A token that the grammar does not allow at that place.
    Syntax,
    /// Operands, or a declared and an assigned value, of different types.
    TypeMismatch,
    /// A name defined again in the scope that already binds it.
    Redeclaration,
    /// A name that no scope binds.
    Undefined,
}

/// The reason for a failure. Every failure ends the parse.
#[derive(Debug, PartialEq, Eq, Clone, Copy, Structural)]
pub enum ParseError {
    OutOfTokens,
    UnexpectedEof,
    ExpectedPrimary,
    ExpectedClosingBrace,
    ExpectedSemicolon,
    InvalidAssignmentTarget,
    ExpectedFunctionIdentifier,
    ExpectedColon,
    ExpectedReturnType,
    ExpectedLeftParenthesis,
    UnexpectedVoid,
    ExpectedRightParenthesis,
    ExpectedArgumentColon,
    ExpectedArgumentName,
    ExpectedArgumentList,
    UnexpectedArgument,
    ExpectedIdentifier,
    ExpectedAssign,
    ExpectedString,
    TypeMismatch,
    AlreadyDefined,
    NotDefined,
}

impl ParseError {
    pub open spec fn spec_kind(self) -> ErrorKind {
        match self {
            ParseError::OutOfTokens | ParseError::UnexpectedEof => ErrorKind::EndOfInput,
            ParseError::TypeMismatch => ErrorKind::TypeMismatch,
            ParseError::AlreadyDefined => ErrorKind::Redeclaration,
            ParseError::NotDefined => ErrorKind::Undefined,
            _ => ErrorKind::Syntax,
        }
    }

    /// The class of this failure.
    #[verifier::when_used_as_spec(spec_kind)]
    pub fn kind(self) -> (k: ErrorKind)
        ensures
            k == self.spec_kind(),
    {
        match self {
            ParseError::OutOfTokens | ParseError::UnexpectedEof => ErrorKind::EndOfInput,
            ParseError::TypeMismatch => ErrorKind::TypeMismatch,
            ParseError::AlreadyDefined => ErrorKind::Redeclaration,
            ParseError::NotDefined => ErrorKind::Undefined,
            _ => ErrorKind::Syntax,
        }
    }

    pub open spec fn text(self) -> Seq<char> {
        match self {
            ParseError::OutOfTokens => "Ran out of tokens"@,
            ParseError::UnexpectedEof => "Unexpected EOF"@,
            ParseError::ExpectedPrimary => "Expected primary expression"@,
            ParseError::ExpectedClosingBrace => "Expected '}'"@,
            ParseError::ExpectedSemicolon => "Expected ';' after expression"@,
            ParseError::InvalidAssignmentTarget => "Invalid assignment target"@,
            ParseError::ExpectedFunctionIdentifier => "Expected function identifier"@,
            ParseError::ExpectedColon => "Expected ':' after identifier"@,
            ParseError::ExpectedReturnType => "Expected return type after function definition"@,
            ParseError::ExpectedLeftParenthesis => "Expected '(' after return type"@,
            ParseError::UnexpectedVoid => "Unexpected void return type"@,
            ParseError::ExpectedRightParenthesis => "Expected ')' after arguments"@,
            ParseError::ExpectedArgumentColon => "Expected ':' after argument type"@,
            ParseError::ExpectedArgumentName => "Expected argument name after ':'"@,
            ParseError::ExpectedArgumentList => "Expected argument list"@,
            ParseError::UnexpectedArgument => "Unexpected argument"@,
            ParseError::ExpectedIdentifier => "Expected identifier"@,
            ParseError::ExpectedAssign => "Expected '=' after variable name"@,
            ParseError::ExpectedString => "Expected string after 'print'"@,
            ParseError::TypeMismatch => "Mismatched types"@,
            ParseError::AlreadyDefined => "Variable already defined"@,
            ParseError::NotDefined => "Variable not defined"@,
        }
    }

    /// The reason in words.
    pub fn message(self) -> (s: String)
        ensures
            s@ == self.text(),
    {
        let text = match self {
            ParseError::OutOfTokens => "Ran out of tokens",
            ParseError::UnexpectedEof => "Unexpected EOF",
            ParseError::ExpectedPrimary => "Expected primary expression",
            ParseError::ExpectedClosingBrace => "Expected '}'",
            ParseError::ExpectedSemicolon => "Expected ';' after expression",
            ParseError::InvalidAssignmentTarget => "Invalid assignment target",
            ParseError::ExpectedFunctionIdentifier => "Expected function identifier",
            ParseError::ExpectedColon => "Expected ':' after identifier",
            ParseError::ExpectedReturnType => "Expected return type after function definition",
            ParseError::ExpectedLeftParenthesis => "Expected '(' after return type",
            ParseError::UnexpectedVoid => "Unexpected void return type",
            ParseError::ExpectedRightParenthesis => "Expected ')' after arguments",
            ParseError::ExpectedArgumentColon => "Expected ':' after argument type",
            ParseError::ExpectedArgumentName => "Expected argument name after ':'",
            ParseError::ExpectedArgumentList => "Expected argument list",
            ParseError::UnexpectedArgument => "Unexpected argument",
            ParseError::ExpectedIdentifier => "Expected identifier",
            ParseError::ExpectedAssign => "Expected '=' after variable name",
            ParseError::ExpectedString => "Expected string after 'print'",
            ParseError::TypeMismatch => "Mismatched types",
            ParseError::AlreadyDefined => "Variable already defined",
            ParseError::NotDefined => "Variable not defined",
        };
        text.to_owned()
    }
}

} // verus!
