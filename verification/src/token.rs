//! Tokens, their mathematical model, and the ways a scan can fail.

use vstd::prelude::*;

verus! {

/// A lexical token.
///
/// `Dec` carries the IEEE 754 bit pattern of its 64-bit value, so that a
/// token is made of plain data only.
#[derive(Debug, PartialEq, Eq)]
pub enum Token {
    OpenParen,
    CloseParen,
    Add,
    Minus,
    Multiply,
    Divide,
    Modulo,
    Dec(u64),
    Int(i64),
    Str(String),
    Char(char),
    Var(String),
    EndStmt,
    /// No token is under construction.
    Empty,
}

/// What a [`Token`] denotes: the same variants, with character buffers as
/// sequences.
pub enum TokenModel {
    OpenParen,
    CloseParen,
    Add,
    Minus,
    Multiply,
    Divide,
    Modulo,
    Dec(u64),
    Int(i64),
    Str(Seq<char>),
    Char(char),
    Var(Seq<char>),
    EndStmt,
    Empty,
}

impl View for Token {
    type V = TokenModel;

    open spec fn view(&self) -> TokenModel {
        match *self {
            Token::OpenParen => TokenModel::OpenParen,
            Token::CloseParen => TokenModel::CloseParen,
            Token::Add => TokenModel::Add,
            Token::Minus => TokenModel::Minus,
            Token::Multiply => TokenModel::Multiply,
            Token::Divide => TokenModel::Divide,
            Token::Modulo => TokenModel::Modulo,
            Token::Dec(bits) => TokenModel::Dec(bits),
            Token::Int(value) => TokenModel::Int(value),
            Token::Str(buffer) => TokenModel::Str(buffer@),
            Token::Char(value) => TokenModel::Char(value),
            Token::Var(buffer) => TokenModel::Var(buffer@),
            Token::EndStmt => TokenModel::EndStmt,
            Token::Empty => TokenModel::Empty,
        }
    }
}

/// The models of a sequence of tokens, in order.
pub open spec fn models(tokens: Seq<Token>) -> Seq<TokenModel> {
    Seq::new(tokens.len(), |i: int| tokens[i]@)
}

/// Why a scan was abandoned.
#[derive(Debug, Clone, Copy, PartialEq, Eq, Structural)]
pub enum ScanError {
    /// The character is neither a decimal digit nor the statement terminator.
    UnhandledCharacter(char),
    /// A digit arrived while the accumulator held a token that cannot be
    /// followed by one.
    InvalidToken,
    /// The input ended while a token was still under construction.
    MissingTerminator,
}

} // verus!
