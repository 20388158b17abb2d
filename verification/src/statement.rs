//! What a program says, statement by statement.
//!
//! A program is a run of statements, each a possibly empty run of digits
//! closed by a terminator. This module reads a program that way, without
//! reference to the scanning machine.

use vstd::prelude::*;
use crate::digits::{decimal_value, is_digit, wrap};
use crate::machine::is_terminator;
use crate::token::TokenModel;

verus! {

/// The characters a program is made of.
pub open spec fn is_program_char(c: char) -> bool {
    is_terminator(c) || is_digit(c)
}

/// Every character is a digit or a terminator.
pub open spec fn all_program_chars(chars: Seq<char>) -> bool {
    forall|i: int| 0 <= i < chars.len() ==> is_program_char(#[trigger] chars[i])
}

/// Every character is a digit.
pub open spec fn all_digits(chars: Seq<char>) -> bool {
    forall|i: int| 0 <= i < chars.len() ==> is_digit(#[trigger] chars[i])
}

/// A program the scanner accepts: made of digits and terminators only, with
/// no statement left open at its end.
pub open spec fn well_formed(program: Seq<char>) -> bool {
    &&& all_program_chars(program)
    &&& program.len() > 0 ==> is_terminator(program.last())
}

/// The number of terminators in a run of characters.
pub open spec fn terminators(chars: Seq<char>) -> nat
    decreases chars.len(),
{
    if chars.len() == 0 {
        0
    } else if is_terminator(chars.last()) {
        terminators(chars.drop_last()) + 1
    } else {
        terminators(chars.drop_last())
    }
}

/// The characters after the last terminator: the statement still open.
pub open spec fn open_run(chars: Seq<char>) -> Seq<char>
    decreases chars.len(),
{
    if chars.len() == 0 || is_terminator(chars.last()) {
        Seq::empty()
    } else {
        open_run(chars.drop_last()).push(chars.last())
    }
}

/// The token of one statement: nothing for an empty run, otherwise the
/// integer the digits read as in base 10, kept to 64 bits.
pub open spec fn statement_token(run: Seq<char>) -> TokenModel {
    if run.len() == 0 {
        TokenModel::Empty
    } else {
        TokenModel::Int(wrap(decimal_value(run)))
    }
}

/// The tokens of the closed statements, in order: one for each terminator.
pub open spec fn statements(chars: Seq<char>) -> Seq<TokenModel>
    decreases chars.len(),
{
    if chars.len() == 0 {
        Seq::empty()
    } else if is_terminator(chars.last()) {
        statements(chars.drop_last()).push(statement_token(open_run(chars.drop_last())))
    } else {
        statements(chars.drop_last())
    }
}

/// The tokens of a well-formed program: those of its statements, then the
/// closing `Empty` marker.
pub open spec fn program_tokens(program: Seq<char>) -> Seq<TokenModel> {
    statements(program).push(TokenModel::Empty)
}

} // verus!
