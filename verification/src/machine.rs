//! The scan as a state machine over mathematical values.
//!
//! A state is the output committed so far and the one token under
//! construction. Each character moves the state or abandons the scan, and
//! the end of the input either closes the output or abandons it.

use vstd::prelude::*;
use crate::digits::{digit_value, is_digit, merged};
use crate::token::{ScanError, TokenModel};

verus! {

/// The character that ends a statement.
pub open spec fn is_terminator(c: char) -> bool {
    c == ';'
}

/// The state of a scan between two characters.
pub struct ScanState {
    /// The tokens committed so far, oldest first.
    pub output: Seq<TokenModel>,
    /// The token under construction, `Empty` when there is none.
    pub accumulator: TokenModel,
}

/// The state before the first character.
pub open spec fn initial() -> ScanState {
    ScanState { output: Seq::empty(), accumulator: TokenModel::Empty }
}

/// A commit: the accumulator, whatever it holds, joins the output, and the
/// accumulator is empty again.
pub open spec fn committed(state: ScanState) -> ScanState {
    ScanState {
        output: state.output.push(state.accumulator),
        accumulator: TokenModel::Empty,
    }
}

/// The accumulators for which the reaction to a digit is defined here. A
/// `Dec` accumulator merges a digit in floating-point arithmetic, which is
/// outside this model.
pub open spec fn takes_digit(accumulator: TokenModel) -> bool {
    !(accumulator is Dec)
}

/// The reaction to a decimal digit, by the accumulator's variant.
pub open spec fn after_digit(state: ScanState, c: char) -> Result<ScanState, ScanError>
    recommends
        is_digit(c),
        takes_digit(state.accumulator),
{
    match state.accumulator {
        TokenModel::Empty => Ok(
            ScanState { accumulator: TokenModel::Int(digit_value(c) as i64), ..state },
        ),
        TokenModel::Int(value) => Ok(
            ScanState { accumulator: TokenModel::Int(merged(value, c)), ..state },
        ),
        TokenModel::Str(buffer) => Ok(
            ScanState { accumulator: TokenModel::Str(buffer.push(c)), ..state },
        ),
        TokenModel::Var(buffer) => Ok(
            ScanState { accumulator: TokenModel::Var(buffer.push(c)), ..state },
        ),
        TokenModel::Char(_) | TokenModel::CloseParen => Err(ScanError::InvalidToken),
        TokenModel::OpenParen
        | TokenModel::Add
        | TokenModel::Minus
        | TokenModel::Multiply
        | TokenModel::Divide
        | TokenModel::Modulo
        | TokenModel::EndStmt => Ok(
            ScanState {
                output: state.output.push(state.accumulator),
                accumulator: TokenModel::Int(digit_value(c) as i64),
            },
        ),
        TokenModel::Dec(_) => arbitrary(),
    }
}

/// The reaction to one character: a terminator commits, a digit goes to the
/// accumulator, and anything else abandons the scan.
pub open spec fn after_char(state: ScanState, c: char) -> Result<ScanState, ScanError>
    recommends
        is_digit(c) ==> takes_digit(state.accumulator),
{
    if is_terminator(c) {
        Ok(committed(state))
    } else if is_digit(c) {
        after_digit(state, c)
    } else {
        Err(ScanError::UnhandledCharacter(c))
    }
}

/// The state after a run of characters, read left to right. The first
/// character that abandons the scan decides the error.
pub open spec fn after_chars(state: ScanState, chars: Seq<char>) -> Result<ScanState, ScanError>
    decreases chars.len(),
{
    if chars.len() == 0 {
        Ok(state)
    } else {
        match after_chars(state, chars.drop_last()) {
            Ok(reached) => after_char(reached, chars.last()),
            Err(error) => Err(error),
        }
    }
}

/// The end of the input: an empty accumulator is committed as the closing
/// marker; any other accumulator means a statement was left open.
pub open spec fn finished(state: ScanState) -> Result<Seq<TokenModel>, ScanError> {
    if state.accumulator is Empty {
        Ok(state.output.push(TokenModel::Empty))
    } else {
        Err(ScanError::MissingTerminator)
    }
}

/// The result of scanning a whole program from the initial state.
pub open spec fn scanned(program: Seq<char>) -> Result<Seq<TokenModel>, ScanError> {
    match after_chars(initial(), program) {
        Ok(reached) => finished(reached),
        Err(error) => Err(error),
    }
}

/// Reading one more character extends the run read so far by one step.
pub proof fn lemma_after_chars_extends(state: ScanState, chars: Seq<char>, n: int)
    requires
        0 <= n < chars.len(),
    ensures
        after_chars(state, chars.take(n + 1)) == (match after_chars(state, chars.take(n)) {
            Ok(reached) => after_char(reached, chars[n]),
            Err(error) => Err(error),
        }),
{
    assert(chars.take(n + 1).drop_last() =~= chars.take(n));
}

/// Once a prefix has abandoned the scan, the rest of the input changes
/// nothing: the whole run fails with the same error.
pub proof fn lemma_error_persists(state: ScanState, chars: Seq<char>, n: int)
    requires
        0 <= n <= chars.len(),
        after_chars(state, chars.take(n)) is Err,
    ensures
        after_chars(state, chars) == after_chars(state, chars.take(n)),
    decreases chars.len() - n,
{
    if n == chars.len() {
        assert(chars.take(n) =~= chars);
    } else {
        lemma_after_chars_extends(state, chars, n);
        lemma_error_persists(state, chars, n + 1);
    }
}

} // verus!
