//! The executable scanner.

use vstd::prelude::*;
use crate::digits::{digit_of, is_digit, merge_digit};
use crate::machine::{
    after_char, after_chars, after_digit, committed, finished, initial, lemma_after_chars_extends,
    lemma_error_persists, scanned, takes_digit, ScanState,
};
use crate::laws::{lemma_scan_outcome, lemma_well_formed_scans};
use crate::statement::{all_program_chars, program_tokens, well_formed};
use crate::token::{models, ScanError, Token, TokenModel};

verus! {

/// `String::push` of the standard library: the buffer afterwards is the
/// buffer before with `c` appended at its end.
pub assume_specification[ String::push ](buffer: &mut String, c: char)
    ensures
        final(buffer)@ == old(buffer)@.push(c),
;

/// A scan in progress: the token under construction and the tokens
/// committed before it.
#[derive(Debug, PartialEq, Eq)]
pub struct Scanner {
    pub accumulator: Token,
    pub output: Vec<Token>,
}

impl View for Scanner {
    type V = ScanState;

    open spec fn view(&self) -> ScanState {
        ScanState { output: models(self.output@), accumulator: self.accumulator@ }
    }
}

/// What a step that may abandon the scan amounts to in the model.
pub open spec fn step_model(step: Result<Scanner, ScanError>) -> Result<ScanState, ScanError> {
    match step {
        Ok(scanner) => Ok(scanner@),
        Err(error) => Err(error),
    }
}

/// What a finished scan amounts to in the model.
pub open spec fn scan_model(outcome: Result<Vec<Token>, ScanError>) -> Result<
    Seq<TokenModel>,
    ScanError,
> {
    match outcome {
        Ok(tokens) => Ok(models(tokens@)),
        Err(error) => Err(error),
    }
}

impl Scanner {
    /// A scanner that has read nothing.
    pub fn new() -> (scanner: Scanner)
        ensures
            scanner@ == initial(),
    {
        let scanner = Scanner { accumulator: Token::Empty, output: Vec::new() };
        assert(scanner@.output =~= initial().output);
        scanner
    }

    /// Commits the accumulator to the output and empties it.
    pub fn commit(self) -> (next: Scanner)
        ensures
            next@ == committed(self@),
    {
        let Scanner { accumulator, mut output } = self;
        output.push(accumulator);
        let next = Scanner { accumulator: Token::Empty, output };
        assert(next@.output =~= committed(self@).output);
        next
    }

    /// Takes one decimal digit.
    pub fn push_digit(self, c: char) -> (step: Result<Scanner, ScanError>)
        requires
            is_digit(c),
            takes_digit(self@.accumulator),
        ensures
            step_model(step) == after_digit(self@, c),
    {
        let Scanner { accumulator, mut output } = self;
        match accumulator {
            Token::Empty => Ok(Scanner { accumulator: Token::Int(digit_of(c)), output }),
            Token::Int(value) => Ok(
                Scanner { accumulator: Token::Int(merge_digit(value, c)), output },
            ),
            Token::Str(mut buffer) => {
                buffer.push(c);
                Ok(Scanner { accumulator: Token::Str(buffer), output })
            },
            Token::Var(mut buffer) => {
                buffer.push(c);
                Ok(Scanner { accumulator: Token::Var(buffer), output })
            },
            Token::Char(_) | Token::CloseParen => Err(ScanError::InvalidToken),
            Token::OpenParen
            | Token::Add
            | Token::Minus
            | Token::Multiply
            | Token::Divide
            | Token::Modulo
            | Token::EndStmt => {
                output.push(accumulator);
                let next = Scanner { accumulator: Token::Int(digit_of(c)), output };
                assert(next@.output =~= self@.output.push(self@.accumulator));
                Ok(next)
            },
            Token::Dec(_) => vstd::pervasive::unreached(),
        }
    }

    /// Takes one character of the source text.
    pub fn feed(self, c: char) -> (step: Result<Scanner, ScanError>)
        requires
            is_digit(c) ==> takes_digit(self@.accumulator),
        ensures
            step_model(step) == after_char(self@, c),
    {
        if c == ';' {
            Ok(self.commit())
        } else if '0' <= c && c <= '9' {
            self.push_digit(c)
        } else {
            Err(ScanError::UnhandledCharacter(c))
        }
    }

    /// Ends the scan and hands over the output.
    pub fn finish(self) -> (outcome: Result<Vec<Token>, ScanError>)
        ensures
            scan_model(outcome) == finished(self@),
    {
        let Scanner { accumulator, mut output } = self;
        match accumulator {
            Token::Empty => {
                output.push(accumulator);
                assert(models(output@) =~= self@.output.push(TokenModel::Empty));
                Ok(output)
            },
            _ => Err(ScanError::MissingTerminator),
        }
    }
}

/// Scans a whole program: the tokens of its statements in order, closed by
/// an `Empty` marker, or the reason the scan was abandoned.
pub fn scan(program: &str) -> (outcome: Result<Vec<Token>, ScanError>)
    ensures
        scan_model(outcome) == scanned(program@),
        outcome matches Ok(tokens) ==> models(tokens@) == program_tokens(program@),
        outcome is Ok <==> well_formed(program@),
        outcome matches Err(ScanError::MissingTerminator) <==> all_program_chars(program@)
            && !well_formed(program@),
        outcome matches Err(ScanError::UnhandledCharacter(_)) <==> !all_program_chars(program@),
{
    proof {
        lemma_scan_outcome(program@);
        if well_formed(program@) {
            lemma_well_formed_scans(program@);
        }
    }
    let mut scanner = Scanner::new();
    for c in chars: program.chars()
        invariant
            chars.seq() == program@,
            after_chars(initial(), program@.take(chars.index() as int)) == Ok::<
                ScanState,
                ScanError,
            >(scanner@),
            scanner@.accumulator is Empty || scanner@.accumulator is Int,
    {
        proof {
            lemma_after_chars_extends(initial(), program@, chars.index() as int);
        }
        match scanner.feed(c) {
            Ok(next) => {
                scanner = next;
            },
            Err(error) => {
                proof {
                    lemma_error_persists(initial(), program@, chars.index() + 1);
                }
                return Err(error);
            },
        }
    }
    assert(program@.take(program@.len() as int) =~= program@);
    scanner.finish()
}

/// The tokens of a well-formed program: those of its statements in order,
/// then the closing `Empty` marker.
///
/// A program that is not well formed has no tokens; [`scan`] tells which
/// programs those are, and why.
pub fn tokenizer(program: &str) -> (tokens: Vec<Token>)
    requires
        well_formed(program@),
    ensures
        models(tokens@) == program_tokens(program@),
        scanned(program@) == Ok::<Seq<TokenModel>, ScanError>(models(tokens@)),
{
    proof {
        lemma_well_formed_scans(program@);
    }
    match scan(program) {
        Ok(tokens) => tokens,
        Err(_) => vstd::pervasive::unreached(),
    }
}

} // verus!
