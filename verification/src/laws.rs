//! Laws of the scan: what the machine computes, read statement by
//! statement, and what follows for whole programs.

use vstd::prelude::*;
use crate::digits::{
    decimal_value, digit_value, is_digit, lemma_wrap_in_range, lemma_wrap_merge, wrap,
};
use crate::machine::{
    after_chars, initial, is_terminator, lemma_after_chars_extends, lemma_error_persists, scanned,
    ScanState,
};
use crate::statement::{
    all_digits, all_program_chars, is_program_char, open_run, program_tokens, statement_token,
    statements, terminators, well_formed,
};
use crate::scanner::scan_model;
use crate::token::{ScanError, Token, TokenModel};
use vstd::arithmetic::power::pow;

verus! {

// Reading a run of digits

/// Left-to-right positional reading: the first digit of a run weighs ten
/// to the number of digits after it.
pub proof fn lemma_leading_digit_weight(c: char, rest: Seq<char>)
    ensures
        decimal_value(seq![c] + rest) == digit_value(c) * pow(10, rest.len()) + decimal_value(
            rest,
        ),
    decreases rest.len(),
{
    let whole = seq![c] + rest;
    reveal(pow);
    if rest.len() == 0 {
        assert(decimal_value(whole.drop_last()) == 0);
    } else {
        assert(whole.drop_last() =~= seq![c] + rest.drop_last());
        lemma_leading_digit_weight(c, rest.drop_last());
        let weight = pow(10, (rest.len() - 1) as nat);
        assert((digit_value(c) * weight + decimal_value(rest.drop_last())) * 10 == digit_value(c)
            * (10 * weight) + decimal_value(rest.drop_last()) * 10) by (nonlinear_arith);
    }
}

/// The reading of a run of digits is not negative and not below the reading
/// of the run without its last digit.
pub proof fn lemma_decimal_value_bounds(run: Seq<char>)
    requires
        all_digits(run),
    ensures
        0 <= decimal_value(run),
        run.len() > 0 ==> decimal_value(run.drop_last()) <= decimal_value(run),
    decreases run.len(),
{
    if run.len() > 0 {
        lemma_decimal_value_bounds(run.drop_last());
    }
}

/// The positional reading of a run that fits in 64 bits is kept exactly.
pub proof fn lemma_decimal_value_kept(run: Seq<char>)
    requires
        all_digits(run),
        decimal_value(run) <= i64::MAX,
    ensures
        0 <= decimal_value(run),
        wrap(decimal_value(run)) == decimal_value(run),
{
    lemma_decimal_value_bounds(run);
    lemma_wrap_in_range(decimal_value(run));
}

// The machine against the statement-by-statement reading

/// The open statement holds digits only, and is empty exactly when the run
/// read so far is empty or ends in a terminator.
pub proof fn lemma_open_run_digits(chars: Seq<char>)
    requires
        all_program_chars(chars),
    ensures
        all_digits(open_run(chars)),
        open_run(chars).len() == 0 <==> (chars.len() == 0 || is_terminator(chars.last())),
    decreases chars.len(),
{
    if chars.len() > 0 && !is_terminator(chars.last()) {
        lemma_open_run_digits(chars.drop_last());
    }
}

/// After any run of digits and terminators the machine has committed the
/// tokens of the closed statements and holds the token of the open one.
pub proof fn lemma_machine_reads_statements(chars: Seq<char>)
    requires
        all_program_chars(chars),
    ensures
        after_chars(initial(), chars) == Ok::<ScanState, ScanError>(
            ScanState {
                output: statements(chars),
                accumulator: statement_token(open_run(chars)),
            },
        ),
    decreases chars.len(),
{
    if chars.len() > 0 {
        let front = chars.drop_last();
        let c = chars.last();
        lemma_machine_reads_statements(front);
        if !is_terminator(c) {
            let run = open_run(front);
            assert(open_run(chars).drop_last() =~= run);
            if run.len() == 0 {
                assert(decimal_value(run) == 0);
            } else {
                lemma_wrap_merge(decimal_value(run), digit_value(c));
            }
        }
    }
}

// Which programs are accepted, and how the others fail

/// The place of the first character that no program may hold.
pub proof fn first_foreign(chars: Seq<char>) -> (i: int)
    requires
        !all_program_chars(chars),
    ensures
        0 <= i < chars.len(),
        !is_program_char(chars[i]),
        all_program_chars(chars.take(i)),
    decreases chars.len(),
{
    let front = chars.drop_last();
    if all_program_chars(front) {
        if is_program_char(chars.last()) {
            assert forall|k: int| 0 <= k < chars.len() implies is_program_char(
                #[trigger] chars[k],
            ) by {
                if k < front.len() {
                    assert(front[k] == chars[k]);
                }
            }
        }
        chars.len() - 1
    } else {
        let i = first_foreign(front);
        assert(chars.take(i) =~= front.take(i));
        i
    }
}

/// A well-formed program is scanned to the tokens of its statements and the
/// closing marker.
pub proof fn lemma_well_formed_scans(program: Seq<char>)
    requires
        well_formed(program),
    ensures
        scanned(program) == Ok::<Seq<TokenModel>, ScanError>(program_tokens(program)),
{
    lemma_machine_reads_statements(program);
    lemma_open_run_digits(program);
}

/// A program that ends inside a run of digits is abandoned for its missing
/// terminator.
pub proof fn lemma_open_statement_rejected(program: Seq<char>)
    requires
        all_program_chars(program),
        program.len() > 0,
        is_digit(program.last()),
    ensures
        scanned(program) == Err::<Seq<TokenModel>, ScanError>(ScanError::MissingTerminator),
{
    lemma_machine_reads_statements(program);
    lemma_open_run_digits(program);
}

/// A program whose last character is a digit is never accepted: its last
/// statement is left open.
pub proof fn lemma_unterminated_rejected(program: Seq<char>)
    requires
        program.len() > 0,
        is_digit(program.last()),
    ensures
        scanned(program) is Err,
{
    lemma_scan_outcome(program);
}

/// The first character that is neither a digit nor a terminator abandons
/// the scan, and is the one reported.
pub proof fn lemma_first_foreign_reported(program: Seq<char>, i: int)
    requires
        0 <= i < program.len(),
        !is_program_char(program[i]),
        all_program_chars(program.take(i)),
    ensures
        scanned(program) == Err::<Seq<TokenModel>, ScanError>(
            ScanError::UnhandledCharacter(program[i]),
        ),
{
    lemma_machine_reads_statements(program.take(i));
    lemma_after_chars_extends(initial(), program, i);
    lemma_error_persists(initial(), program, i + 1);
}

/// A character that is neither a digit nor a terminator abandons the scan
/// wherever it stands: the scan reports an unhandled character.
pub proof fn lemma_foreign_character_rejected(program: Seq<char>, i: int)
    requires
        0 <= i < program.len(),
        !is_program_char(program[i]),
    ensures
        scanned(program) matches Err(ScanError::UnhandledCharacter(c)) && !is_program_char(c),
{
    let first = first_foreign(program);
    lemma_first_foreign_reported(program, first);
}

/// From the initial state the machine goes on exactly as long as it reads
/// digits and terminators, and the accumulator it then holds is `Empty` or
/// an integer: no other variant is reached.
pub proof fn lemma_reached_states(chars: Seq<char>)
    ensures
        after_chars(initial(), chars) is Ok <==> all_program_chars(chars),
        after_chars(initial(), chars) matches Ok(state) ==> state.accumulator is Empty
            || state.accumulator is Int,
{
    if all_program_chars(chars) {
        lemma_machine_reads_statements(chars);
    } else {
        let i = first_foreign(chars);
        lemma_machine_reads_statements(chars.take(i));
        lemma_after_chars_extends(initial(), chars, i);
        lemma_error_persists(initial(), chars, i + 1);
    }
}

/// Which programs are accepted, and which error each of the others gets.
pub proof fn lemma_scan_outcome(program: Seq<char>)
    ensures
        scanned(program) is Ok <==> well_formed(program),
        scanned(program) == Err::<Seq<TokenModel>, ScanError>(ScanError::MissingTerminator)
            <==> all_program_chars(program) && !well_formed(program),
        scanned(program) matches Err(ScanError::UnhandledCharacter(_)) <==> !all_program_chars(
            program,
        ),
        scanned(program) != Err::<Seq<TokenModel>, ScanError>(ScanError::InvalidToken),
{
    if !all_program_chars(program) {
        let first = first_foreign(program);
        lemma_first_foreign_reported(program, first);
    } else if well_formed(program) {
        lemma_well_formed_scans(program);
    } else {
        lemma_open_statement_rejected(program);
    }
}

// The tokens of a program, statement by statement

/// One token is committed for each terminator.
pub proof fn lemma_statements_len(chars: Seq<char>)
    ensures
        statements(chars).len() == terminators(chars),
    decreases chars.len(),
{
    if chars.len() > 0 {
        lemma_statements_len(chars.drop_last());
    }
}

/// Every token of a program is an integer or `Empty`, and the last one is
/// the closing `Empty` marker.
pub proof fn lemma_program_tokens_shape(program: Seq<char>)
    ensures
        program_tokens(program).len() == terminators(program) + 1,
        program_tokens(program).last() is Empty,
        forall|k: int|
            0 <= k < program_tokens(program).len() ==> (#[trigger] program_tokens(program)[k]
                is Empty || program_tokens(program)[k] is Int),
    decreases program.len(),
{
    lemma_statements_len(program);
    if program.len() > 0 {
        let front = program.drop_last();
        lemma_program_tokens_shape(front);
        assert forall|k: int| 0 <= k < program_tokens(program).len() implies (
            #[trigger] program_tokens(program)[k] is Empty || program_tokens(program)[k] is Int
        ) by {
            if k < statements(front).len() {
                assert(program_tokens(program)[k] == program_tokens(front)[k]);
            }
        }
    }
}

/// What was committed stays: reading further characters leaves the tokens
/// of the statements already closed as they are.
pub proof fn lemma_statements_stay(chars: Seq<char>, n: int, k: int)
    requires
        0 <= n <= chars.len(),
        0 <= k < terminators(chars.take(n)),
    ensures
        k < statements(chars).len(),
        statements(chars)[k] == statements(chars.take(n))[k],
    decreases chars.len(),
{
    lemma_statements_len(chars.take(n));
    if n == chars.len() {
        assert(chars.take(n) =~= chars);
    } else {
        assert(chars.drop_last().take(n) =~= chars.take(n));
        lemma_statements_stay(chars.drop_last(), n, k);
    }
}

/// A run of digits that starts a statement is the open statement at its
/// end, and no terminator lies inside it.
pub proof fn lemma_open_run_is_digit_run(chars: Seq<char>, start: int, end: int)
    requires
        0 <= start <= end <= chars.len(),
        start == 0 || is_terminator(chars[start - 1]),
        all_digits(chars.subrange(start, end)),
    ensures
        open_run(chars.take(end)) == chars.subrange(start, end),
        terminators(chars.take(end)) == terminators(chars.take(start)),
    decreases end - start,
{
    if start < end {
        let run = chars.subrange(start, end);
        assert(is_digit(run[end - 1 - start]));
        assert(chars.take(end).drop_last() =~= chars.take(end - 1));
        lemma_open_run_is_digit_run(chars, start, end - 1);
    }
}

/// The token of a statement: where a run of digits, empty or not, stands
/// between the start of the program or a terminator and the next
/// terminator, the program's token at that statement's place is the token
/// of the run.
pub proof fn lemma_statement_token(program: Seq<char>, start: int, end: int)
    requires
        0 <= start <= end < program.len(),
        start == 0 || is_terminator(program[start - 1]),
        all_digits(program.subrange(start, end)),
        is_terminator(program[end]),
    ensures
        terminators(program.take(start)) < statements(program).len(),
        program_tokens(program)[terminators(program.take(start)) as int] == statement_token(
            program.subrange(start, end),
        ),
{
    let k = terminators(program.take(start)) as int;
    lemma_open_run_is_digit_run(program, start, end);
    assert(program.take(end + 1).drop_last() =~= program.take(end));
    lemma_statements_len(program.take(end));
    lemma_statements_stay(program, end + 1, k);
}

/// The integer of a statement: a non-empty run of digits closed by a
/// terminator, whose base-10 reading fits in 64 bits, is scanned to the
/// integer it reads as.
pub proof fn lemma_digit_run_value(program: Seq<char>, start: int, end: int)
    requires
        well_formed(program),
        0 <= start < end < program.len(),
        start == 0 || is_terminator(program[start - 1]),
        all_digits(program.subrange(start, end)),
        is_terminator(program[end]),
        decimal_value(program.subrange(start, end)) <= i64::MAX,
    ensures
        scanned(program) matches Ok(tokens) && terminators(program.take(start)) < tokens.len()
            && tokens[terminators(program.take(start)) as int] == TokenModel::Int(
            decimal_value(program.subrange(start, end)) as i64,
        ),
{
    lemma_well_formed_scans(program);
    lemma_statement_token(program, start, end);
    lemma_decimal_value_kept(program.subrange(start, end));
}

// Programs made of programs

/// After a closed statement the reading starts afresh: the statements of
/// what follows are read as if they stood alone.
pub proof fn lemma_statements_concatenate(first: Seq<char>, rest: Seq<char>)
    requires
        first.len() == 0 || is_terminator(first.last()),
    ensures
        statements(first + rest) == statements(first) + statements(rest),
        open_run(first + rest) == open_run(rest),
    decreases rest.len(),
{
    let whole = first + rest;
    if rest.len() > 0 {
        assert(whole.drop_last() =~= first + rest.drop_last());
        lemma_statements_concatenate(first, rest.drop_last());
    }
}

/// Programs concatenate: after a well-formed program, what follows is
/// scanned as if it stood alone, and its tokens follow those of the first
/// program's statements.
pub proof fn lemma_programs_concatenate(first: Seq<char>, rest: Seq<char>)
    requires
        well_formed(first),
    ensures
        scanned(first + rest) == (match scanned(rest) {
            Ok(tokens) => Ok::<Seq<TokenModel>, ScanError>(statements(first) + tokens),
            Err(error) => Err(error),
        }),
{
    let whole = first + rest;
    if !all_program_chars(rest) {
        let i = first_foreign(rest);
        lemma_first_foreign_reported(rest, i);
        let place = first.len() + i;
        assert forall|k: int| 0 <= k < place implies is_program_char(
            #[trigger] whole.take(place)[k],
        ) by {
            if k >= first.len() {
                assert(whole.take(place)[k] == rest.take(i)[k - first.len()]);
            }
        }
        lemma_first_foreign_reported(whole, place);
    } else if well_formed(rest) {
        lemma_well_formed_scans(rest);
        lemma_well_formed_scans(whole);
        lemma_statements_concatenate(first, rest);
    } else {
        lemma_open_statement_rejected(rest);
        lemma_open_statement_rejected(whole);
    }
}

/// A leading terminator commits an `Empty` token first; what follows is
/// scanned as if it stood alone.
pub proof fn lemma_leading_terminator(rest: Seq<char>)
    ensures
        scanned(seq![';'] + rest) == (match scanned(rest) {
            Ok(tokens) => Ok::<Seq<TokenModel>, ScanError>(seq![TokenModel::Empty] + tokens),
            Err(error) => Err(error),
        }),
{
    let first = seq![';'];
    assert(statements(first.drop_last()) =~= Seq::<TokenModel>::empty());
    lemma_programs_concatenate(first, rest);
}

// Repeated scans

/// Scanning is a function of the text alone: two scans of the same text
/// end alike, whenever and in whatever order they are made.
pub proof fn lemma_scan_repeatable(
    first_text: &str,
    second_text: &str,
    first: Result<Vec<Token>, ScanError>,
    second: Result<Vec<Token>, ScanError>,
)
    requires
        first_text@ == second_text@,
        scan_model(first) == scanned(first_text@),
        scan_model(second) == scanned(second_text@),
    ensures
        scan_model(first) == scan_model(second),
{
}

} // verus!
