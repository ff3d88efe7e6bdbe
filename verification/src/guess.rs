//! One round of the guessing game.
//!
//! A round takes what one read of a line returned, trims it, reads it as a
//! number and compares that number with the target. What it reports depends
//! on that text and on the target, and on nothing else.

use vstd::prelude::*;
use crate::number::{
    decimal, decimal_text, digits_of, is_digit, lemma_decimal_round_trip,
    lemma_digits_round_trip, parse_guess, parsed_guess,
};
use crate::text::{is_whitespace, lemma_trimmed_padding, lemma_trimmed_unpadded, trim, trimmed};

verus! {

/// The number to be guessed.
pub const TARGET: i8 = 3;

/// How a guess fared.
#[derive(Clone, Copy, Debug, PartialEq, Eq, Structural)]
pub enum Outcome {
    /// The text is a number, and that number is the target.
    Matched,
    /// The text is a number other than the target.
    NotMatched,
    /// The text is not a number that a guess can be.
    ParseFailed,
}

/// Why a round could not take place.
#[derive(Clone, Copy, Debug, PartialEq, Eq, Structural)]
pub enum ReadFailure {
    /// The input had ended before a single character was read.
    EndOfStream,
}

/// How the guess in the line `raw` fares against `target`.
pub open spec fn outcome_of(raw: Seq<char>, target: i8) -> Outcome {
    match parsed_guess(trimmed(raw)) {
        Some(guess) => if guess == target {
            Outcome::Matched
        } else {
            Outcome::NotMatched
        },
        None => Outcome::ParseFailed,
    }
}

/// The line that reports `outcome`. Only a match names the target.
pub open spec fn outcome_line(outcome: Outcome, target: i8) -> Seq<char> {
    match outcome {
        Outcome::Matched => "You got the number correct: "@ + decimal(target as int) + "!"@,
        Outcome::NotMatched => "You guessed the wrong number"@,
        Outcome::ParseFailed => "Invalid input"@,
    }
}

/// What a round answers to `raw`: a failure when nothing was read, and
/// otherwise the line for the outcome of the guess.
pub open spec fn response(raw: Seq<char>, target: i8) -> Result<Seq<char>, ReadFailure> {
    if raw.len() == 0 {
        Err(ReadFailure::EndOfStream)
    } else {
        Ok(outcome_line(outcome_of(raw, target), target))
    }
}

/// Rounds on the same text against the same target answer the same: the
/// answer hangs on nothing that one round could leave behind for the next.
pub proof fn lemma_same_input_same_response(
    first: Seq<char>,
    first_target: i8,
    second: Seq<char>,
    second_target: i8,
)
    requires
        first == second,
        first_target == second_target,
    ensures
        response(first, first_target) == response(second, second_target),
        outcome_of(first, first_target) == outcome_of(second, second_target),
{
}

/// Whitespace around a guess, the line terminator included, does not change
/// how the guess fares.
pub proof fn lemma_padding_ignored(
    before: Seq<char>,
    guess: Seq<char>,
    after: Seq<char>,
    target: i8,
)
    requires
        forall|i: int| 0 <= i < before.len() ==> is_whitespace(#[trigger] before[i]),
        forall|i: int| 0 <= i < after.len() ==> is_whitespace(#[trigger] after[i]),
    ensures
        outcome_of(before + guess + after, target) == outcome_of(guess, target),
{
    lemma_trimmed_padding(before, guess, after);
}

/// The target, written the way the line for a match writes it, is a guess
/// that matches.
pub proof fn lemma_target_text_matches(target: i8)
    ensures
        outcome_of(decimal(target as int), target) == Outcome::Matched,
{
    let text = decimal(target as int);
    let digits = digits_of(vstd::math::abs(target as int));
    lemma_digits_round_trip(vstd::math::abs(target as int));
    assert(is_digit(digits.first()) && is_digit(digits.last()));
    assert(text.last() == digits.last());
    lemma_trimmed_unpadded(text);
    lemma_decimal_round_trip(target);
}

/// The text that asks for a guess. It ends without a line terminator.
pub fn prompt() -> (text: &'static str)
    ensures
        text@ == "Guess the number: "@,
{
    "Guess the number: "
}

/// Judges guesses against a target that is fixed when it is made.
pub struct GuessChecker {
    target: i8,
}

impl View for GuessChecker {
    type V = i8;

    closed spec fn view(&self) -> i8 {
        self.target
    }
}

impl GuessChecker {
    /// A checker for `target`.
    pub fn new(target: i8) -> (checker: Self)
        ensures
            checker@ == target,
    {
        GuessChecker { target }
    }

    /// The number to be guessed.
    pub fn target(&self) -> (target: i8)
        ensures
            target == self@,
    {
        self.target
    }

    /// Judges the guess in `raw`, a line with or without its terminator.
    pub fn judge(&self, raw: &str) -> (outcome: Outcome)
        ensures
            outcome == outcome_of(raw@, self@),
    {
        match parse_guess(trim(raw)) {
            Some(guess) => if guess == self.target {
                Outcome::Matched
            } else {
                Outcome::NotMatched
            },
            None => Outcome::ParseFailed,
        }
    }

    /// The line that reports `outcome`, without a line terminator.
    pub fn announce(&self, outcome: Outcome) -> (line: String)
        ensures
            line@ == outcome_line(outcome, self@),
    {
        match outcome {
            Outcome::Matched => {
                let mut line = String::from_str("You got the number correct: ");
                line.append(decimal_text(self.target).as_str());
                line.append("!");
                line
            },
            Outcome::NotMatched => String::from_str("You guessed the wrong number"),
            Outcome::ParseFailed => String::from_str("Invalid input"),
        }
    }

    /// Plays one round on `raw`, what one read of a line returned: the line
    /// with its terminator, or nothing at all when the input had ended.
    pub fn respond(&self, raw: &str) -> (answer: Result<String, ReadFailure>)
        ensures
            answer is Ok <==> raw@.len() > 0,
            match answer {
                Ok(line) => response(raw@, self@) == Ok::<Seq<char>, ReadFailure>(line@),
                Err(failure) => response(raw@, self@) == Err::<Seq<char>, ReadFailure>(failure),
            },
    {
        if raw.is_empty() {
            Err(ReadFailure::EndOfStream)
        } else {
            Ok(self.announce(self.judge(raw)))
        }
    }
}

} // verus!
