//! The phases of a round and the order in which a round passes through
//! them.
//!
//! A round starts in `AwaitingInput`. Once a line was read it is `Parsing`;
//! the guess is then `Decided` one way or another, which is when the
//! outcome's line goes out; and with that the round is `Done`. When the
//! input had ended before anything was read, the round never leaves
//! `AwaitingInput` and has nothing to say.

use vstd::prelude::*;
use crate::guess::{outcome_line, outcome_of, response, GuessChecker, Outcome, ReadFailure};

verus! {

/// Where a round stands.
#[derive(Clone, Copy, Debug, PartialEq, Eq, Structural)]
pub enum Phase {
    /// Nothing was read yet.
    AwaitingInput,
    /// A line was read and is being read as a guess.
    Parsing,
    /// The guess fared as the outcome says.
    Decided(Outcome),
    /// The outcome was reported.
    Done,
}

/// The phase that follows `phase` in a round on `raw` against `target`, if
/// one does.
pub open spec fn successor(phase: Phase, raw: Seq<char>, target: i8) -> Option<Phase> {
    match phase {
        Phase::AwaitingInput => if raw.len() == 0 {
            None
        } else {
            Some(Phase::Parsing)
        },
        Phase::Parsing => Some(Phase::Decided(outcome_of(raw, target))),
        Phase::Decided(_) => Some(Phase::Done),
        Phase::Done => None,
    }
}

/// The line that goes out when a round enters `phase`, if one does.
pub open spec fn emitted(phase: Phase, target: i8) -> Option<Seq<char>> {
    match phase {
        Phase::Decided(outcome) => Some(outcome_line(outcome, target)),
        _ => None,
    }
}

impl GuessChecker {
    /// Takes a round on `raw` from `phase` to the phase after it, if there
    /// is one.
    pub fn advance(&self, phase: Phase, raw: &str) -> (next: Option<Phase>)
        ensures
            next == successor(phase, raw@, self@),
    {
        match phase {
            Phase::AwaitingInput => if raw.is_empty() {
                None
            } else {
                Some(Phase::Parsing)
            },
            Phase::Parsing => Some(Phase::Decided(self.judge(raw))),
            Phase::Decided(_) => Some(Phase::Done),
            Phase::Done => None,
        }
    }
}

/// No phase leads back to `AwaitingInput`: a round takes one line and no
/// more.
pub proof fn lemma_input_awaited_once(phase: Phase, raw: Seq<char>, target: i8)
    ensures
        successor(phase, raw, target) != Some(Phase::AwaitingInput),
{
}

/// Nothing follows `Done`.
pub proof fn lemma_done_is_final(raw: Seq<char>, target: i8)
    ensures
        successor(Phase::Done, raw, target) is None,
{
}

/// A round on a line that was read goes from `AwaitingInput` through
/// `Parsing` and through the one outcome that the line has to `Done`. One
/// line goes out on the way, and it is the round's response.
pub proof fn lemma_round_reaches_done(raw: Seq<char>, target: i8)
    requires
        raw.len() > 0,
    ensures
        successor(Phase::AwaitingInput, raw, target) == Some(Phase::Parsing),
        successor(Phase::Parsing, raw, target) == Some(
            Phase::Decided(outcome_of(raw, target)),
        ),
        successor(Phase::Decided(outcome_of(raw, target)), raw, target) == Some(Phase::Done),
        emitted(Phase::AwaitingInput, target) is None,
        emitted(Phase::Parsing, target) is None,
        emitted(Phase::Done, target) is None,
        response(raw, target) == Ok::<Seq<char>, ReadFailure>(
            emitted(Phase::Decided(outcome_of(raw, target)), target)->0,
        ),
{
}

/// A round on an input that had ended stays in `AwaitingInput`, where no
/// line goes out, and its response is the failure.
pub proof fn lemma_round_without_input(raw: Seq<char>, target: i8)
    requires
        raw.len() == 0,
    ensures
        successor(Phase::AwaitingInput, raw, target) is None,
        emitted(Phase::AwaitingInput, target) is None,
        response(raw, target) == Err::<Seq<char>, ReadFailure>(ReadFailure::EndOfStream),
{
}

} // verus!
