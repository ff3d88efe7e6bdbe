use rust_basics::guess::{GuessChecker, Outcome};
use rust_basics::phase::Phase;

fn walk(checker: &GuessChecker, raw: &str) -> Vec<Phase> {
    let mut phases = vec![Phase::AwaitingInput];
    let mut phase = Phase::AwaitingInput;
    while let Some(next) = checker.advance(phase, raw) {
        phases.push(next);
        phase = next;
        assert!(phases.len() <= 4);
    }
    phases
}

#[test]
fn matching_round_passes_four_phases() {
    let checker = GuessChecker::new(3);
    assert_eq!(
        walk(&checker, "3\n"),
        vec![Phase::AwaitingInput, Phase::Parsing, Phase::Decided(Outcome::Matched), Phase::Done]
    );
}

#[test]
fn wrong_round_passes_four_phases() {
    let checker = GuessChecker::new(3);
    assert_eq!(
        walk(&checker, "7\n"),
        vec![Phase::AwaitingInput, Phase::Parsing, Phase::Decided(Outcome::NotMatched), Phase::Done]
    );
}

#[test]
fn invalid_round_passes_four_phases() {
    let checker = GuessChecker::new(3);
    assert_eq!(
        walk(&checker, "abc\n"),
        vec![Phase::AwaitingInput, Phase::Parsing, Phase::Decided(Outcome::ParseFailed), Phase::Done]
    );
}

#[test]
fn round_without_input_stays_put() {
    let checker = GuessChecker::new(3);
    assert_eq!(checker.advance(Phase::AwaitingInput, ""), None);
    assert_eq!(walk(&checker, ""), vec![Phase::AwaitingInput]);
}

#[test]
fn done_has_no_successor() {
    let checker = GuessChecker::new(3);
    for raw in ["", "3", "7\n", "abc"] {
        assert_eq!(checker.advance(Phase::Done, raw), None);
    }
}

#[test]
fn every_outcome_leads_to_done() {
    let checker = GuessChecker::new(3);
    for outcome in [Outcome::Matched, Outcome::NotMatched, Outcome::ParseFailed] {
        for raw in ["", "3", "7\n", "abc"] {
            assert_eq!(checker.advance(Phase::Decided(outcome), raw), Some(Phase::Done));
        }
    }
}

#[test]
fn no_phase_leads_back_to_awaiting_input() {
    let checker = GuessChecker::new(3);
    let phases = [
        Phase::AwaitingInput,
        Phase::Parsing,
        Phase::Decided(Outcome::Matched),
        Phase::Decided(Outcome::NotMatched),
        Phase::Decided(Outcome::ParseFailed),
        Phase::Done,
    ];
    for phase in phases {
        for raw in ["", "3", "7\n", "abc", "  3  "] {
            assert_ne!(checker.advance(phase, raw), Some(Phase::AwaitingInput));
        }
    }
}

#[test]
fn decided_phase_carries_the_judged_outcome() {
    let checker = GuessChecker::new(3);
    for raw in ["3", "7", "abc", "  3  ", "999", "\n"] {
        assert_eq!(
            checker.advance(Phase::Parsing, raw),
            Some(Phase::Decided(checker.judge(raw)))
        );
    }
}
