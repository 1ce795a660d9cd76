use wordle::Match::{FULL, HALF, NONE};
use wordle::{next_round, play_turn, GuessError, Outcome, State, Turn};

fn round_with(secret: &str, max_attempts: u64) -> State {
    let mut state = State::init(max_attempts);
    assert!(state.begin_round_with(Some(&String::from(secret))));
    state
}

#[test]
fn rejected_line_counts_no_attempt() {
    let mut state = round_with("ABCDE", 6);
    assert_eq!(play_turn(&mut state, "abc\n"), Turn::Rejected(GuessError::WrongLength));
    assert_eq!(play_turn(&mut state, "abcd3\n"), Turn::Rejected(GuessError::NotAlphabetic));
    assert_eq!(play_turn(&mut state, "\n"), Turn::Rejected(GuessError::WrongLength));
    assert_eq!(state.attempts(), 0);
    assert_eq!(state.chosen(), Some(&String::from("ABCDE")));
}

#[test]
fn typed_guess_is_scored_in_capitals() {
    let mut state = round_with("ABCDE", 6);
    let turn = play_turn(&mut state, "  edcba\n");
    assert_eq!(
        turn,
        Turn::Scored {
            guess: String::from("EDCBA"),
            matches: [HALF, HALF, FULL, HALF, HALF],
            outcome: Outcome::Continue,
        }
    );
    assert_eq!(state.attempts(), 1);
}

#[test]
fn six_wrong_lines_lose_the_round() {
    let mut state = round_with("ABCDE", wordle::MAX_ATTEMPTS);
    for made in 1..=6u64 {
        let turn = play_turn(&mut state, "fghij\n");
        let expected = if made == 6 { Outcome::Lost } else { Outcome::Continue };
        assert_eq!(
            turn,
            Turn::Scored {
                guess: String::from("FGHIJ"),
                matches: [NONE, NONE, NONE, NONE, NONE],
                outcome: expected,
            }
        );
        assert_eq!(state.attempts(), made);
    }
}

#[test]
fn rejected_lines_between_guesses_do_not_bring_the_loss_nearer() {
    let mut state = round_with("ABCDE", 2);
    assert_eq!(play_turn(&mut state, "no\n"), Turn::Rejected(GuessError::WrongLength));
    match play_turn(&mut state, "fghij\n") {
        Turn::Scored { outcome, .. } => assert_eq!(outcome, Outcome::Continue),
        other => panic!("unexpected turn {:?}", other),
    }
    assert_eq!(play_turn(&mut state, "n0pe!\n"), Turn::Rejected(GuessError::NotAlphabetic));
    match play_turn(&mut state, "fghij\n") {
        Turn::Scored { outcome, .. } => assert_eq!(outcome, Outcome::Lost),
        other => panic!("unexpected turn {:?}", other),
    }
    assert_eq!(state.attempts(), 2);
}

#[test]
fn right_line_wins_before_the_attempts_are_used() {
    let mut state = round_with("HELLO", 6);
    play_turn(&mut state, "world\n");
    let turn = play_turn(&mut state, "hello\n");
    assert_eq!(
        turn,
        Turn::Scored {
            guess: String::from("HELLO"),
            matches: [FULL, FULL, FULL, FULL, FULL],
            outcome: Outcome::Won,
        }
    );
    assert_eq!(state.attempts(), 2);
}

#[test]
fn guess_without_a_round_is_not_scored() {
    let mut state = State::init(6);
    assert_eq!(play_turn(&mut state, "hello\n"), Turn::NoActiveSecret);
    assert_eq!(play_turn(&mut state, "hell\n"), Turn::Rejected(GuessError::WrongLength));
    assert_eq!(state.attempts(), 0);
}

#[test]
fn small_y_ends_the_round_for_the_next_one() {
    let mut state = round_with("ABCDE", 6);
    play_turn(&mut state, "fghij\n");
    assert_eq!(next_round(&mut state, "y\n"), Some(true));
    assert_eq!(state.chosen(), None);
    assert_eq!(state.attempts(), 0);
    assert_eq!(state.max_attempts(), 6);
}

#[test]
fn capital_n_and_other_lines_leave_the_round() {
    let mut state = round_with("ABCDE", 6);
    play_turn(&mut state, "fghij\n");
    for line in ["n\n", "Y\n", "yes\n", "\n", "no\n"] {
        assert_eq!(next_round(&mut state, line), None);
        assert_eq!(state.chosen(), Some(&String::from("ABCDE")));
        assert_eq!(state.attempts(), 1);
    }
    assert_eq!(next_round(&mut state, "N\n"), Some(false));
    assert_eq!(state.chosen(), Some(&String::from("ABCDE")));
    assert_eq!(state.attempts(), 1);
}

#[test]
fn accented_line_is_played_in_upper_case() {
    let mut state = round_with("\u{c9}COLE", 6);
    let turn = play_turn(&mut state, "\u{e9}cole\n");
    assert_eq!(
        turn,
        Turn::Scored {
            guess: String::from("\u{c9}COLE"),
            matches: [FULL, FULL, FULL, FULL, FULL],
            outcome: Outcome::Won,
        }
    );
    assert_eq!(state.attempts(), 1);
}
