//! The rules of a five-letter word-guessing game: building the word list,
//! scoring a guess against the secret word, tracking a round, and rendering
//! the score for a terminal.

pub mod catalog;
pub mod game;
pub mod matching;
pub mod prompt;
pub mod render;
pub mod state;
pub mod text;

pub use catalog::{load_catalog, load_words, CatalogError};
pub use game::{next_round, play_turn, Turn};
pub use matching::{evaluate, Match};
pub use prompt::{check_guess, input_guess, play_again_answer, playagain, GuessError};
pub use render::{banner, format_match};
pub use state::{evaluate_guess, Outcome, State, MAX_ATTEMPTS};
pub use text::trim;
