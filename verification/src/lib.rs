//! A number-guessing game, verified.
//!
//! A secret integer is drawn from a fixed inclusive range and the player
//! narrows a candidate range by submitting guesses, each answered with
//! "too small" / "too big" feedback, within a budget of tries derived from
//! the binary-search depth of the full range.

mod command;
mod laws;
mod range;
mod rng;
mod session;

pub use command::{Command, parse_command, parse_u32_bytes};
pub use laws::{bot_wins, lemma_bisect_always_wins, lemma_candidates_monotonic,
    lemma_guard_correctness, lemma_new_session_bot_wins, lemma_win_keeps_tries, run};
pub use range::MutableRangeInclusive;
pub use session::{Comparison, GuessSession, Outcome, Placement};
pub use session::{log2_floor, tries_for_length};
