//! The general laws of the state machine, stated over whole plays.
//!
//! `run` folds a sequence of guesses through [`GuessSession::spec_step`];
//! `bot_wins` plays the perfect bisecting strategy. The lemmas here state
//! the range-monotonicity, guard-correctness, win and tries-budget laws.

use vstd::arithmetic::div_mod::{
    lemma_div_is_ordered, lemma_div_is_strictly_smaller, lemma_div_multiples_vanish,
    lemma_fundamental_div_mod,
};
use vstd::prelude::*;

use crate::session::{
    Comparison, GuessSession, lemma_log2_floor_mono, lemma_log2_floor_nonneg, lemma_mid_bounds,
    log2_floor,
};

verus! {

/// The session reached from `s` by evaluating the guesses of `gs` in order.
pub open spec fn run(s: GuessSession, gs: Seq<u32>) -> GuessSession
    decreases gs.len(),
{
    if gs.len() == 0 {
        s
    } else {
        run(s.spec_step(gs[0]), gs.drop_first())
    }
}

/// Range monotonicity: across any sequence of evaluated guesses the
/// candidate range only narrows — its start never decreases and its end
/// never increases — and the full range and the secret never change.
pub proof fn lemma_candidates_monotonic(s: GuessSession, gs: Seq<u32>)
    ensures
        s.candidates.start <= run(s, gs).candidates.start,
        run(s, gs).candidates.end <= s.candidates.end,
        run(s, gs).full == s.full,
        run(s, gs).secret == s.secret,
    decreases gs.len(),
{
    if gs.len() > 0 {
        lemma_candidates_monotonic(s.spec_step(gs[0]), gs.drop_first());
    }
}

/// Guard correctness: within one comparison step, for a well-formed
/// session, narrowing keeps the candidate range non-empty and never moves
/// a bound the wrong way; in particular a too-small guess already below
/// the candidate range leaves the start where it was, and a too-big guess
/// already above it leaves the end where it was.
pub proof fn lemma_guard_correctness(s: GuessSession, guess: u32)
    requires
        s.wf(),
    ensures
        s.spec_step(guess).candidates.start <= s.spec_step(guess).candidates.end,
        s.candidates.start <= s.spec_step(guess).candidates.start,
        s.spec_step(guess).candidates.end <= s.candidates.end,
        guess < s.secret && guess < s.candidates.start ==> s.spec_step(guess).candidates
            == s.candidates,
        guess > s.secret && guess > s.candidates.end ==> s.spec_step(guess).candidates
            == s.candidates,
        s.spec_step(guess).wf(),
{
}

/// No decrement on a win: evaluating the exact secret compares as a win
/// and leaves both the tries budget and the candidate range untouched.
pub proof fn lemma_win_keeps_tries(s: GuessSession)
    ensures
        s.spec_comparison(s.secret) is Win,
        s.spec_step(s.secret).tries_remaining == s.tries_remaining,
        s.spec_step(s.secret).candidates == s.candidates,
        s.spec_step(s.secret).terminal,
{
}

/// Whether a player who always submits the best guess wins the session,
/// with every guess made from a live, well-formed state. The range must
/// shrink at each non-winning step; the tries-budget law proves that it
/// always does.
pub open spec fn bot_wins(s: GuessSession) -> bool
    decreases s.candidates.spec_length(),
{
    if !s.wf() || s.terminal {
        false
    } else if s.spec_best_guess() == s.secret {
        true
    } else if 0 <= s.spec_step(s.spec_best_guess() as u32).candidates.spec_length()
        < s.candidates.spec_length() {
        bot_wins(s.spec_step(s.spec_best_guess() as u32))
    } else {
        false
    }
}

/// Tries budget: a live well-formed session whose tries budget is at least
/// `log2_floor(candidate length) + 1` — as every freshly constructed
/// session's is — always lets the perfect bisecting player reach the win,
/// with a try still in hand at every guess along the way.
pub proof fn lemma_bisect_always_wins(s: GuessSession)
    requires
        s.wf(),
        !s.terminal,
        s.tries_remaining >= log2_floor(s.candidates.spec_length()) + 1,
    ensures
        bot_wins(s),
    decreases s.candidates.spec_length(),
{
    let st = s.candidates.start as int;
    let e = s.candidates.end as int;
    let len = s.candidates.spec_length();
    let g = s.spec_best_guess();
    lemma_mid_bounds(st, e);
    if g != s.secret {
        let gu = g as u32;
        let s2 = s.spec_step(gu);
        let len2 = s2.candidates.spec_length();
        // A one-value range forces the midpoint onto the secret.
        assert(st < e);
        // Split st + e into twice the midpoint plus a remainder bit.
        lemma_fundamental_div_mod(st + e, 2);
        let r = (st + e) % 2;
        // In both directions the surviving half is at most half the range.
        assert(2 * len2 <= len);
        lemma_div_is_ordered(2 * len2, len, 2);
        lemma_div_multiples_vanish(len2, 2);
        assert(len2 <= len / 2);
        lemma_div_is_strictly_smaller(len, 2);
        lemma_log2_floor_mono(len2, len / 2);
        assert(log2_floor(len) == 1 + log2_floor(len / 2));
        lemma_log2_floor_nonneg(len2);
        assert(s2.tries_remaining >= log2_floor(len2) + 1);
        assert(!s2.terminal);
        lemma_bisect_always_wins(s2);
    }
}

/// The budget law at construction: every session as [`GuessSession::new`]
/// returns it — candidates equal to the full range, budget
/// `log2_floor(length) + 1` — is won by the perfect bisecting player.
pub proof fn lemma_new_session_bot_wins(s: GuessSession)
    requires
        s.wf(),
        !s.terminal,
        s.candidates == s.full,
        s.tries_remaining == log2_floor(s.full.spec_length()) + 1,
    ensures
        bot_wins(s),
{
    lemma_bisect_always_wins(s);
}

} // verus!
