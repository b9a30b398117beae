//! The guess-narrowing state machine.
//!
//! A [`GuessSession`] owns the immutable full range, the shrinking candidate
//! range, the secret value and the remaining-tries counter. Each evaluated
//! guess is classified against the bisecting best guess, compared with the
//! secret, and narrows the candidate range; a win never consumes a try.

use vstd::arithmetic::div_mod::{
    lemma_div_is_ordered, lemma_div_multiples_vanish, lemma_fundamental_div_mod,
    lemma_hoist_over_denominator,
};
use vstd::arithmetic::power2::{lemma2_to64, lemma2_to64_rest, lemma_pow2_unfold, pow2};
use vstd::prelude::*;

use crate::range::MutableRangeInclusive;

verus! {

/// How a guess relates to the bisecting best guess and the candidate range.
#[derive(Clone, Copy, PartialEq, Eq, Structural, Debug)]
pub enum Placement {
    /// The guess equals the midpoint of the candidate range.
    Best,
    /// The guess lies outside the candidate range altogether.
    OutOfCandidateRange,
    /// The guess lies inside the candidate range but is not the midpoint.
    Acceptable,
}

/// How a guess compares with the secret.
#[derive(Clone, Copy, PartialEq, Eq, Structural, Debug)]
pub enum Comparison {
    /// The guess is below the secret.
    TooSmall,
    /// The guess is above the secret.
    TooBig,
    /// The guess equals the secret.
    Win,
}

/// The composite result of one evaluated guess.
#[derive(Clone, Copy, PartialEq, Eq, Structural, Debug)]
pub struct Outcome {
    /// Classification against the best guess, purely informational.
    pub placement: Placement,
    /// Direction of the comparison with the secret.
    pub comparison: Comparison,
    /// Whether this guess spent the last remaining try.
    pub out_of_tries: bool,
}

impl Outcome {
    /// An outcome ends the session when the guess won or spent the last try.
    pub open spec fn spec_is_terminal(self) -> bool {
        self.comparison is Win || self.out_of_tries
    }

    pub fn is_terminal(&self) -> (r: bool)
        ensures
            r == self.spec_is_terminal(),
    {
        matches!(self.comparison, Comparison::Win) || self.out_of_tries
    }
}

/// Floor of the base-two logarithm; by convention zero below two.
pub open spec fn log2_floor(n: int) -> int
    decreases n,
{
    if n < 2 {
        0
    } else {
        1 + log2_floor(n / 2)
    }
}

/// `log2_floor` never goes below zero.
pub proof fn lemma_log2_floor_nonneg(n: int)
    ensures
        log2_floor(n) >= 0,
    decreases n,
{
    if n >= 2 {
        lemma_log2_floor_nonneg(n / 2);
    }
}

/// `log2_floor` is monotone.
pub proof fn lemma_log2_floor_mono(a: int, b: int)
    requires
        a <= b,
    ensures
        log2_floor(a) <= log2_floor(b),
    decreases b,
{
    if a < 2 {
        lemma_log2_floor_nonneg(b);
    } else {
        lemma_div_is_ordered(a, b, 2);
        lemma_log2_floor_mono(a / 2, b / 2);
    }
}

/// Anything below `2^k` has a base-two logarithm below `k`.
pub proof fn lemma_log2_floor_small(n: int, k: nat)
    requires
        0 <= n < pow2(k),
    ensures
        log2_floor(n) < k + 1,
    decreases k,
{
    if n >= 2 && k == 0 {
        lemma2_to64();
    }
    if n >= 2 && k > 0 {
        lemma_pow2_unfold(k);
        let half = pow2((k - 1) as nat) as int;
        lemma_div_is_ordered(n, 2 * half - 1, 2);
        assert((2 * half - 1) / 2 == half - 1) by {
            lemma_fundamental_div_mod(2 * half - 1, 2);
        }
        lemma_log2_floor_small(n / 2, (k - 1) as nat);
    }
}

/// The midpoint of a non-empty span lies inside it.
pub proof fn lemma_mid_bounds(s: int, e: int)
    requires
        s <= e,
    ensures
        s <= (s + e) / 2 <= e,
{
    lemma_div_is_ordered(2 * s, s + e, 2);
    lemma_div_is_ordered(s + e, 2 * e, 2);
    lemma_div_multiples_vanish(s, 2);
    lemma_div_multiples_vanish(e, 2);
}

/// The worst-case number of guesses a bisecting search needs to isolate one
/// value among `len` candidates: halve until a single value is left, plus
/// one for the final confirming guess.
pub fn tries_for_length(len: u64) -> (r: u32)
    requires
        len >= 1,
    ensures
        r == log2_floor(len as int) + 1,
{
    let mut n: u64 = len;
    let mut count: u32 = 1;
    proof {
        lemma2_to64_rest();
        lemma_log2_floor_small(len as int, 64);
    }
    while n >= 2
        invariant
            1 <= n <= len,
            count == 1 + log2_floor(len as int) - log2_floor(n as int),
            log2_floor(len as int) <= 64,
        decreases n,
    {
        proof {
            lemma_log2_floor_nonneg(n as int / 2);
            lemma_log2_floor_mono(n as int, len as int);
        }
        n = n / 2;
        count = count + 1;
    }
    count
}

/// The whole state of one game: the full range fixed at construction, the
/// candidate range still consistent with all feedback, the secret, the
/// remaining tries and whether the session has ended.
#[derive(Clone, Copy, PartialEq, Eq, Structural, Debug)]
pub struct GuessSession {
    /// The range the secret was drawn from; never mutated.
    pub full: MutableRangeInclusive,
    /// The values still consistent with all feedback so far.
    pub candidates: MutableRangeInclusive,
    /// The value the player is after; never mutated.
    pub secret: u32,
    /// Evaluated guesses left before the session is lost.
    pub tries_remaining: u32,
    /// Whether the session ended with a win or by running out of tries.
    pub terminal: bool,
}

impl GuessSession {
    /// Well-formedness: the candidate range sits inside the full range and
    /// still contains the secret, and a live session has at least one try.
    pub open spec fn wf(self) -> bool {
        &&& self.full.start <= self.candidates.start
        &&& self.candidates.start <= self.secret
        &&& self.secret <= self.candidates.end
        &&& self.candidates.end <= self.full.end
        &&& (!self.terminal ==> self.tries_remaining >= 1)
    }

    /// The midpoint (floor) of the candidate range: the guess a perfect
    /// bisecting strategy submits next.
    pub open spec fn spec_best_guess(self) -> int {
        (self.candidates.start + self.candidates.end) / 2
    }

    /// Direction of `guess` relative to the secret.
    pub open spec fn spec_comparison(self, guess: u32) -> Comparison {
        if guess < self.secret {
            Comparison::TooSmall
        } else if guess > self.secret {
            Comparison::TooBig
        } else {
            Comparison::Win
        }
    }

    /// Classification of `guess` against the best guess and the candidate
    /// range, checked in that order.
    pub open spec fn spec_placement(self, guess: u32) -> Placement {
        if guess == self.spec_best_guess() {
            Placement::Best
        } else if !self.candidates.spec_contains(guess) {
            Placement::OutOfCandidateRange
        } else {
            Placement::Acceptable
        }
    }

    /// The session state after evaluating `guess`: a win only marks the
    /// session terminal; otherwise the guarded narrowing moves one bound
    /// toward the secret and one try is spent.
    pub open spec fn spec_step(self, guess: u32) -> GuessSession {
        if guess == self.secret {
            GuessSession { terminal: true, ..self }
        } else {
            let narrowed = if guess < self.secret {
                if self.candidates.start <= guess {
                    MutableRangeInclusive { start: (guess + 1) as u32, end: self.candidates.end }
                } else {
                    self.candidates
                }
            } else {
                if self.candidates.end >= guess {
                    MutableRangeInclusive { start: self.candidates.start, end: (guess - 1) as u32 }
                } else {
                    self.candidates
                }
            };
            let tries = (self.tries_remaining - 1) as u32;
            GuessSession {
                candidates: narrowed,
                tries_remaining: tries,
                terminal: tries == 0,
                ..self
            }
        }
    }

    /// Starts a session over `full` with the given secret. The tries budget
    /// is the worst-case bisection depth of the full range.
    pub fn new(full: MutableRangeInclusive, secret: u32) -> (s: GuessSession)
        requires
            full.spec_contains(secret),
        ensures
            s.full == full,
            s.candidates == full,
            s.secret == secret,
            s.tries_remaining == log2_floor(full.spec_length()) + 1,
            !s.terminal,
            s.wf(),
    {
        let len = full.length();
        let tries = tries_for_length(len);
        proof {
            lemma_log2_floor_nonneg(full.spec_length());
        }
        GuessSession { full, candidates: full, secret, tries_remaining: tries, terminal: false }
    }

    /// Starts a session over `full` with a secret drawn at random from it.
    /// Whatever the draw returns, the session starts well-formed.
    pub fn new_random(full: MutableRangeInclusive) -> (s: GuessSession)
        requires
            full.spec_is_proper(),
        ensures
            s.full == full,
            s.candidates == full,
            full.spec_contains(s.secret),
            s.tries_remaining == log2_floor(full.spec_length()) + 1,
            !s.terminal,
            s.wf(),
    {
        let secret = crate::rng::random_in_range(full.start, full.end);
        GuessSession::new(full, secret)
    }

    /// Total constructor: rejects an empty full range and a secret outside
    /// it, instead of letting an inconsistent session run.
    pub fn try_new(full: MutableRangeInclusive, secret: u32) -> (r: Option<GuessSession>)
        ensures
            r is Some <==> full.spec_contains(secret),
            r matches Some(s) ==> {
                &&& s.full == full
                &&& s.candidates == full
                &&& s.secret == secret
                &&& s.tries_remaining == log2_floor(full.spec_length()) + 1
                &&& !s.terminal
                &&& s.wf()
            },
    {
        if full.contains(secret) {
            Some(GuessSession::new(full, secret))
        } else {
            None
        }
    }

    /// The guess a perfect bisecting strategy would submit next: the floor
    /// midpoint of the candidate range. A pure query; no try is consumed.
    pub fn best_guess(&self) -> (r: u32)
        requires
            self.wf(),
        ensures
            r == self.spec_best_guess(),
    {
        proof {
            lemma_mid_bounds(self.candidates.start as int, self.candidates.end as int);
            lemma_hoist_over_denominator(
                self.candidates.end - self.candidates.start,
                self.candidates.start as int,
                2,
            );
        }
        self.candidates.start + (self.candidates.end - self.candidates.start) / 2
    }

    /// The secret, for the reveal affordance. A pure query; no try consumed.
    pub fn secret_number(&self) -> (r: u32)
        ensures
            r == self.secret,
    {
        self.secret
    }

    /// Whether the session ended with a win or by exhausting the tries.
    pub fn is_terminal(&self) -> (r: bool)
        ensures
            r == self.terminal,
    {
        self.terminal
    }

    /// Evaluates one guess: classifies it, compares it with the secret,
    /// narrows the candidate range under the widening guards, and spends a
    /// try unless the guess won.
    pub fn evaluate(&mut self, guess: u32) -> (o: Outcome)
        requires
            old(self).wf(),
            !old(self).terminal,
        ensures
            *final(self) == old(self).spec_step(guess),
            final(self).wf(),
            o.placement == old(self).spec_placement(guess),
            o.comparison == old(self).spec_comparison(guess),
            o.out_of_tries == (guess != old(self).secret && old(self).tries_remaining == 1),
            final(self).terminal == o.spec_is_terminal(),
            old(self).candidates.start <= final(self).candidates.start,
            final(self).candidates.end <= old(self).candidates.end,
            final(self).candidates.start <= final(self).candidates.end,
            guess == old(self).secret ==> final(self).tries_remaining == old(
                self,
            ).tries_remaining && final(self).candidates == old(self).candidates,
            guess != old(self).secret ==> final(self).tries_remaining == old(
                self,
            ).tries_remaining - 1,
    {
        let best = self.best_guess();
        let placement = if guess == best {
            Placement::Best
        } else if !self.candidates.contains(guess) {
            Placement::OutOfCandidateRange
        } else {
            Placement::Acceptable
        };
        if guess == self.secret {
            self.terminal = true;
            Outcome { placement, comparison: Comparison::Win, out_of_tries: false }
        } else if guess < self.secret {
            if self.candidates.start <= guess {
                self.candidates.start = guess + 1;
            }
            self.tries_remaining = self.tries_remaining - 1;
            let out = self.tries_remaining == 0;
            if out {
                self.terminal = true;
            }
            Outcome { placement, comparison: Comparison::TooSmall, out_of_tries: out }
        } else {
            if self.candidates.end >= guess {
                self.candidates.end = guess - 1;
            }
            self.tries_remaining = self.tries_remaining - 1;
            let out = self.tries_remaining == 0;
            if out {
                self.terminal = true;
            }
            Outcome { placement, comparison: Comparison::TooBig, out_of_tries: out }
        }
    }
}

} // verus!
