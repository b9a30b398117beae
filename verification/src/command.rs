//! Classification of one trimmed line of player input.
//!
//! The four textual commands and the "parse as an integer" fallback form a
//! closed set of variants, dispatched once per line. A line that is neither
//! a command nor an integer is ignored by the caller, which re-prompts
//! without consuming a try.

use vstd::prelude::*;

verus! {

/// ASCII codes of the bytes the classifier inspects.
pub const PLUS: u8 = 43;

pub const DIGIT_ZERO: u8 = 48;

pub const DIGIT_NINE: u8 = 57;

pub const LOWER_B: u8 = 98;

pub const LOWER_C: u8 = 99;

pub const LOWER_E: u8 = 101;

pub const LOWER_I: u8 = 105;

pub const LOWER_O: u8 = 111;

pub const LOWER_Q: u8 = 113;

pub const LOWER_R: u8 = 114;

pub const LOWER_S: u8 = 115;

pub const LOWER_T: u8 = 116;

pub const LOWER_U: u8 = 117;

/// One line of player input, classified.
#[derive(Clone, Copy, PartialEq, Eq, Structural, Debug)]
pub enum Command {
    /// Submit the best guess on the player's behalf.
    Bot,
    /// End the session immediately, without revealing the secret.
    Quit,
    /// Print the best guess and re-prompt; no try consumed.
    Best,
    /// Print the secret and re-prompt; no try consumed.
    Secret,
    /// A guess to evaluate.
    Guess(u32),
    /// Anything else: ignored, the caller re-prompts; no try consumed.
    Invalid,
}

/// An ASCII decimal digit.
pub open spec fn is_ascii_digit(b: u8) -> bool {
    DIGIT_ZERO <= b && b <= DIGIT_NINE
}

/// Every byte of `s` is an ASCII decimal digit.
pub open spec fn all_digits(s: Seq<u8>) -> bool {
    forall|i: int| 0 <= i < s.len() ==> is_ascii_digit(s[i])
}

/// The integer written by the digit bytes of `s`, most significant first.
pub open spec fn digits_value(s: Seq<u8>) -> int
    decreases s.len(),
{
    if s.len() == 0 {
        0
    } else {
        digits_value(s.drop_last()) * 10 + (s.last() - DIGIT_ZERO)
    }
}

/// What `str::parse::<u32>` accepts on a trimmed line: an optional leading
/// plus sign, then at least one ASCII digit, with a value that fits.
pub open spec fn spec_parse_u32(s: Seq<u8>) -> Option<u32> {
    let digits = if s.len() > 0 && s[0] == PLUS {
        s.drop_first()
    } else {
        s
    };
    if digits.len() > 0 && all_digits(digits) && digits_value(digits) <= u32::MAX {
        Some(digits_value(digits) as u32)
    } else {
        None
    }
}

/// The classification of one trimmed line: the four exact commands first,
/// then the integer fallback.
pub open spec fn spec_parse_command(s: Seq<u8>) -> Command {
    if s == seq![LOWER_B, LOWER_O, LOWER_T] {
        Command::Bot
    } else if s == seq![LOWER_Q, LOWER_U, LOWER_I, LOWER_T] {
        Command::Quit
    } else if s == seq![LOWER_B, LOWER_E, LOWER_S, LOWER_T] {
        Command::Best
    } else if s == seq![LOWER_S, LOWER_E, LOWER_C, LOWER_R, LOWER_E, LOWER_T] {
        Command::Secret
    } else {
        match spec_parse_u32(s) {
            Some(n) => Command::Guess(n),
            None => Command::Invalid,
        }
    }
}

/// Once the value written by a prefix of digit bytes is large, every longer
/// prefix writes a value at least as large: appending a byte multiplies by
/// ten and adds at least `-48`.
proof fn lemma_digits_value_grows(s: Seq<u8>, a: int, i: int, j: int)
    requires
        0 <= a <= i <= j <= s.len(),
        digits_value(s.subrange(a, i)) > 6,
    ensures
        digits_value(s.subrange(a, j)) >= digits_value(s.subrange(a, i)),
    decreases j - i,
{
    if i < j {
        lemma_digits_value_grows(s, a, i, j - 1);
        assert(s.subrange(a, j).drop_last() =~= s.subrange(a, j - 1));
    }
}

/// Reads a `u32` written in decimal, exactly as `str::parse::<u32>` would
/// on a trimmed line: an optional leading plus sign, then only digits, and
/// `None` on an empty number, a stray byte or overflow.
#[verifier::loop_isolation(false)]
pub fn parse_u32_bytes(s: &[u8]) -> (r: Option<u32>)
    ensures
        r == spec_parse_u32(s@),
{
    let n = s.len();
    let start: usize = if n > 0 && s[0] == PLUS {
        1
    } else {
        0
    };
    proof {
        if start == 1 {
            assert(s@.subrange(1, n as int) =~= s@.drop_first());
        } else {
            assert(s@.subrange(0, n as int) =~= s@);
        }
    }
    if n == start {
        return None;
    }
    let mut acc: u64 = 0;
    let mut i: usize = start;
    while i < n
        invariant
            start <= i <= n,
            n == s@.len(),
            start == 1 ==> n > 0 && s@[0] == PLUS,
            start == 0 ==> !(n > 0 && s@[0] == PLUS),
            all_digits(s@.subrange(start as int, i as int)),
            acc == digits_value(s@.subrange(start as int, i as int)),
            acc <= u32::MAX,
        decreases n - i,
    {
        let b = s[i];
        if b < DIGIT_ZERO || b > DIGIT_NINE {
            proof {
                let digits = if start == 1 {
                    s@.drop_first()
                } else {
                    s@
                };
                assert(digits[i - start] == s@[i as int]);
                assert(!is_ascii_digit(digits[i - start]));
            }
            return None;
        }
        acc = acc * 10 + (b - DIGIT_ZERO) as u64;
        i = i + 1;
        proof {
            assert(s@.subrange(start as int, i as int).drop_last() =~= s@.subrange(
                start as int,
                i - 1,
            ));
        }
        if acc > u32::MAX as u64 {
            proof {
                lemma_digits_value_grows(s@, start as int, i as int, n as int);
            }
            return None;
        }
    }
    Some(acc as u32)
}

/// Classifies one trimmed line of player input: the four exact textual
/// commands, else the integer fallback, else `Invalid`.
pub fn parse_command(line: &[u8]) -> (c: Command)
    ensures
        c == spec_parse_command(line@),
{
    let n = line.len();
    if n == 3 && line[0] == LOWER_B && line[1] == LOWER_O && line[2] == LOWER_T {
        proof {
            assert(line@ =~= seq![LOWER_B, LOWER_O, LOWER_T]);
        }
        Command::Bot
    } else if n == 4 && line[0] == LOWER_Q && line[1] == LOWER_U && line[2] == LOWER_I && line[3] == LOWER_T {
        proof {
            assert(line@ =~= seq![LOWER_Q, LOWER_U, LOWER_I, LOWER_T]);
        }
        Command::Quit
    } else if n == 4 && line[0] == LOWER_B && line[1] == LOWER_E && line[2] == LOWER_S && line[3] == LOWER_T {
        proof {
            assert(line@ =~= seq![LOWER_B, LOWER_E, LOWER_S, LOWER_T]);
        }
        Command::Best
    } else if n == 6 && line[0] == LOWER_S && line[1] == LOWER_E && line[2] == LOWER_C && line[3] == LOWER_R
        && line[4] == LOWER_E && line[5] == LOWER_T {
        proof {
            assert(line@ =~= seq![LOWER_S, LOWER_E, LOWER_C, LOWER_R, LOWER_E, LOWER_T]);
        }
        Command::Secret
    } else {
        proof {
            assert(line@ != seq![LOWER_B, LOWER_O, LOWER_T]);
            assert(line@ != seq![LOWER_Q, LOWER_U, LOWER_I, LOWER_T]);
            assert(line@ != seq![LOWER_B, LOWER_E, LOWER_S, LOWER_T]);
            assert(line@ != seq![LOWER_S, LOWER_E, LOWER_C, LOWER_R, LOWER_E, LOWER_T]);
        }
        match parse_u32_bytes(line) {
            Some(n) => Command::Guess(n),
            None => Command::Invalid,
        }
    }
}

} // verus!
