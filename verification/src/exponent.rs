//! How long the exponents of the numbers of a text are.
//!
//! The grammar engine sums the digits of an exponent in a machine word of 64
//! bits, and multiplies the sum by ten before it looks at the next character,
//! digit or not. Eighteen digits leave room for the multiplication that
//! follows the last of them, so a text is measured before it is handed over.
//! The measure is cautious: it takes every run of digits behind an `e` or an
//! `E` and at most one sign for an exponent, wherever in the text it stands.

use vstd::prelude::*;
use vstd::utf8::encode_utf8;

verus! {

/// The most digits that an exponent of a document may have.
pub const MAX_EXPONENT_DIGITS: usize = 18;

/// Where in a number a reader stands.
#[derive(Clone, Copy, PartialEq, Eq, Structural, Debug)]
pub enum Phase {
    /// Outside an exponent.
    Idle,
    /// Behind the letter that starts an exponent.
    Mark,
    /// Behind the sign of an exponent.
    Sign,
    /// Among the digits of an exponent.
    Digits,
}

/// What a reader knows at a place in a text: where it stands, how many
/// digits the exponent has in which it stands, and how many digits the
/// longest exponent had so far.
pub struct Exponents {
    pub phase: Phase,
    pub run: nat,
    pub longest: nat,
}

/// Whether a byte is the letter that starts an exponent.
pub open spec fn is_mark(byte: u8) -> bool {
    byte == 69 || byte == 101
}

/// Whether a byte is a sign.
pub open spec fn is_sign(byte: u8) -> bool {
    byte == 43 || byte == 45
}

/// Whether a byte is a decimal digit.
pub open spec fn is_digit(byte: u8) -> bool {
    48 <= byte <= 57
}

/// What is known after a byte.
pub open spec fn exponent_step(before: Exponents, byte: u8) -> Exponents {
    if is_mark(byte) {
        Exponents { phase: Phase::Mark, run: 0, longest: before.longest }
    } else if is_sign(byte) && before.phase == Phase::Mark {
        Exponents { phase: Phase::Sign, run: 0, longest: before.longest }
    } else if is_digit(byte) && before.phase != Phase::Idle {
        Exponents {
            phase: Phase::Digits,
            run: before.run + 1,
            longest: if before.run + 1 > before.longest {
                before.run + 1
            } else {
                before.longest
            },
        }
    } else {
        Exponents { phase: Phase::Idle, run: 0, longest: before.longest }
    }
}

/// What is known after the first `n` bytes of a text.
pub open spec fn exponents_in(bytes: Seq<u8>, n: int) -> Exponents
    decreases n,
{
    if n <= 0 || n > bytes.len() {
        Exponents { phase: Phase::Idle, run: 0, longest: 0 }
    } else {
        exponent_step(exponents_in(bytes, n - 1), bytes[n - 1])
    }
}

/// The number of digits of the longest exponent of a text.
pub open spec fn longest_exponent_of(text: Seq<char>) -> nat {
    exponents_in(encode_utf8(text), encode_utf8(text).len() as int).longest
}

/// The longest exponent never shrinks, and no exponent is longer than the
/// text that was read.
pub proof fn lemma_longest_grows(bytes: Seq<u8>, n: int, m: int)
    requires
        0 <= n <= m <= bytes.len(),
    ensures
        exponents_in(bytes, n).longest <= exponents_in(bytes, m).longest,
        exponents_in(bytes, m).run <= exponents_in(bytes, m).longest <= m,
    decreases m,
{
    if m > 0 {
        lemma_longest_grows(bytes, 0, m - 1);
        if n < m {
            lemma_longest_grows(bytes, n, m - 1);
        }
    }
}

/// Whether no exponent of a text has more digits than a limit.
pub fn exponents_within(text: &str, limit: usize) -> (within: bool)
    ensures
        within == (longest_exponent_of(text@) <= limit),
{
    let bytes = text.as_bytes();
    let mut phase = Phase::Idle;
    let mut run: usize = 0;
    let mut i: usize = 0;
    while i < bytes.len()
        invariant
            i <= bytes.len(),
            bytes@ == encode_utf8(text@),
            exponents_in(bytes@, i as int).phase == phase,
            exponents_in(bytes@, i as int).run == run,
            exponents_in(bytes@, i as int).longest <= limit,
            run <= i,
        decreases bytes.len() - i,
    {
        let byte = bytes[i];
        if byte == 69 || byte == 101 {
            phase = Phase::Mark;
            run = 0;
        } else if (byte == 43 || byte == 45) && matches!(phase, Phase::Mark) {
            phase = Phase::Sign;
            run = 0;
        } else if 48 <= byte && byte <= 57 && !matches!(phase, Phase::Idle) {
            phase = Phase::Digits;
            run += 1;
            if run > limit {
                proof {
                    lemma_longest_grows(bytes@, i + 1, bytes@.len() as int);
                }
                return false;
            }
        } else {
            phase = Phase::Idle;
            run = 0;
        }
        i += 1;
    }
    true
}

} // verus!
