//! How deep the brackets of a text nest.
//!
//! The grammar engine descends once for each curly bracket that is open, so
//! a text is measured before it is handed over. The measure reads the text as
//! the syntax does: a curly bracket counts unless it stands in a string or in
//! a comment.

use vstd::prelude::*;
use vstd::utf8::encode_utf8;

verus! {

/// The deepest nesting of curly brackets that a document may have.
pub const MAX_NESTING: usize = 100;

/// The double quote.
pub const QUOTE: u8 = 34;

/// The star.
pub const STAR: u8 = 42;

/// The slash.
pub const SLASH: u8 = 47;

/// The backslash.
pub const BACKSLASH: u8 = 92;

/// The line feed.
pub const NEWLINE: u8 = 10;

/// The opening curly bracket.
pub const OPEN: u8 = 123;

/// The closing curly bracket.
pub const CLOSE: u8 = 125;

/// Where in a text a reader stands.
#[derive(Clone, Copy, PartialEq, Eq, Structural, Debug)]
pub enum Mode {
    /// Among structures and data.
    Code,
    /// Behind a slash that may start a comment.
    Slash,
    /// In a comment that ends with its line.
    Line,
    /// In a comment that ends with a star and a slash.
    Block,
    /// In such a comment, behind a star.
    Star,
    /// In a string.
    Text,
    /// In a string, behind a backslash.
    Escape,
}

/// What a reader knows at a place in a text: where it stands, how many curly
/// brackets are open, and how many were open at most.
pub struct Scan {
    pub mode: Mode,
    pub depth: nat,
    pub deepest: nat,
}

/// The scan after a byte that is read among structures and data.
pub open spec fn step_code(scan: Scan, byte: u8) -> Scan {
    if byte == QUOTE {
        Scan { mode: Mode::Text, ..scan }
    } else if byte == SLASH {
        Scan { mode: Mode::Slash, ..scan }
    } else if byte == OPEN {
        Scan {
            mode: Mode::Code,
            depth: scan.depth + 1,
            deepest: if scan.depth + 1 > scan.deepest {
                scan.depth + 1
            } else {
                scan.deepest
            },
        }
    } else if byte == CLOSE {
        Scan {
            mode: Mode::Code,
            depth: if scan.depth > 0 {
                (scan.depth - 1) as nat
            } else {
                0
            },
            deepest: scan.deepest,
        }
    } else {
        Scan { mode: Mode::Code, ..scan }
    }
}

/// The scan after a byte.
pub open spec fn step(scan: Scan, byte: u8) -> Scan {
    match scan.mode {
        Mode::Code => step_code(scan, byte),
        Mode::Slash => if byte == SLASH {
            Scan { mode: Mode::Line, ..scan }
        } else if byte == STAR {
            Scan { mode: Mode::Block, ..scan }
        } else {
            step_code(scan, byte)
        },
        Mode::Line => if byte == NEWLINE {
            Scan { mode: Mode::Code, ..scan }
        } else {
            scan
        },
        Mode::Block => if byte == STAR {
            Scan { mode: Mode::Star, ..scan }
        } else {
            scan
        },
        Mode::Star => if byte == SLASH {
            Scan { mode: Mode::Code, ..scan }
        } else if byte == STAR {
            scan
        } else {
            Scan { mode: Mode::Block, ..scan }
        },
        Mode::Text => if byte == BACKSLASH {
            Scan { mode: Mode::Escape, ..scan }
        } else if byte == QUOTE {
            Scan { mode: Mode::Code, ..scan }
        } else {
            scan
        },
        Mode::Escape => Scan { mode: Mode::Text, ..scan },
    }
}

/// The scan after the first `n` bytes of a text.
pub open spec fn scanned(bytes: Seq<u8>, n: int) -> Scan
    decreases n,
{
    if n <= 0 || n > bytes.len() {
        Scan { mode: Mode::Code, depth: 0, deepest: 0 }
    } else {
        step(scanned(bytes, n - 1), bytes[n - 1])
    }
}

/// How deep the curly brackets of a text nest.
pub open spec fn nesting_of(text: Seq<char>) -> nat {
    scanned(encode_utf8(text), encode_utf8(text).len() as int).deepest
}

/// The nesting never sinks: what was deepest after some bytes is no deeper
/// than what is deepest after more, and no deeper than the bytes are many.
pub proof fn lemma_nesting_grows(bytes: Seq<u8>, n: int, m: int)
    requires
        0 <= n <= m <= bytes.len(),
    ensures
        scanned(bytes, n).deepest <= scanned(bytes, m).deepest,
        scanned(bytes, m).depth <= scanned(bytes, m).deepest <= m,
    decreases m,
{
    if m > 0 {
        lemma_nesting_grows(bytes, 0, m - 1);
        if n < m {
            lemma_nesting_grows(bytes, n, m - 1);
        }
    }
}

/// Whether the curly brackets of a text nest no deeper than a limit.
pub fn nesting_within(text: &str, limit: usize) -> (within: bool)
    ensures
        within == (nesting_of(text@) <= limit),
{
    let bytes = text.as_bytes();
    let mut mode = Mode::Code;
    let mut depth: usize = 0;
    let mut i: usize = 0;
    while i < bytes.len()
        invariant
            i <= bytes.len(),
            bytes@ == encode_utf8(text@),
            scanned(bytes@, i as int).mode == mode,
            scanned(bytes@, i as int).depth == depth,
            scanned(bytes@, i as int).deepest <= limit,
            depth <= i,
        decreases bytes.len() - i,
    {
        let byte = bytes[i];
        let code = match mode {
            Mode::Code => true,
            Mode::Slash => byte != SLASH && byte != STAR,
            _ => false,
        };
        if code {
            if byte == QUOTE {
                mode = Mode::Text;
            } else if byte == SLASH {
                mode = Mode::Slash;
            } else if byte == OPEN {
                mode = Mode::Code;
                depth += 1;
                if depth > limit {
                    proof {
                        lemma_nesting_grows(bytes@, i + 1, bytes@.len() as int);
                    }
                    return false;
                }
            } else if byte == CLOSE {
                mode = Mode::Code;
                if depth > 0 {
                    depth -= 1;
                }
            } else {
                mode = Mode::Code;
            }
        } else {
            mode = match mode {
                Mode::Slash => if byte == SLASH {
                    Mode::Line
                } else {
                    Mode::Block
                },
                Mode::Line => if byte == NEWLINE {
                    Mode::Code
                } else {
                    Mode::Line
                },
                Mode::Block => if byte == STAR {
                    Mode::Star
                } else {
                    Mode::Block
                },
                Mode::Star => if byte == SLASH {
                    Mode::Code
                } else if byte == STAR {
                    Mode::Star
                } else {
                    Mode::Block
                },
                Mode::Text => if byte == BACKSLASH {
                    Mode::Escape
                } else if byte == QUOTE {
                    Mode::Code
                } else {
                    Mode::Text
                },
                _ => Mode::Text,
            };
        }
        i += 1;
    }
    true
}

} // verus!
