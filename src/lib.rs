use vstd::prelude::*;

use crate::counter::{tally, CountResult};

pub mod counter;
pub mod report;

verus! {

/// What the caller asked to have counted.
#[derive(Clone, Copy, Debug, PartialEq, Eq, Structural)]
pub enum CountMode {
    Bytes,
    Lines,
    Words,
    All,
}

/// Picks the mode from the three flags: bytes wins over lines, lines over words,
/// and with no flag set every count is reported.
pub fn count_mode(bytes: bool, lines: bool, words: bool) -> (r: CountMode)
    ensures
        r == (if bytes {
            CountMode::Bytes
        } else if lines {
            CountMode::Lines
        } else if words {
            CountMode::Words
        } else {
            CountMode::All
        }),
{
    if bytes {
        CountMode::Bytes
    } else if lines {
        CountMode::Lines
    } else if words {
        CountMode::Words
    } else {
        CountMode::All
    }
}

/// What size metadata alone gives: where only bytes are asked for and the
/// input's size is known, the byte count is that size and nothing is read.
/// Lines and words are not counted on this path and stand at zero.
pub open spec fn shortcut(mode: CountMode, size: Option<u64>) -> Option<CountResult> {
    match (mode, size) {
        (CountMode::Bytes, Some(n)) => Some(CountResult { bytes: n, lines: 0, words: 0 }),
        _ => None,
    }
}

/// Returns the result without scanning where [`shortcut`] allows it, and
/// `None` where the input has to be scanned.
pub fn size_shortcut(mode: CountMode, size: Option<u64>) -> (r: Option<CountResult>)
    ensures
        r == shortcut(mode, size),
{
    match mode {
        CountMode::Bytes => match size {
            Some(n) => Some(CountResult { bytes: n, lines: 0, words: 0 }),
            None => None,
        },
        _ => None,
    }
}

/// For an input whose size metadata is its true length, the byte count that
/// the size shortcut reports is the one a full scan reports.
pub proof fn lemma_shortcut_agrees_with_scan(content: Seq<u8>, size: u64)
    requires
        size as nat == content.len(),
    ensures
        shortcut(CountMode::Bytes, Some(size)) is Some,
        shortcut(CountMode::Bytes, Some(size))->0.bytes as nat == tally(content).0,
{
}

} // verus!
