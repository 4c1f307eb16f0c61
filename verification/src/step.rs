//! The decision taken after each round of the lockstep scan.

use vstd::prelude::*;
use crate::chunk::chunks_equal;

verus! {

/// How a round of the scan ends.
#[derive(Clone, Copy, Debug, PartialEq, Eq, Structural)]
pub enum Step {
    /// Both reads gave the same non-empty chunk: nothing is settled yet, and
    /// another round is due.
    Continue,
    /// The scan is over, and the streams are equal (`true`) or not (`false`).
    Done(bool),
}

/// The outcome of one read as the scan sees it: the bytes that the read
/// delivered, or `None` where the read failed.
pub open spec fn read_view(read: Option<&[u8]>) -> Option<Seq<u8>> {
    match read {
        Some(chunk) => Some(chunk@),
        None => None,
    }
}

/// The decision that follows one read from each stream.
///
/// A failed read settles the scan as "not equal", and so do two chunks that
/// differ in length or in any byte. Two empty chunks mean that both streams
/// ended together: the streams are equal. Two equal chunks that are not empty
/// settle nothing.
pub open spec fn step_of(first: Option<Seq<u8>>, second: Option<Seq<u8>>) -> Step {
    match (first, second) {
        (Some(a), Some(b)) => if a != b {
            Step::Done(false)
        } else if a.len() == 0 {
            Step::Done(true)
        } else {
            Step::Continue
        },
        _ => Step::Done(false),
    }
}

/// Decides one round of the scan from what the two reads returned.
///
/// Each argument is the filled part of a stream's buffer after a read of that
/// stream, or `None` if the read failed.
pub fn diff_step(first: Option<&[u8]>, second: Option<&[u8]>) -> (step: Step)
    ensures
        step == step_of(read_view(first), read_view(second)),
{
    match (first, second) {
        (Some(a), Some(b)) => {
            if a.len() != b.len() {
                Step::Done(false)
            } else if a.len() == 0 {
                assert(a@ =~= b@);
                Step::Done(true)
            } else if chunks_equal(a, b) {
                Step::Continue
            } else {
                Step::Done(false)
            }
        },
        _ => Step::Done(false),
    }
}

} // verus!
