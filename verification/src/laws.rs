//! What holds of the comparison on all inputs.

use vstd::prelude::*;
use crate::scan::{files_match, lockstep, lockstep_decides_equality, streams_match};
use crate::stream::Unread;

verus! {

/// The chunk length has no part in the answer: two scans of the same streams
/// agree, whatever lengths they read with.
pub proof fn chunk_length_is_immaterial(a: Unread, b: Unread, chunk: nat, other: nat)
    requires
        chunk >= 1,
        other >= 1,
    ensures
        lockstep(a, b, chunk) == lockstep(a, b, other),
{
    lockstep_decides_equality(a, b, chunk);
    lockstep_decides_equality(a, b, other);
}

/// A file that opens and can be read to its end equals itself.
pub proof fn diff_is_reflexive(f: Option<Unread>)
    requires
        f is Some,
        !f.unwrap().broken,
    ensures
        files_match(f, f),
{
}

/// The order of the two files has no part in the answer.
pub proof fn diff_is_symmetric(a: Option<Unread>, b: Option<Unread>)
    ensures
        files_match(a, b) == files_match(b, a),
{
}

/// A file that cannot be opened equals no file, on either side.
pub proof fn missing_file_never_matches(a: Option<Unread>)
    ensures
        !files_match(None, a),
        !files_match(a, None),
{
}

/// A stream on which a read fails equals no stream, on either side.
pub proof fn broken_stream_never_matches(a: Unread, b: Unread)
    requires
        a.broken,
    ensures
        !streams_match(a, b),
        !streams_match(b, a),
{
}

/// Streams of different lengths are not equal, however much of the shorter
/// one the longer one repeats.
pub proof fn length_difference_decides(a: Unread, b: Unread)
    requires
        a.bytes.len() != b.bytes.len(),
    ensures
        !streams_match(a, b),
        !files_match(Some(a), Some(b)),
{
}

/// Every position counts, and every byte value: a sound stream and a copy of
/// it in which one byte was written anew are equal exactly when the byte
/// written is the byte that was there.
pub proof fn every_byte_counts(a: Unread, at: int, value: u8)
    requires
        !a.broken,
        0 <= at < a.bytes.len(),
    ensures
        streams_match(a, Unread { bytes: a.bytes.update(at, value), broken: false }) == (a.bytes[at]
            == value),
{
    let changed = a.bytes.update(at, value);
    if a.bytes[at] == value {
        assert(changed =~= a.bytes);
    } else {
        assert(changed[at] != a.bytes[at]);
    }
}

} // verus!
