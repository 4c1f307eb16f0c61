//! The lockstep scan of two streams.

use vstd::prelude::*;
use vstd::arithmetic::div_mod::lemma_fundamental_div_mod_converse_div;
use crate::prefix::{
    common_prefix_len, lemma_agreement_within_prefix, lemma_common_prefix,
    lemma_equal_iff_prefix_is_all,
};
use crate::step::{diff_step, step_of, Step};
use crate::stream::{ByteStream, Unread};

verus! {

/// The chunk length that [`diff_files`] reads with.
pub const CHUNK_LEN: usize = 1024;

/// Whether two streams give the same bytes from their cursors to their ends,
/// and neither of them breaks on the way.
pub open spec fn streams_match(a: Unread, b: Unread) -> bool {
    !a.broken && !b.broken && a.bytes == b.bytes
}

/// How far the scan reads into each stream, where the stream is that long:
/// to the end of the chunk that holds the first position at which `a` and `b`
/// differ or at which one of them ends.
pub open spec fn scanned(a: Seq<u8>, b: Seq<u8>, chunk: nat) -> nat {
    (common_prefix_len(a, b) / chunk + 1) * chunk
}

/// The answer of a scan that reads both streams in chunks of at most `chunk`
/// bytes and decides each round with [`step_of`].
pub open spec fn lockstep(a: Unread, b: Unread, chunk: nat) -> bool
    decreases a.bytes.len(),
{
    match step_of(a.next_read(chunk), b.next_read(chunk)) {
        Step::Done(same) => same,
        Step::Continue => lockstep(a.skipped(chunk), b.skipped(chunk), chunk),
    }
}

/// A scan in chunks finds two streams equal exactly when they give the same
/// bytes to their ends and neither breaks, whatever the chunk length.
pub proof fn lockstep_decides_equality(a: Unread, b: Unread, chunk: nat)
    requires
        chunk >= 1,
    ensures
        lockstep(a, b, chunk) == streams_match(a, b),
    decreases a.bytes.len(),
{
    let n1 = a.read_len(chunk) as int;
    let n2 = b.read_len(chunk) as int;
    match (a.next_read(chunk), b.next_read(chunk)) {
        (Some(x), Some(y)) => {
            if x != y {
                assert(a.bytes != b.bytes);
            } else if x.len() == 0 {
                assert(a.bytes =~= b.bytes);
            } else {
                lockstep_decides_equality(a.skipped(chunk), b.skipped(chunk), chunk);
                assert(a.bytes =~= x + a.bytes.skip(n1));
                assert(b.bytes =~= y + b.bytes.skip(n2));
                if a.bytes == b.bytes {
                    assert(a.bytes.skip(n1) =~= b.bytes.skip(n2));
                }
            }
        },
        _ => {},
    }
}

/// A scan that stops in the given round has read to the end of that round's
/// chunk.
proof fn lemma_stop_in_round(c: nat, round: nat, chunk: nat)
    requires
        chunk >= 1,
        round * chunk <= c < round * chunk + chunk,
    ensures
        (c / chunk + 1) * chunk == round * chunk + chunk,
{
    lemma_fundamental_div_mod_converse_div(c as int, chunk as int, round as int, c - round * chunk);
    assert((round + 1) * chunk == round * chunk + chunk) by (nonlinear_arith);
}

/// The chunk in which the scan stops ends after the common prefix.
proof fn lemma_scanned_past_prefix(c: nat, chunk: nat)
    requires
        chunk >= 1,
    ensures
        (c / chunk + 1) * chunk > c,
{
    assert((c / chunk + 1) * chunk > c) by (nonlinear_arith)
        requires
            chunk >= 1,
            c >= 0,
    ;
}

/// Compares two streams from their cursors on, reading both in chunks of at
/// most `chunk` bytes.
///
/// The answer is that of the scan round by round, and it does not depend on
/// `chunk`: it is `true` exactly when both streams give the same bytes up to
/// their ends and neither read fails. Both streams are left just after the
/// last chunk that was read from them.
pub fn diff_files_chunked(f1: &mut ByteStream, f2: &mut ByteStream, chunk: usize) -> (same: bool)
    requires
        chunk >= 1,
    ensures
        same == streams_match(old(f1)@, old(f2)@),
        same == lockstep(old(f1)@, old(f2)@, chunk as nat),
        final(f1)@ == old(f1)@.skipped(scanned(old(f1)@.bytes, old(f2)@.bytes, chunk as nat)),
        final(f2)@ == old(f2)@.skipped(scanned(old(f1)@.bytes, old(f2)@.bytes, chunk as nat)),
{
    let ghost a = f1@.bytes;
    let ghost b = f2@.bytes;
    // The bytes read from each stream so far, and the rounds that read them.
    let ghost done: nat = 0;
    let ghost round: nat = 0;
    proof {
        assert(f1@.bytes =~= a.skip(0));
        assert(f2@.bytes =~= b.skip(0));
        assert(a.take(0) =~= b.take(0));
        assert(0 * chunk == 0) by (nonlinear_arith);
        lockstep_decides_equality(f1@, f2@, chunk as nat);
    }
    loop
        invariant
            chunk >= 1,
            lockstep(old(f1)@, old(f2)@, chunk as nat) == streams_match(old(f1)@, old(f2)@),
            a == old(f1)@.bytes,
            b == old(f2)@.bytes,
            f1@.broken == old(f1)@.broken,
            f2@.broken == old(f2)@.broken,
            done <= a.len(),
            done <= b.len(),
            f1@.bytes == a.skip(done as int),
            f2@.bytes == b.skip(done as int),
            a.take(done as int) == b.take(done as int),
            done == round * chunk || (done == a.len() && done == b.len()),
        decreases a.len() - done,
    {
        let ghost before1 = f1@;
        let ghost before2 = f2@;
        let first = f1.read_chunk(chunk);
        let second = f2.read_chunk(chunk);
        let step = diff_step(first, second);
        proof {
            let c = common_prefix_len(a, b);
            let n1 = before1.read_len(chunk as nat);
            let n2 = before2.read_len(chunk as nat);
            lemma_common_prefix(a, b);
            lemma_agreement_within_prefix(a, b, done);
            lemma_equal_iff_prefix_is_all(a, b);
            lemma_scanned_past_prefix(c, chunk as nat);
            assert(f1@.bytes =~= a.skip((done + n1) as int));
            assert(f2@.bytes =~= b.skip((done + n2) as int));
            match step {
                Step::Continue => {
                    // The two chunks are equal, so the agreement reaches further.
                    let x = before1.bytes.take(n1 as int);
                    let y = before2.bytes.take(n2 as int);
                    let next = (done + n1) as int;
                    assert forall|i: int| 0 <= i < next implies #[trigger] a.take(next)[i] == b.take(
                        next,
                    )[i] by {
                        if i >= done {
                            assert(x[i - done] == y[i - done]);
                        }
                    }
                    assert(a.take(next) =~= b.take(next));
                    if n1 == chunk {
                        assert((round + 1) * chunk == round * chunk + chunk) by (nonlinear_arith);
                    }
                },
                Step::Done(verdict) => {
                    if a == b {
                        // Equal chunks end the scan only where nothing is left.
                        assert(done == a.len()) by {
                            if done < a.len() {
                                assert(before1.bytes.take(n1 as int) =~= before2.bytes.take(n2 as int));
                            }
                        }
                    } else {
                        // The first difference lies in the chunks just read.
                        assert(c < done + chunk) by {
                            if c >= done + chunk {
                                let x = before1.bytes.take(n1 as int);
                                let y = before2.bytes.take(n2 as int);
                                assert forall|i: int| 0 <= i < chunk implies #[trigger] x[i] == y[i] by {
                                    assert(a.take(c as int)[done + i] == b.take(c as int)[done + i]);
                                }
                                assert(x =~= y);
                            }
                        }
                        lemma_stop_in_round(c, round, chunk as nat);
                    }
                    let s = scanned(a, b, chunk as nat);
                    assert(f1@ =~= old(f1)@.skipped(s));
                    assert(f2@ =~= old(f2)@.skipped(s));
                },
            }
            done = done + n1;
            round = round + 1;
        }
        match step {
            Step::Done(verdict) => {
                return verdict;
            },
            Step::Continue => {},
        }
    }
}

/// Tells whether two open streams hold the same bytes from their cursors on.
///
/// A read that fails on either stream makes the answer `false`, as a
/// difference in length or in any byte does; two streams with nothing left
/// are equal. The streams are read in chunks of [`CHUNK_LEN`] bytes and stay
/// open, each left just after the last chunk that was read from it.
pub fn diff_files(f1: &mut ByteStream, f2: &mut ByteStream) -> (same: bool)
    ensures
        same == streams_match(old(f1)@, old(f2)@),
        same == lockstep(old(f1)@, old(f2)@, CHUNK_LEN as nat),
        final(f1)@ == old(f1)@.skipped(scanned(old(f1)@.bytes, old(f2)@.bytes, CHUNK_LEN as nat)),
        final(f2)@ == old(f2)@.skipped(scanned(old(f1)@.bytes, old(f2)@.bytes, CHUNK_LEN as nat)),
{
    diff_files_chunked(f1, f2, CHUNK_LEN)
}

/// What opening a file gave, as the comparison sees it: what the stream holds,
/// or `None` where the file could not be opened.
pub open spec fn opened_view(opened: Option<ByteStream>) -> Option<Unread> {
    match opened {
        Some(stream) => Some(stream@),
        None => None,
    }
}

/// Whether two files are both open, both readable to their ends, and equal
/// byte for byte.
pub open spec fn files_match(a: Option<Unread>, b: Option<Unread>) -> bool {
    match (a, b) {
        (Some(x), Some(y)) => streams_match(x, y),
        _ => false,
    }
}

/// Tells whether two files exist and hold the same bytes.
///
/// Each argument is what opening one of the files gave: the stream, or `None`
/// where the file could not be opened for any reason. A file that could not
/// be opened equals nothing, itself included. Both streams are consumed, and
/// with that released, whatever the answer.
pub fn diff(f1: Option<ByteStream>, f2: Option<ByteStream>) -> (same: bool)
    ensures
        same == files_match(opened_view(f1), opened_view(f2)),
{
    match (f1, f2) {
        (Some(mut first), Some(mut second)) => diff_files(&mut first, &mut second),
        _ => false,
    }
}

} // verus!
