//! A byte stream held in memory: a sequence of bytes behind a read cursor that
//! only moves forward.
//!
//! The stream stands for an open, readable handle positioned somewhere in its
//! data. A read hands out the next bytes, as many as were asked for or as many
//! as are left, and moves the cursor past them. Once the bytes are used up a
//! sound stream reports its end with an empty chunk on every further read; a
//! broken stream fails on every further read instead, as a handle does whose
//! source gave out before its end was reached.

use vstd::prelude::*;
use vstd::slice::slice_subrange;
use crate::step::read_view;

verus! {

/// What a stream still has to give: the bytes that have not been read yet, in
/// order, and the way the stream ends once they are gone.
#[verifier::ext_equal]
pub struct Unread {
    /// The bytes between the cursor and the end of the data.
    pub bytes: Seq<u8>,
    /// Whether a read fails once `bytes` is used up, where a sound stream
    /// would report its end.
    pub broken: bool,
}

impl Unread {
    /// The number of bytes that a read of at most `limit` bytes delivers.
    pub open spec fn read_len(self, limit: nat) -> nat {
        if limit <= self.bytes.len() {
            limit
        } else {
            self.bytes.len()
        }
    }

    /// What a read of at most `limit` bytes returns: the next bytes, or `None`
    /// where the read fails.
    pub open spec fn next_read(self, limit: nat) -> Option<Seq<u8>> {
        if self.bytes.len() == 0 && self.broken {
            None
        } else {
            Some(self.bytes.take(self.read_len(limit) as int))
        }
    }

    /// What is left once `count` bytes have been consumed, or all of them
    /// where fewer are left.
    pub open spec fn skipped(self, count: nat) -> Unread {
        Unread { bytes: self.bytes.skip(self.read_len(count) as int), broken: self.broken }
    }
}

/// A stream of bytes held in memory, with its read cursor.
pub struct ByteStream {
    data: Vec<u8>,
    cursor: usize,
    broken: bool,
}

impl View for ByteStream {
    type V = Unread;

    closed spec fn view(&self) -> Unread {
        Unread { bytes: self.data@.skip(self.cursor as int), broken: self.broken }
    }
}

impl ByteStream {
    #[verifier::type_invariant]
    spec fn cursor_in_data(&self) -> bool {
        self.cursor <= self.data.len()
    }

    /// A sound stream over `data`, positioned at its start.
    pub fn new(data: Vec<u8>) -> (stream: ByteStream)
        ensures
            stream@ == (Unread { bytes: data@, broken: false }),
    {
        let stream = ByteStream { data, cursor: 0, broken: false };
        assert(stream@ =~= (Unread { bytes: data@, broken: false }));
        stream
    }

    /// A stream positioned at the start of `data` whose reads fail once `data`
    /// has been delivered.
    pub fn broken_after(data: Vec<u8>) -> (stream: ByteStream)
        ensures
            stream@ == (Unread { bytes: data@, broken: true }),
    {
        let stream = ByteStream { data, cursor: 0, broken: true };
        assert(stream@ =~= (Unread { bytes: data@, broken: true }));
        stream
    }

    /// The number of bytes between the cursor and the end of the data.
    pub fn remaining(&self) -> (left: usize)
        ensures
            left == self@.bytes.len(),
    {
        proof {
            use_type_invariant(self);
        }
        self.data.len() - self.cursor
    }

    /// Whether reads fail once the data is used up.
    pub fn is_broken(&self) -> (broken: bool)
        ensures
            broken == self@.broken,
    {
        self.broken
    }

    /// Reads the next chunk of at most `limit` bytes and moves the cursor past
    /// it.
    ///
    /// The chunk holds `limit` bytes, or all that are left where that is
    /// fewer; at the end of a sound stream it is empty. The result is `None`
    /// where the read fails: at the end of a broken stream. The bytes behind
    /// the cursor are never touched.
    pub fn read_chunk(&mut self, limit: usize) -> (chunk: Option<&[u8]>)
        ensures
            read_view(chunk) == old(self)@.next_read(limit as nat),
            final(self)@ == old(self)@.skipped(limit as nat),
    {
        proof {
            use_type_invariant(&*self);
        }
        let left = self.data.len() - self.cursor;
        if left == 0 && self.broken {
            assert(self@ =~= old(self)@.skipped(limit as nat));
            return None;
        }
        let count = if limit <= left { limit } else { left };
        let start = self.cursor;
        self.cursor = start + count;
        assert(self@ =~= old(self)@.skipped(limit as nat));
        let chunk = slice_subrange(self.data.as_slice(), start, start + count);
        assert(chunk@ =~= old(self)@.bytes.take(count as int));
        Some(chunk)
    }
}

} // verus!
