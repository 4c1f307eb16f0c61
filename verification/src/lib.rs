//! Tells whether two files hold the same bytes.
//!
//! The comparison is a scan of two byte streams in lockstep: each round reads
//! one chunk from either stream and decides whether the streams are known to
//! differ, known to be equal, or equal so far. It is binary: no byte value
//! ends a stream or is skipped, and a stream that is a prefix of another
//! differs from it. There is one answer for every failure: a file that cannot
//! be opened, or a stream on which a read fails, is not equal to anything.
//!
//! - [`diff_step`] decides one round from what the two reads returned. A
//!   caller that holds open handles reads from them round by round and stops
//!   at the first [`Step::Done`].
//! - [`ByteStream`] is a stream held in memory.
//! - [`diff_files`] scans two such streams to the answer, in chunks of
//!   [`CHUNK_LEN`] bytes; [`diff_files_chunked`] does so with a chunk length
//!   of the caller's choice, which has no part in the answer.
//! - [`diff`] takes what opening two files gave and answers for the files.
//! - [`laws`] states what holds of the answer on all inputs.

pub mod chunk;
pub mod laws;
pub mod prefix;
pub mod scan;
pub mod step;
pub mod stream;

pub use chunk::chunks_equal;
pub use scan::{diff, diff_files, diff_files_chunked, CHUNK_LEN};
pub use step::{diff_step, Step};
pub use stream::ByteStream;
