use file_diff::{diff_files, diff_files_chunked, ByteStream, CHUNK_LEN};

fn pattern(len: usize) -> Vec<u8> {
    let mut bytes = Vec::with_capacity(len);
    for i in 0..len {
        bytes.push((i * 7 % 256) as u8);
    }
    bytes
}

#[test]
fn chunk_length_is_1024() {
    assert_eq!(CHUNK_LEN, 1024);
}

#[test]
fn two_handles_on_the_same_content_are_equal() {
    let content = pattern(3000);
    let mut first = ByteStream::new(content.clone());
    let mut second = ByteStream::new(content);
    assert!(diff_files(&mut first, &mut second));
    assert_eq!(first.remaining(), 0);
    assert_eq!(second.remaining(), 0);
}

#[test]
fn empty_streams_are_equal() {
    let mut first = ByteStream::new(Vec::new());
    let mut second = ByteStream::new(Vec::new());
    assert!(diff_files(&mut first, &mut second));
    assert_eq!(first.remaining(), 0);
    assert_eq!(second.remaining(), 0);
}

#[test]
fn empty_stream_differs_from_any_other() {
    let mut first = ByteStream::new(Vec::new());
    let mut second = ByteStream::new(vec![0]);
    assert!(!diff_files(&mut first, &mut second));
    let mut first = ByteStream::new(pattern(5000));
    let mut second = ByteStream::new(Vec::new());
    assert!(!diff_files(&mut first, &mut second));
}

#[test]
fn last_byte_differs_for_every_chunk_length() {
    let a = pattern(5000);
    let mut b = a.clone();
    b[4999] ^= 0x55;
    for chunk in [1usize, 16, 1024, 4999, 5000, 5001, 1_000_000, usize::MAX] {
        let mut first = ByteStream::new(a.clone());
        let mut second = ByteStream::new(b.clone());
        assert!(!diff_files_chunked(&mut first, &mut second, chunk));
        let mut first = ByteStream::new(a.clone());
        let mut second = ByteStream::new(a.clone());
        assert!(diff_files_chunked(&mut first, &mut second, chunk));
    }
}

#[test]
fn length_decides_whatever_the_shared_prefix() {
    let long = pattern(2048);
    for len in [0usize, 1, 1023, 1024, 1025, 2047] {
        let mut first = ByteStream::new(long.clone());
        let mut second = ByteStream::new(long[..len].to_vec());
        assert!(!diff_files(&mut first, &mut second));
        let mut first = ByteStream::new(long[..len].to_vec());
        let mut second = ByteStream::new(long.clone());
        assert!(!diff_files(&mut first, &mut second));
    }
}

#[test]
fn every_byte_value_counts_at_every_position() {
    let base = vec![0u8, b'\n', 0xff, b'\r', 0, 0x80, b'\n', 0];
    for at in 0..base.len() {
        for value in 0..=255u8 {
            let mut changed = base.clone();
            changed[at] = value;
            let mut first = ByteStream::new(base.clone());
            let mut second = ByteStream::new(changed);
            assert_eq!(diff_files_chunked(&mut first, &mut second, 3), base[at] == value);
        }
    }
}

#[test]
fn trailing_newline_is_a_difference() {
    let mut first = ByteStream::new(b"line\n".to_vec());
    let mut second = ByteStream::new(b"line".to_vec());
    assert!(!diff_files(&mut first, &mut second));
}

#[test]
fn scan_stops_after_the_chunk_that_differs() {
    let a = pattern(100);
    let mut b = a.clone();
    b[25] = b[25].wrapping_add(1);
    let mut first = ByteStream::new(a);
    let mut second = ByteStream::new(b);
    assert!(!diff_files_chunked(&mut first, &mut second, 10));
    assert_eq!(first.remaining(), 70);
    assert_eq!(second.remaining(), 70);
}

#[test]
fn scan_stops_where_the_shorter_stream_ends() {
    let a = pattern(100);
    let mut first = ByteStream::new(a.clone());
    let mut second = ByteStream::new(a[..33].to_vec());
    assert!(!diff_files_chunked(&mut first, &mut second, 10));
    assert_eq!(first.remaining(), 60);
    assert_eq!(second.remaining(), 0);
    let mut first = ByteStream::new(a[..30].to_vec());
    let mut second = ByteStream::new(a);
    assert!(!diff_files_chunked(&mut first, &mut second, 10));
    assert_eq!(first.remaining(), 0);
    assert_eq!(second.remaining(), 60);
}

#[test]
fn scan_starts_at_the_cursor() {
    let mut first = ByteStream::new(b"abcdef".to_vec());
    assert_eq!(first.read_chunk(2), Some(&b"ab"[..]));
    let mut second = ByteStream::new(b"cdef".to_vec());
    assert!(diff_files(&mut first, &mut second));
}

#[test]
fn failed_read_means_not_equal() {
    let content = pattern(2000);
    let mut first = ByteStream::broken_after(content.clone());
    let mut second = ByteStream::new(content.clone());
    assert!(!diff_files(&mut first, &mut second));
    assert_eq!(first.remaining(), 0);
    assert_eq!(second.remaining(), 0);
    let mut first = ByteStream::new(content.clone());
    let mut second = ByteStream::broken_after(content.clone());
    assert!(!diff_files(&mut first, &mut second));
    let mut first = ByteStream::broken_after(content.clone());
    let mut second = ByteStream::broken_after(content);
    assert!(!diff_files(&mut first, &mut second));
    let mut first = ByteStream::broken_after(Vec::new());
    let mut second = ByteStream::new(Vec::new());
    assert!(!diff_files(&mut first, &mut second));
}

#[test]
fn read_chunk_hands_out_the_data_in_order() {
    let mut stream = ByteStream::new(b"hello\0world".to_vec());
    assert!(!stream.is_broken());
    assert_eq!(stream.remaining(), 11);
    assert_eq!(stream.read_chunk(6), Some(&b"hello\0"[..]));
    assert_eq!(stream.remaining(), 5);
    assert_eq!(stream.read_chunk(0), Some(&b""[..]));
    assert_eq!(stream.remaining(), 5);
    assert_eq!(stream.read_chunk(6), Some(&b"world"[..]));
    assert_eq!(stream.remaining(), 0);
    assert_eq!(stream.read_chunk(6), Some(&b""[..]));
    assert_eq!(stream.read_chunk(6), Some(&b""[..]));
}

#[test]
fn broken_stream_fails_after_its_data() {
    let mut stream = ByteStream::broken_after(b"abc".to_vec());
    assert!(stream.is_broken());
    assert_eq!(stream.read_chunk(2), Some(&b"ab"[..]));
    assert_eq!(stream.read_chunk(2), Some(&b"c"[..]));
    assert_eq!(stream.read_chunk(2), None);
    assert_eq!(stream.read_chunk(2), None);
    assert_eq!(stream.remaining(), 0);
}
