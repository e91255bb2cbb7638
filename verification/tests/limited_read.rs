use spacetimedb_lib::limited_read::{smallest_non_zero, LimitedRead, ReadError, ReadStep};
use spacetimedb_lib::zeroizing::MAX_BUF_SIZE;

const TEST_MAX_SIZE: usize = 1_048_576; // 1 MiB

/// A file in memory: how long its metadata say it is, what it holds, and how much it gives in one
/// read. A file without content never ends, and gives zeros.
struct MemoryFile {
    file_len: u64,
    content: Option<Vec<u8>>,
    per_read: usize,
    at: usize,
}

impl MemoryFile {
    fn regular(content: Vec<u8>) -> Self {
        MemoryFile { file_len: content.len() as u64, content: Some(content), per_read: usize::MAX, at: 0 }
    }

    fn of_size(size: usize) -> Self {
        MemoryFile::regular(vec![0u8; size])
    }

    fn endless() -> Self {
        MemoryFile { file_len: 0, content: None, per_read: usize::MAX, at: 0 }
    }

    fn read(&mut self, buf: &mut [u8]) -> usize {
        let wanted = buf.len().min(self.per_read);
        match &self.content {
            Some(content) => {
                let n = wanted.min(content.len() - self.at);
                buf[..n].copy_from_slice(&content[self.at..self.at + n]);
                self.at += n;
                n
            }
            None => {
                buf[..wanted].fill(0);
                wanted
            }
        }
    }
}

fn read_file_limited(mut file: MemoryFile, max_size: usize) -> Result<Vec<u8>, ReadError> {
    let mut read = LimitedRead::begin(file.file_len, max_size)?;
    loop {
        match read.next_step() {
            ReadStep::Read(to_read) => {
                let n = file.read(&mut read.buffer_mut()[..to_read]);
                read.absorb(n);
            }
            ReadStep::Probe => {
                let extra = file.read(&mut read.buffer_mut()[..1]);
                return read.finish(extra);
            }
            ReadStep::Finish => return read.finish(0),
        }
    }
}

fn expect_whole(size: usize) {
    let result = read_file_limited(MemoryFile::of_size(size), TEST_MAX_SIZE);
    assert!(result.is_ok(), "Expected success for {} bytes, got {:?}", size, result);
    let data = result.unwrap();
    assert_eq!(data.len(), size, "Expected {} bytes, got {}", size, data.len());
}

#[test]
fn test_1x_buf_size_minus_1() {
    expect_whole(MAX_BUF_SIZE - 1);
}

#[test]
fn test_1x_buf_size() {
    expect_whole(MAX_BUF_SIZE);
}

#[test]
fn test_1x_buf_size_plus_1() {
    expect_whole(MAX_BUF_SIZE + 1);
}

#[test]
fn test_2x_buf_size_minus_1() {
    expect_whole(2 * MAX_BUF_SIZE - 1);
}

#[test]
fn test_2x_buf_size() {
    expect_whole(2 * MAX_BUF_SIZE);
}

#[test]
fn test_2x_buf_size_plus_1() {
    expect_whole(2 * MAX_BUF_SIZE + 1);
}

#[test]
fn test_3x_buf_size_minus_1() {
    expect_whole(3 * MAX_BUF_SIZE - 1);
}

#[test]
fn test_3x_buf_size() {
    expect_whole(3 * MAX_BUF_SIZE);
}

#[test]
fn test_3x_buf_size_plus_1() {
    expect_whole(3 * MAX_BUF_SIZE + 1);
}

#[test]
fn test_max_allowed_size() {
    expect_whole(TEST_MAX_SIZE - 1);
}

#[test]
fn test_exactly_max_size() {
    expect_whole(TEST_MAX_SIZE);
}

#[test]
fn test_dev_zero() {
    let result = read_file_limited(MemoryFile::endless(), TEST_MAX_SIZE);
    assert!(result.is_err(), "Expected failure for /dev/zero, got {:?}", result);
    let err = result.unwrap_err().message("/dev/zero");
    assert!(err.contains("has more data"), "Expected extra data error, got {}", err);
    assert_eq!(
        err,
        "File /dev/zero has more data after reading 1048576 bytes, exceeding maximum size of 1048576 bytes"
    );
}

#[test]
fn test_empty_file() {
    expect_whole(0);
}

#[test]
fn test_small_file() {
    expect_whole(2 * 1024);
}

#[test]
fn test_content_verification() {
    let sizes = [
        0,
        1,
        1024,
        MAX_BUF_SIZE - 1,
        MAX_BUF_SIZE,
        MAX_BUF_SIZE + 1,
        2 * MAX_BUF_SIZE - 1,
        2 * MAX_BUF_SIZE,
        2 * MAX_BUF_SIZE + 1,
        3 * MAX_BUF_SIZE - 1,
        3 * MAX_BUF_SIZE,
        3 * MAX_BUF_SIZE + 1,
    ];
    for &size in sizes.iter() {
        let mut data: Vec<u8> = Vec::with_capacity(size);
        for i in 0..size {
            data.push((i % 256) as u8);
        }
        let result = read_file_limited(MemoryFile::regular(data), TEST_MAX_SIZE);
        assert!(result.is_ok(), "Expected success for {} bytes, got {:?}", size, result);
        let read_data = result.unwrap();
        assert_eq!(read_data.len(), size, "Expected {} bytes, got {} bytes", size, read_data.len());
        for (i, &byte) in read_data.iter().enumerate() {
            assert_eq!(byte, (i % 256) as u8, "Content mismatch at index {} for size {}", i, size);
        }
    }
}

#[test]
fn short_reads_are_put_together() {
    let content: Vec<u8> = (0..1000u32).map(|i| (i % 251) as u8).collect();
    for per_read in [1, 7, 999, 1000, 1001] {
        let mut file = MemoryFile::regular(content.clone());
        file.per_read = per_read;
        assert_eq!(read_file_limited(file, 1000), Ok(content.clone()));
    }
}

#[test]
fn a_file_that_is_too_long_is_not_read() {
    let result = read_file_limited(MemoryFile::of_size(11), 10);
    assert_eq!(result, Err(ReadError::TooLarge { file_len: 11, max_size: 10 }));
    assert_eq!(
        result.unwrap_err().message("a.crt"),
        "File a.crt is 11 bytes, which exceeds expected-maximum size of 10 bytes"
    );
}

#[test]
fn a_file_of_unknown_length_may_fill_the_limit() {
    let mut file = MemoryFile::regular(vec![5; 10]);
    file.file_len = 0;
    assert_eq!(read_file_limited(file, 10), Ok(vec![5; 10]));
    let mut file = MemoryFile::regular(vec![5; 11]);
    file.file_len = 0;
    assert_eq!(
        read_file_limited(file, 10),
        Err(ReadError::MoreData { read_len: 10, max_size: 10 })
    );
}

#[test]
fn a_file_that_shrank_is_read_to_its_end() {
    let mut file = MemoryFile::regular(vec![5; 4]);
    file.file_len = 8;
    assert_eq!(read_file_limited(file, 10), Ok(vec![5; 4]));
}

#[test]
fn a_file_that_grew_is_read_to_its_former_length() {
    let mut file = MemoryFile::regular(vec![5; 9]);
    file.file_len = 8;
    assert_eq!(read_file_limited(file, 10), Ok(vec![5; 8]));
}

#[test]
fn zero_asks_for_no_limit() {
    assert_eq!(read_file_limited(MemoryFile::of_size(3), 0), Ok(vec![0; 3]));
    assert_eq!(read_file_limited(MemoryFile::of_size(0), 0), Ok(vec![]));
}

#[test]
fn bytes_without_limit_and_known_length_are_kept_while_they_move() {
    let content: Vec<u8> = (0..3 * MAX_BUF_SIZE + 5).map(|i| (i % 251) as u8).collect();
    for per_read in [usize::MAX, 1000] {
        let file = MemoryFile { file_len: 0, content: Some(content.clone()), per_read, at: 0 };
        assert_eq!(read_file_limited(file, 0), Ok(content.clone()));
    }
}

#[test]
fn smallest_known_number() {
    assert_eq!(smallest_non_zero(0, 5), 5);
    assert_eq!(smallest_non_zero(5, 0), 5);
    assert_eq!(smallest_non_zero(3, 5), 3);
    assert_eq!(smallest_non_zero(5, 3), 3);
}

#[test]
fn texts_of_read_errors() {
    assert_eq!(ReadError::Open.message("p"), "Failed to open file: p");
    assert_eq!(ReadError::Metadata.message("p"), "Failed to read metadata for p");
    assert_eq!(
        ReadError::Length.message("p"),
        format!("File size for p exceeds usize::MAX ({}) or is invalid", usize::MAX)
    );
    assert_eq!(ReadError::Read.message("p"), "Failed to read file: p");
    assert_eq!(ReadError::Probe.message("p"), "Failed to check for extra data: p");
}
