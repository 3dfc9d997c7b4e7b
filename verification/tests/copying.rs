use filehasher::copy;
use filehasher::ByteSink;
use filehasher::ByteSource;
use filehasher::IoError;
use filehasher::MemReader;
use filehasher::MemWriter;

fn copied_bytes(data: &[u8], from_byte: u64, length: u64) -> Result<Vec<u8>, IoError> {
    let mut reader = MemReader::new(data.to_vec());
    reader.seek(from_byte)?;
    let mut writer = MemWriter::new();
    copy(&mut reader, &mut writer, length)?;
    Ok(writer.bytes())
}

#[test]
fn copy_zero_bytes_is_a_no_op() {
    let mut reader = MemReader::new(vec![1u8, 2, 3]);
    reader.seek(2).unwrap();
    let mut writer = MemWriter::new();
    assert_eq!(copy(&mut reader, &mut writer, 0), Ok(()));
    assert_eq!(reader.position(), 2);
    assert_eq!(writer.chunk_count(), 0);
    assert_eq!(writer.bytes(), Vec::<u8>::new());
}

#[test]
fn copy_zero_bytes_succeeds_even_past_the_end() {
    let mut reader = MemReader::new(vec![1u8, 2, 3]);
    reader.seek(50).unwrap();
    let mut writer = MemWriter::new();
    assert_eq!(copy(&mut reader, &mut writer, 0), Ok(()));
    assert_eq!(reader.position(), 50);
    assert_eq!(writer.bytes(), Vec::<u8>::new());
}

#[test]
fn copy_across_chunk_boundaries_is_byte_identical() {
    let data: Vec<u8> = (0u8..=255u8).cycle().take(4096).collect();
    for length in [1u64, 1023, 1024, 1025, 2048, 2049, 4096] {
        let out = copied_bytes(&data, 0, length).unwrap();
        assert_eq!(out, data[..length as usize].to_vec());
    }
}

#[test]
fn copy_starts_at_the_cursor() {
    let data: Vec<u8> = (0u8..200u8).collect();
    let out = copied_bytes(&data, 60, 100).unwrap();
    assert_eq!(out, data[60..160].to_vec());
}

#[test]
fn copy_splits_into_chunks_of_the_fixed_size() {
    let data = vec![5u8; 2500];
    let mut reader = MemReader::new(data);
    let mut writer = MemWriter::new();
    assert_eq!(copy(&mut reader, &mut writer, 2500), Ok(()));
    assert_eq!(writer.chunk_count(), 3);
    assert_eq!(writer.bytes().len(), 2500);
}

#[test]
fn copy_past_the_end_fails_short() {
    let data = vec![8u8; 10];
    assert_eq!(copied_bytes(&data, 0, 11), Err(IoError::ShortRead));
    assert_eq!(copied_bytes(&data, 5, 6), Err(IoError::ShortRead));
    assert_eq!(copied_bytes(&data, 10, 1), Err(IoError::ShortRead));
    assert_eq!(copied_bytes(&data, 0, 5000), Err(IoError::ShortRead));
}

#[test]
fn copy_advances_the_cursor_exactly() {
    let data = vec![3u8; 3000];
    let mut reader = MemReader::new(data);
    let mut writer = MemWriter::new();
    assert_eq!(copy(&mut reader, &mut writer, 1500), Ok(()));
    assert_eq!(reader.position(), 1500);
    assert_eq!(copy(&mut reader, &mut writer, 1500), Ok(()));
    assert_eq!(reader.position(), 3000);
    assert_eq!(writer.bytes(), vec![3u8; 3000]);
}

struct RejectingSink;

impl ByteSink for RejectingSink {
    fn sent(&self) -> vstd::prelude::Seq<vstd::prelude::Seq<u8>> {
        panic!()
    }

    fn reliable(&self) -> bool {
        false
    }

    fn write(&mut self, _buf: &[u8]) -> Result<(), IoError> {
        Err(IoError::WriteFailed)
    }

    fn flush(&mut self) -> Result<(), IoError> {
        Ok(())
    }
}

#[test]
fn copy_propagates_write_failure() {
    let mut reader = MemReader::new(vec![1u8; 2048]);
    let mut sink = RejectingSink;
    assert_eq!(copy(&mut reader, &mut sink, 2048), Err(IoError::WriteFailed));
}

#[test]
fn mem_writer_records_chunks_in_order() {
    let mut writer = MemWriter::new();
    writer.write(b"ab").unwrap();
    writer.write(b"").unwrap();
    writer.write(b"cde").unwrap();
    writer.flush().unwrap();
    assert_eq!(writer.chunk_count(), 3);
    assert_eq!(writer.bytes(), b"abcde".to_vec());
}

#[test]
fn mem_reader_reads_exactly_what_was_asked() {
    let mut reader = MemReader::new(vec![10u8, 11, 12, 13, 14]);
    assert_eq!(reader.read_exact(2), Ok(vec![10u8, 11]));
    assert_eq!(reader.read_exact(3), Ok(vec![12u8, 13, 14]));
    assert_eq!(reader.read_exact(1), Err(IoError::ShortRead));
}
