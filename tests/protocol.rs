use vibevault::protocol::{
    chunk_data, Chunk, ChunkReassembler, FrameError, SyncControl, SyncMode, MAX_CHUNK_DATA,
};

#[test]
fn test_chunk_roundtrip() {
    let data = b"Hello, this is a test payload for BLE chunking!";
    let chunks = chunk_data(data);

    assert_eq!(chunks.len(), 1);
    assert_eq!(chunks[0].index, 0);
    assert_eq!(chunks[0].total, 1);

    let bytes = chunks[0].to_bytes();
    let parsed = Chunk::from_bytes(&bytes).unwrap();
    assert_eq!(parsed.data, data.to_vec());
}

#[test]
fn test_large_data_chunking() {
    let data: Vec<u8> = (0..2000).map(|i| (i % 256) as u8).collect();
    let chunks = chunk_data(&data);

    assert!(chunks.len() > 1);

    let mut reassembler = ChunkReassembler::new(chunks[0].total);
    for chunk in chunks {
        let serialized = chunk.to_bytes();
        let parsed = Chunk::from_bytes(&serialized).unwrap();
        reassembler.add_chunk(parsed).unwrap();
    }

    let result = reassembler.reassemble().unwrap();
    assert_eq!(result, data);
}

#[test]
fn test_out_of_order_chunks() {
    let data: Vec<u8> = (0..2000).map(|i| (i % 256) as u8).collect();
    let chunks = chunk_data(&data);
    let total = chunks[0].total;

    let mut reassembler = ChunkReassembler::new(total);

    for chunk in chunks.into_iter().rev() {
        let serialized = chunk.to_bytes();
        let parsed = Chunk::from_bytes(&serialized).unwrap();
        reassembler.add_chunk(parsed).unwrap();
    }

    let result = reassembler.reassemble().unwrap();
    assert_eq!(result, data);
}

#[test]
fn test_crc_corruption_detected() {
    let data = b"test data";
    let chunks = chunk_data(data);
    let mut bytes = chunks[0].to_bytes();

    let last = bytes.len() - 1;
    bytes[last] ^= 0xFF;

    let result = Chunk::from_bytes(&bytes);
    assert!(result.is_err());
    assert!(result.unwrap_err().message().contains("CRC32 mismatch"));
}

#[test]
fn corruption_names_the_chunk_index() {
    let data: Vec<u8> = (0..1200).map(|i| (i % 251) as u8).collect();
    let chunks = chunk_data(&data);
    let mut bytes = chunks[2].to_bytes();
    bytes[10] ^= 0x01;
    match Chunk::from_bytes(&bytes) {
        Err(FrameError::ChecksumMismatch { index, expected_crc, computed_crc }) => {
            assert_eq!(index, 2);
            assert_eq!(expected_crc, chunks[2].crc32);
            assert_ne!(computed_crc, expected_crc);
        }
        other => panic!("unexpected result {:?}", other),
    }
}

#[test]
fn frame_layout_is_little_endian() {
    let chunk = Chunk { index: 0x0102, total: 0x0304, crc32: 0x05060708, data: vec![9, 10] };
    assert_eq!(chunk.to_bytes(), vec![2, 1, 4, 3, 8, 7, 6, 5, 9, 10]);
}

#[test]
fn checksum_is_crc32_ieee() {
    let chunks = chunk_data(b"123456789");
    assert_eq!(chunks[0].crc32, 0xCBF43926);
}

#[test]
fn short_frame_is_refused() {
    assert_eq!(Chunk::from_bytes(&[1, 2, 3]).unwrap_err(), FrameError::TooShort { len: 3 });
}

#[test]
fn chunk_sizes_follow_the_frame_limit() {
    assert_eq!(MAX_CHUNK_DATA, 493);
    let data = vec![7u8; 2000];
    let chunks = chunk_data(&data);
    assert_eq!(chunks.len(), 5);
    for (i, c) in chunks.iter().enumerate() {
        assert_eq!(c.index as usize, i);
        assert_eq!(c.total, 5);
    }
    assert_eq!(chunks[0].data.len(), 493);
    assert_eq!(chunks[4].data.len(), 2000 - 4 * 493);
}

#[test]
fn exact_multiple_makes_no_empty_chunk() {
    let data = vec![1u8; 986];
    let chunks = chunk_data(&data);
    assert_eq!(chunks.len(), 2);
    assert_eq!(chunks[1].data.len(), 493);
}

#[test]
fn empty_payload_round_trips() {
    let chunks = chunk_data(&[]);
    assert!(chunks.is_empty());
    let reassembler = ChunkReassembler::new(0);
    assert!(reassembler.is_complete());
    assert_eq!(reassembler.reassemble().unwrap(), Vec::<u8>::new());
}

#[test]
fn readding_an_index_is_not_counted_twice() {
    let data: Vec<u8> = (0..1000).map(|i| i as u8).collect();
    let chunks = chunk_data(&data);
    assert_eq!(chunks.len(), 3);
    let mut r = ChunkReassembler::new(3);
    assert_eq!(r.add_chunk(chunks[1].clone()), Ok(false));
    assert_eq!(r.add_chunk(chunks[1].clone()), Ok(false));
    assert_eq!(r.progress(), (1, 3));
    assert_eq!(r.add_chunk(chunks[0].clone()), Ok(false));
    assert!(!r.is_complete());
    assert_eq!(r.add_chunk(chunks[2].clone()), Ok(true));
    assert!(r.is_complete());
    assert_eq!(r.reassemble().unwrap(), data);
}

#[test]
fn wrong_total_and_index_are_refused() {
    let mut r = ChunkReassembler::new(2);
    let wrong_total = Chunk { index: 0, total: 3, crc32: 0, data: vec![] };
    assert_eq!(r.add_chunk(wrong_total), Err(FrameError::TotalMismatch { expected: 2, got: 3 }));
    let out_of_range = Chunk { index: 2, total: 2, crc32: 0, data: vec![] };
    assert_eq!(r.add_chunk(out_of_range), Err(FrameError::IndexOutOfRange { index: 2, total: 2 }));
    assert_eq!(r.progress(), (0, 2));
}

#[test]
fn incomplete_reassembly_fails() {
    let mut r = ChunkReassembler::new(2);
    r.add_chunk(Chunk { index: 1, total: 2, crc32: 0, data: vec![5] }).unwrap();
    let err = r.reassemble().unwrap_err();
    assert_eq!(err, FrameError::Incomplete { received: 1, total: 2 });
    assert!(err.message().contains("1/2"));
}

#[test]
fn control_and_mode_bytes() {
    assert_eq!(SyncControl::from_byte(1), Some(SyncControl::StartSync));
    assert_eq!(SyncControl::from_byte(2), Some(SyncControl::AckChunk));
    assert_eq!(SyncControl::from_byte(3), Some(SyncControl::Abort));
    assert_eq!(SyncControl::from_byte(4), Some(SyncControl::Complete));
    assert_eq!(SyncControl::from_byte(0), None);
    assert_eq!(SyncControl::from_byte(5), None);
    assert_eq!(SyncControl::Abort.to_byte(), 3);
    assert_eq!(SyncMode::from_byte(1), Some(SyncMode::Push));
    assert_eq!(SyncMode::from_byte(2), Some(SyncMode::Pull));
    assert_eq!(SyncMode::from_byte(3), None);
    assert_eq!(SyncMode::Pull.to_byte(), 2);
}

#[test]
fn frame_error_texts() {
    let e = FrameError::ChecksumMismatch { index: 7, expected_crc: 0x00ab12cd, computed_crc: 0xffffffff };
    assert_eq!(e.message(), "CRC32 mismatch on chunk 7: expected 00ab12cd, got ffffffff");
    assert_eq!(FrameError::TotalMismatch { expected: 2, got: 30 }.message(), "Chunk total mismatch: expected 2, got 30");
    assert_eq!(FrameError::IndexOutOfRange { index: 5, total: 5 }.message(), "Chunk index 5 out of range (total 5)");
    assert_eq!(FrameError::Incomplete { received: 0, total: 12 }.message(), "Cannot reassemble: only 0/12 chunks received");
    assert_eq!(FrameError::TooShort { len: 3 }.message(), "Chunk too small");
}
