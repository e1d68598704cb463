use o324_daemon::common::inter_process_storage::{
    encode_length, frame, payload_for_update, read_length, stored_payload, FrameError, LENGTH_HEADER_SIZE,
};

#[test]
fn length_header_is_little_endian() {
    assert_eq!(encode_length(1), vec![1, 0, 0, 0, 0, 0, 0, 0]);
    assert_eq!(encode_length(0x0102), vec![2, 1, 0, 0, 0, 0, 0, 0]);
    assert_eq!(read_length(&[0x10, 0x27, 0, 0, 0, 0, 0, 0, 9, 9]), 10000);
    assert_eq!(read_length(&encode_length(u64::MAX)), u64::MAX);
    assert_eq!(encode_length(123456789), 123456789u64.to_le_bytes().to_vec());
}

#[test]
fn empty_record_reads_as_default() {
    let buffer = vec![0u8; 64];
    assert_eq!(stored_payload(&buffer), Ok(None));
    assert_eq!(payload_for_update(&buffer), None);
}

#[test]
fn inconsistent_length_is_refused() {
    let mut buffer = vec![0u8; 16];
    buffer[0] = 9;
    assert_eq!(stored_payload(&buffer), Err(FrameError::InconsistentLength { length: 9, size: 16 }));
}

#[test]
fn read_gives_back_what_was_written() {
    let payload = vec![7u8, 8, 9];
    let bytes = frame(&payload, 32).expect("fits");
    assert_eq!(bytes.len(), LENGTH_HEADER_SIZE + 3);
    let mut area = vec![0u8; 32];
    area[..bytes.len()].copy_from_slice(&bytes);
    assert_eq!(stored_payload(&area), Ok(Some(payload.clone())));
    assert_eq!(payload_for_update(&area), Some(payload));
}

#[test]
fn too_large_record_is_refused() {
    let payload = vec![1u8; 10];
    assert_eq!(frame(&payload, 16), Err(FrameError::TooLarge { length: 10, capacity: 8 }));
    assert!(frame(&vec![1u8; 8], 16).is_ok());
}

#[test]
fn corrupted_header_makes_an_update_start_afresh() {
    let mut buffer = vec![5u8; 16];
    buffer[..8].copy_from_slice(&encode_length(9));
    assert_eq!(payload_for_update(&buffer), None);
    buffer[..8].copy_from_slice(&encode_length(8));
    assert_eq!(payload_for_update(&buffer), Some(vec![5u8; 8]));
}

#[test]
fn successive_updates_each_start_from_the_last_record() {
    let mut area = vec![0u8; 32];
    assert_eq!(payload_for_update(&area), None);
    let first = frame(&vec![1u8, 2], 32).expect("fits");
    area[..first.len()].copy_from_slice(&first);
    assert_eq!(payload_for_update(&area), Some(vec![1u8, 2]));
    let second = frame(&vec![3u8], 32).expect("fits");
    area[..second.len()].copy_from_slice(&second);
    assert_eq!(payload_for_update(&area), Some(vec![3u8]));
    assert_eq!(stored_payload(&area), Ok(Some(vec![3u8])));
}
