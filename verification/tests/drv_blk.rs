//! The block driver.

use kumo_userland::drv_blk::{
    map_length, read_payload, respond, split_write_frame, BlockDevice, Request, ResponseError,
    BLOCK_SIZE, CMD_READ, MAX_VMO_MAP, REQUEST_LEN, RESPONSE_LEN, STATUS_BAD_LBA, STATUS_BAD_LEN,
    STATUS_OK,
};

#[test]
fn zero_len_device_has_zero_blocks() {
    let dev = BlockDevice::new(0);
    assert_eq!(dev.block_count(), 0);
}

#[test]
fn exact_block_multiple() {
    let dev = BlockDevice::new(1024);
    assert_eq!(dev.block_count(), 2);
}

#[test]
fn partial_sector_ignored() {
    let dev = BlockDevice::new(1023);
    assert_eq!(dev.block_count(), 1);
}

#[test]
fn offset_is_lba_times_block_size() {
    assert_eq!(BlockDevice::offset_for_lba(0), 0);
    assert_eq!(BlockDevice::offset_for_lba(1), 512);
    assert_eq!(BlockDevice::offset_for_lba(100), 51200);
}

#[test]
fn bounds_check_catches_oob_lba() {
    let dev = BlockDevice::new(1024); // 2 blocks
    assert!(dev.check_bounds(0, 1));
    assert!(dev.check_bounds(1, 1));
    assert!(dev.check_bounds(0, 2));
    assert!(!dev.check_bounds(2, 1)); // LBA out of range
    assert!(!dev.check_bounds(0, 3)); // count exceeds blocks
}

#[test]
fn request_round_trips() {
    let req = Request::read(0x1234_5678_9abc, 4);
    assert_eq!(req.cmd, CMD_READ);
    assert_eq!(Request::decode(&req.encode()), Some(req));
}

#[test]
fn request_wire_layout_is_le() {
    let bytes = Request::read(0x0102, 0x0304).encode();
    assert_eq!(bytes.len(), REQUEST_LEN);
    assert_eq!(bytes[0], CMD_READ);
    assert_eq!(&bytes[1..9], &0x0102u64.to_le_bytes());
    assert_eq!(&bytes[9..11], &0x0304u16.to_le_bytes());
}

#[test]
fn request_decode_rejects_short_frame() {
    assert_eq!(Request::decode(&[0u8; REQUEST_LEN - 1]), None);
}

#[test]
fn read_payload_returns_data_on_ok() {
    assert_eq!(read_payload(&[STATUS_OK, 1, 2, 3]), Ok(&[1u8, 2, 3][..]));
}

#[test]
fn read_payload_surfaces_bad_status() {
    assert_eq!(
        read_payload(&[STATUS_BAD_LBA]),
        Err(ResponseError::Status(STATUS_BAD_LBA))
    );
    assert_eq!(read_payload(&[]), Err(ResponseError::Empty));
}

#[test]
fn write_then_read_back_returns_the_written_bytes() {
    let dev = BlockDevice::new(4 * BLOCK_SIZE); // 4 blocks
    let mut store = [0u8; 4 * BLOCK_SIZE as usize];
    let mut data = [0u8; BLOCK_SIZE as usize];
    data.iter_mut().for_each(|b| *b = 0xAB);
    // Write block 2, then read it back.
    assert_eq!(dev.write_blocks(&mut store, 2, 1, &data), STATUS_OK);
    assert_eq!(dev.read_blocks(&store, 2, 1), Ok(&data[..]));
    // Neighbours stay zero — the write touched exactly its block.
    assert_eq!(
        dev.read_blocks(&store, 1, 1),
        Ok(&[0u8; BLOCK_SIZE as usize][..])
    );
    assert_eq!(
        dev.read_blocks(&store, 3, 1),
        Ok(&[0u8; BLOCK_SIZE as usize][..])
    );
}

#[test]
fn read_and_write_reject_out_of_range() {
    let dev = BlockDevice::new(2 * BLOCK_SIZE); // 2 blocks
    let mut store = [0u8; 2 * BLOCK_SIZE as usize];
    let data = [0u8; BLOCK_SIZE as usize];
    assert_eq!(dev.read_blocks(&store, 2, 1), Err(STATUS_BAD_LBA));
    assert_eq!(dev.read_blocks(&store, 0, 3), Err(STATUS_BAD_LBA));
    assert_eq!(dev.write_blocks(&mut store, 2, 1, &data), STATUS_BAD_LBA);
}

#[test]
fn read_rejects_a_range_beyond_the_mapped_store() {
    // Device advertises 4 blocks but only 2 are mapped: a read of an unmapped-but-in-range
    // block is a clean error, never a fault.
    let dev = BlockDevice::new(4 * BLOCK_SIZE);
    let store = [0u8; 2 * BLOCK_SIZE as usize];
    assert_eq!(
        dev.read_blocks(&store, 0, 1),
        Ok(&store[..BLOCK_SIZE as usize])
    );
    assert_eq!(dev.read_blocks(&store, 3, 1), Err(STATUS_BAD_LBA));
}

#[test]
fn write_rejects_mismatched_data_length() {
    let dev = BlockDevice::new(2 * BLOCK_SIZE);
    let mut store = [0u8; 2 * BLOCK_SIZE as usize];
    let short = [0u8; BLOCK_SIZE as usize - 1];
    assert_eq!(dev.write_blocks(&mut store, 0, 1, &short), STATUS_BAD_LEN);
}

#[test]
fn split_write_frame_round_trips_header_and_data() {
    let mut frame = [0u8; REQUEST_LEN + BLOCK_SIZE as usize];
    frame[..REQUEST_LEN].copy_from_slice(&Request::write(5, 1).encode());
    frame[REQUEST_LEN..].iter_mut().for_each(|b| *b = 0xCD);
    let (req, data) = split_write_frame(&frame).unwrap();
    assert_eq!(req, Request::write(5, 1));
    assert_eq!(data.len(), BLOCK_SIZE as usize);
    assert!(data.iter().all(|&b| b == 0xCD));
}

#[test]
fn split_write_frame_rejects_short_data_and_wrong_command() {
    // Header says 1 block but no data follows.
    let header = Request::write(0, 1).encode();
    assert_eq!(split_write_frame(&header), Err(STATUS_BAD_LEN));
    // A read command is not a valid write frame.
    let read = Request::read(0, 1).encode();
    assert_eq!(split_write_frame(&read), Err(STATUS_BAD_LBA));
}

#[test]
fn split_write_frame_rejects_surplus_data() {
    let mut frame = [0u8; REQUEST_LEN + BLOCK_SIZE as usize + 1];
    frame[..REQUEST_LEN].copy_from_slice(&Request::write(5, 1).encode());
    assert_eq!(split_write_frame(&frame), Err(STATUS_BAD_LEN));
}

#[test]
fn a_read_is_answered_with_status_and_data() {
    let dev = BlockDevice::new(2 * BLOCK_SIZE);
    let mut store = [0u8; 2 * BLOCK_SIZE as usize];
    store[BLOCK_SIZE as usize] = 0x5a;
    let mut buf = [0u8; RESPONSE_LEN];
    let n = respond(&dev, &store, &Request::read(1, 1).encode(), &mut buf).unwrap();
    assert_eq!(n, 1 + BLOCK_SIZE as usize);
    assert_eq!(read_payload(&buf[..n]).unwrap()[0], 0x5a);
    assert_eq!(respond(&dev, &store, &Request::read(2, 1).encode(), &mut buf), Some(1));
    assert_eq!(buf[0], STATUS_BAD_LBA);
    assert_eq!(respond(&dev, &store, &Request::write(1, 1).encode(), &mut buf), Some(1));
    assert_eq!(buf[0], STATUS_OK);
    assert_eq!(respond(&dev, &store, &[CMD_READ], &mut buf), None);
}

#[test]
fn long_reads_are_cut_at_the_response_buffer() {
    let dev = BlockDevice::new(16 * BLOCK_SIZE);
    let store = [7u8; 16 * BLOCK_SIZE as usize];
    let mut buf = [0u8; RESPONSE_LEN];
    assert_eq!(
        respond(&dev, &store, &Request::read(0, 16).encode(), &mut buf),
        Some(RESPONSE_LEN)
    );
}

#[test]
fn the_mapping_is_whole_pages_up_to_its_cap() {
    assert_eq!(map_length(0), 0);
    assert_eq!(map_length(4097), 4096);
    assert_eq!(map_length(u64::MAX), MAX_VMO_MAP);
}
