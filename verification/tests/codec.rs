use z3_overworld_editor::addr::PcAddr;
use z3_overworld_editor::codec::decompress;
use z3_overworld_editor::error::ImportError;
use z3_overworld_editor::rom::Rom;

fn decode(stream: Vec<u8>, big_endian: bool) -> Result<Vec<u8>, ImportError> {
    let rom = Rom::new(stream);
    decompress(&rom, PcAddr(0), big_endian)
}

#[test]
fn raw_block_of_eight_bytes() {
    // A raw block of length 8 holding 0x41 bytes, then the terminator,
    // decodes to exactly those 8 bytes and nothing more.
    let mut stream = vec![0x07];
    for _ in 0..8 {
        stream.push(0x41);
    }
    stream.push(0xFF);
    assert_eq!(decode(stream, false).unwrap(), vec![0x41; 8]);
}

#[test]
fn byte_run_block() {
    // Type 1, length 4: one following byte repeated.
    let stream = vec![0x23, 0xAB, 0xFF];
    assert_eq!(decode(stream, false).unwrap(), vec![0xAB; 4]);
}

#[test]
fn word_run_block_odd_length() {
    // Type 2, length 5: the byte pair repeated, plus the first byte again.
    let stream = vec![0x44, 0x10, 0x20, 0xFF];
    assert_eq!(decode(stream, false).unwrap(), vec![0x10, 0x20, 0x10, 0x20, 0x10]);
}

#[test]
fn incrementing_block_wraps() {
    // Type 3, length 3, seed 0xFE: increments wrap at 256.
    let stream = vec![0x62, 0xFE, 0xFF];
    assert_eq!(decode(stream, false).unwrap(), vec![0xFE, 0xFF, 0x00]);
}

#[test]
fn back_reference_little_endian() {
    // Emit 4 raw bytes, then copy 3 from offset 1.
    let stream = vec![0x03, 1, 2, 3, 4, 0x82, 0x01, 0x00, 0xFF];
    assert_eq!(decode(stream, false).unwrap(), vec![1, 2, 3, 4, 2, 3, 4]);
}

#[test]
fn back_reference_big_endian() {
    // The same copy with the offset bytes swapped, in big-endian mode.
    let stream = vec![0x03, 1, 2, 3, 4, 0x82, 0x00, 0x01, 0xFF];
    assert_eq!(decode(stream, true).unwrap(), vec![1, 2, 3, 4, 2, 3, 4]);
}

#[test]
fn back_reference_overlapping() {
    // Copy 6 bytes from offset 1 with only 3 bytes emitted: the copy reads
    // bytes it is itself producing, repeating the region cyclically.
    let stream = vec![0x02, 7, 8, 9, 0x85, 0x01, 0x00, 0xFF];
    assert_eq!(decode(stream, false).unwrap(), vec![7, 8, 9, 8, 9, 8, 9, 8, 9]);
}

#[test]
fn extended_length_header() {
    // An extended header: type 1, length 3*256 + 255 + 1 = 1024.
    let stream = vec![0xE7, 0xFF, 0x5A, 0xFF];
    assert_eq!(decode(stream, false).unwrap(), vec![0x5A; 1024]);
}

#[test]
fn empty_stream_is_out_of_bounds() {
    assert_eq!(decode(vec![], false).unwrap_err(), ImportError::OutOfBounds);
}

#[test]
fn truncated_block_is_out_of_bounds() {
    // A raw block of length 8 with only 2 payload bytes present.
    let stream = vec![0x07, 0x41, 0x41];
    assert_eq!(decode(stream, false).unwrap_err(), ImportError::OutOfBounds);
}

#[test]
fn block_type_five_is_rejected() {
    let stream = vec![0xA0, 0x00, 0xFF];
    assert_eq!(decode(stream, false).unwrap_err(), ImportError::BadBlockType);
}

#[test]
fn back_reference_past_cursor_is_rejected() {
    // A back-reference whose offset is not strictly less than the bytes
    // already decoded.
    let stream = vec![0x00, 1, 0x80, 0x01, 0x00, 0xFF];
    assert_eq!(decode(stream, false).unwrap_err(), ImportError::BadBackReference);
}

#[test]
fn terminator_alone_decodes_to_nothing() {
    assert_eq!(decode(vec![0xFF], false).unwrap(), Vec::<u8>::new());
}
