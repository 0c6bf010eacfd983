use rust_usbtmc::instrument::{Instrument, DEFAULT_MAX_TRANSFER_SIZE, DEFAULT_TIMEOUT_MS};

#[test]
fn new_has_documented_defaults() {
    let ins = Instrument::new(0x0699, 0x0368);
    assert_eq!(ins.vid, 0x0699);
    assert_eq!(ins.pid, 0x0368);
    assert_eq!(ins.bus, None);
    assert_eq!(ins.address, None);
    assert_eq!(ins.last_btag, 0);
    assert_eq!(ins.max_transfer_size, 1024 * 1024);
    assert_eq!(ins.max_transfer_size, DEFAULT_MAX_TRANSFER_SIZE);
    assert_eq!(ins.timeout_ms, 1000);
    assert_eq!(ins.timeout_ms, DEFAULT_TIMEOUT_MS);
}

#[test]
fn new_filtered_keeps_bus_and_address() {
    let ins = Instrument::new_filtered(0x0699, 0x0368, 1, 4);
    assert_eq!(ins.bus, Some(1));
    assert_eq!(ins.address, Some(4));
}

#[test]
fn info_is_empty() {
    let ins = Instrument::new(1, 2);
    assert_eq!(ins.info().unwrap(), String::new());
}

#[test]
fn envelope_bytes_for_every_tag() {
    // Walk two full cycles of the tag counter: byte 1 is the tag, byte 2 its
    // bitwise complement, the tag never leaves [1, 255] and never is 0.
    let mut ins = Instrument::new(1, 2);
    let mut expected: u16 = 1;
    for _ in 0..510 {
        let h = ins.pack_bulk_out_header(1);
        let t = h[1];
        assert_ne!(t, 0);
        assert_eq!(t as u16, expected);
        assert_eq!(h.len(), 4);
        assert_eq!(h[0], 1);
        assert_eq!(h[2], !t & 0xFF);
        assert_eq!(h[3], 0);
        expected = if expected == 255 { 1 } else { expected + 1 };
    }
}

#[test]
fn tag_wraps_from_255_to_1() {
    let mut ins = Instrument::new(1, 2);
    ins.last_btag = 255;
    let h = ins.pack_bulk_out_header(1);
    assert_eq!(h[1], 1);
    assert_eq!(ins.last_btag, 1);
}

#[test]
fn little_write_u32_is_little_endian() {
    let ins = Instrument::new(1, 2);
    assert_eq!(ins.little_write_u32(0x12345678), vec![0x78, 0x56, 0x34, 0x12]);
    assert_eq!(ins.little_write_u32(0), vec![0, 0, 0, 0]);
    assert_eq!(ins.little_write_u32(1024 * 1024), vec![0x00, 0x00, 0x10, 0x00]);
}

#[test]
fn msg_out_header_layout() {
    let mut ins = Instrument::new(1, 2);
    let h = ins.pack_dev_dep_msg_out_header(12, true);
    assert_eq!(h, vec![1, 1, 254, 0, 12, 0, 0, 0, 1, 0, 0, 0]);
    let h = ins.pack_dev_dep_msg_out_header(300, false);
    assert_eq!(h, vec![1, 2, 253, 0, 44, 1, 0, 0, 0, 0, 0, 0]);
}

#[test]
fn msg_in_header_term_char_disabled() {
    let mut ins = Instrument::new(1, 2);
    let h = ins.pack_dev_dep_msg_in_header(1024 * 1024, 0);
    assert_eq!(h, vec![2, 1, 254, 0, 0x00, 0x00, 0x10, 0x00, 0, 0, 0, 0]);
}

#[test]
fn msg_in_header_term_char_enabled() {
    let mut ins = Instrument::new(1, 2);
    let h = ins.pack_dev_dep_msg_in_header(512, b'\n');
    // Byte after envelope and size is 0x02 when a term char is set; the
    // following byte carries the term char itself.
    assert_eq!(h, vec![2, 1, 254, 0, 0, 2, 0, 0, 0x02, b'\n', 0, 0]);
}

#[test]
fn padded_frame_length_is_multiple_of_four() {
    // For every payload length up to a few chunk's worth, the single frame
    // is 12 + L + pad bytes with pad = (4 - L % 4) % 4, a multiple of 4.
    for l in 1usize..=64 {
        let mut ins = Instrument::new(1, 2);
        let payload = vec![b'x'; l];
        let frames = ins.build_out_frames(&payload);
        assert_eq!(frames.len(), 1);
        let pad = (4 - l % 4) % 4;
        assert_eq!(frames[0].len(), 12 + l + pad);
        assert_eq!(frames[0].len() % 4, 0);
    }
}

#[test]
fn empty_payload_builds_no_frames() {
    let mut ins = Instrument::new(1, 2);
    let frames = ins.build_out_frames(&[]);
    assert_eq!(frames.len(), 0);
    assert_eq!(ins.last_btag, 0);
}

#[test]
fn chunking_counts_and_eom_flags() {
    // ceil(10 / 4) = 3 chunks of sizes 4, 4, 2; EOM only on the last.
    let mut ins = Instrument::new(1, 2);
    ins.max_transfer_size = 4;
    let data: Vec<u8> = (0u8..10).collect();
    let frames = ins.build_out_frames(&data);
    assert_eq!(frames.len(), 3);
    assert_eq!(frames[0], vec![1, 1, 254, 0, 4, 0, 0, 0, 0, 0, 0, 0, 0, 1, 2, 3]);
    assert_eq!(frames[1], vec![1, 2, 253, 0, 4, 0, 0, 0, 0, 0, 0, 0, 4, 5, 6, 7]);
    // Last chunk: 2 payload bytes, EOM set, 2 bytes of zero padding.
    assert_eq!(frames[2], vec![1, 3, 252, 0, 2, 0, 0, 0, 1, 0, 0, 0, 8, 9, 0, 0]);
    assert_eq!(ins.last_btag, 3);
}

#[test]
fn chunking_exact_multiple_sets_eom_on_last_only() {
    // ceil(8 / 4) = 2 chunks; EOM false on the first, true on the second.
    let mut ins = Instrument::new(1, 2);
    ins.max_transfer_size = 4;
    let data: Vec<u8> = (0u8..8).collect();
    let frames = ins.build_out_frames(&data);
    assert_eq!(frames.len(), 2);
    assert_eq!(frames[0][8], 0);
    assert_eq!(frames[1][8], 1);
    assert_eq!(&frames[1][12..], &[4, 5, 6, 7]);
}

#[test]
fn single_chunk_has_eom() {
    let mut ins = Instrument::new(1, 2);
    let frames = ins.build_out_frames(b"*IDN?");
    assert_eq!(frames.len(), 1);
    assert_eq!(frames[0][8], 1);
}
