use rust_usbtmc::error::UsbtmcError;
use rust_usbtmc::instrument::Instrument;
use rust_usbtmc::response::parse_response;

#[test]
fn response_line_after_header_is_returned() {
    // A buffer of the 12 assumed header bytes followed by "HELLO\n".
    let mut buf = vec![0u8; 12];
    buf.extend_from_slice(b"HELLO\n");
    assert_eq!(parse_response(&buf), Ok(String::from("HELLO")));
}

#[test]
fn carriage_return_terminates_the_line() {
    let mut buf = vec![0u8; 12];
    buf.extend_from_slice(b"OK\rrest");
    assert_eq!(parse_response(&buf), Ok(String::from("OK")));
}

#[test]
fn buffer_without_terminator_is_read_whole() {
    let mut buf = vec![0u8; 12];
    buf.extend_from_slice(b"AB");
    assert_eq!(parse_response(&buf), Ok(String::from("AB")));
}

#[test]
fn short_buffer_is_a_decode_error() {
    let buf = vec![0u8; 5];
    assert_eq!(parse_response(&buf), Err(UsbtmcError::Decode));
}

#[test]
fn terminator_inside_header_is_a_decode_error() {
    let mut buf = vec![0u8; 12];
    buf[3] = b'\n';
    buf.extend_from_slice(b"HELLO\n");
    assert_eq!(parse_response(&buf), Err(UsbtmcError::Decode));
}

#[test]
fn invalid_text_is_a_decode_error() {
    let mut buf = vec![0u8; 12];
    buf.extend_from_slice(&[0xFF, 0xFE, b'\n']);
    assert_eq!(parse_response(&buf), Err(UsbtmcError::Decode));
}

#[test]
fn write_then_ask_issues_the_documented_transfers() {
    // The transfers a write of "SELECT:CH1 1" followed by an ask of "*IDN?"
    // put on the bulk-out endpoint, in order.
    let mut ins = Instrument::new(0x0699, 0x0368);

    // write("SELECT:CH1 1"): one DEV_DEP_MSG_OUT frame, tag 1, EOM set,
    // 12 payload bytes, no padding.
    let first = ins.build_out_frames(b"SELECT:CH1 1");
    assert_eq!(first.len(), 1);
    let mut expected1 = vec![1, 1, 254, 0, 12, 0, 0, 0, 1, 0, 0, 0];
    expected1.extend_from_slice(b"SELECT:CH1 1");
    assert_eq!(first[0], expected1);

    // ask("*IDN?"), first half: one DEV_DEP_MSG_OUT frame, tag 2, EOM set,
    // 5 payload bytes, 3 bytes of zero padding.
    let second = ins.build_out_frames(b"*IDN?");
    assert_eq!(second.len(), 1);
    let mut expected2 = vec![1, 2, 253, 0, 5, 0, 0, 0, 1, 0, 0, 0];
    expected2.extend_from_slice(b"*IDN?");
    expected2.extend_from_slice(&[0, 0, 0]);
    assert_eq!(second[0], expected2);

    // ask("*IDN?"), second half: one DEV_DEP_MSG_IN request, tag 3,
    // requested size = max transfer size, term char disabled.
    let max = ins.max_transfer_size as usize;
    let request = ins.pack_dev_dep_msg_in_header(max, 0);
    assert_eq!(request, vec![2, 3, 252, 0, 0x00, 0x00, 0x10, 0x00, 0, 0, 0, 0]);

    // The bulk read that follows has its leading 12 bytes stripped before
    // decoding.
    let mut response = vec![0u8; 12];
    response.extend_from_slice(b"TEKTRONIX,TDS 210\n");
    assert_eq!(parse_response(&response), Ok(String::from("TEKTRONIX,TDS 210")));
}
