use sst39sf040::protocol::{bytes_equal, format_read, parse_byte, REPLY_LENGTH};
use sst39sf040::serial::{Serial, CAPACITY};

fn words(text: &str) -> Vec<u16> {
    text.bytes().map(u16::from).collect()
}

#[test]
fn new_link_has_nothing_to_send() {
    let mut conn = Serial::new();
    assert!(conn.outgoing.is_empty());
    assert_eq!(conn.take_outgoing(), Vec::<u16>::new());
}

#[test]
fn send_queues_each_byte_as_a_word() {
    let mut conn = Serial::new();
    conn.send("OK!");
    assert_eq!(conn.outgoing, vec![0x4f, 0x4b, 0x21]);
    conn.send("");
    conn.send("got write");
    assert_eq!(conn.take_outgoing(), words("OK!got write"));
    assert!(conn.outgoing.is_empty());
}

#[test]
fn send_queues_the_bytes_of_text_outside_ascii() {
    let mut conn = Serial::new();
    conn.send("é");
    assert_eq!(conn.take_outgoing(), vec![0xc3, 0xa9]);
}

#[test]
fn send_bytes_queues_any_byte() {
    let mut conn = Serial::new();
    conn.send_bytes(&[0x00, 0x7f, 0x80, 0xff]);
    assert_eq!(conn.take_outgoing(), vec![0x0000, 0x007f, 0x0080, 0x00ff]);
}

#[test]
fn recv_stores_the_low_byte_of_each_word() {
    let conn = Serial::new();
    let mut buffer: heapless::Vec<u8, 8> = heapless::Vec::new();
    conn.recv(&mut buffer, 4, &[0x0152, 0x0045, 0x0141, 0xff44]);
    assert_eq!(buffer.as_slice(), b"READ");
}

#[test]
fn recv_takes_only_the_amount_asked_for() {
    let conn = Serial::new();
    let mut buffer: heapless::Vec<u8, 8> = heapless::Vec::new();
    conn.recv(&mut buffer, 3, &words("255 and more"));
    assert_eq!(buffer.as_slice(), b"255");
    conn.recv(&mut buffer, 0, &[]);
    assert_eq!(buffer.as_slice(), b"255");
}

#[test]
fn recv_appends_behind_what_the_buffer_holds() {
    let conn = Serial::new();
    let mut buffer: heapless::Vec<u8, 8> = heapless::Vec::new();
    conn.recv(&mut buffer, 4, &words("UART"));
    conn.recv(&mut buffer, 4, &words("_OK?"));
    assert_eq!(buffer.as_slice(), b"UART_OK?");
    assert_eq!(buffer.len(), CAPACITY);
    assert!(buffer.is_full());
}

#[test]
fn recv_of_nothing_leaves_a_full_buffer_as_it_is() {
    let conn = Serial::new();
    let mut buffer: heapless::Vec<u8, 8> = heapless::Vec::new();
    conn.recv(&mut buffer, 8, &words("UNRECOG?"));
    conn.recv(&mut buffer, 0, &words("more"));
    assert_eq!(buffer.as_slice(), b"UNRECOG?");
}

#[test]
fn bytes_equal_compares_length_and_content() {
    assert!(bytes_equal(b"", b""));
    assert!(bytes_equal(b"READ", b"READ"));
    assert!(!bytes_equal(b"READ", b"REAd"));
    assert!(!bytes_equal(b"READ", b"REA"));
    assert!(!bytes_equal(b"REA", b"READ"));
    assert!(!bytes_equal(b"XEAD", b"READ"));
}

#[test]
fn parse_byte_reads_decimal() {
    assert_eq!(parse_byte(b"255"), Some(255));
    assert_eq!(parse_byte(b"000"), Some(0));
    assert_eq!(parse_byte(b"007"), Some(7));
    assert_eq!(parse_byte(b"114"), Some(114));
    assert_eq!(parse_byte(b"9"), Some(9));
    assert_eq!(parse_byte(b"0000000255"), Some(255));
}

#[test]
fn parse_byte_takes_one_leading_plus() {
    assert_eq!(parse_byte(b"+12"), Some(12));
    assert_eq!(parse_byte(b"+255"), Some(255));
    assert_eq!(parse_byte(b"+"), None);
    assert_eq!(parse_byte(b"++1"), None);
    assert_eq!(parse_byte(b"1+2"), None);
}

#[test]
fn parse_byte_refuses_what_is_no_byte() {
    assert_eq!(parse_byte(b"abc"), None);
    assert_eq!(parse_byte(b""), None);
    assert_eq!(parse_byte(b"256"), None);
    assert_eq!(parse_byte(b"999"), None);
    assert_eq!(parse_byte(b"65536"), None);
    assert_eq!(parse_byte(b"99999999999999999999999"), None);
    assert_eq!(parse_byte(b"-12"), None);
    assert_eq!(parse_byte(b" 12"), None);
    assert_eq!(parse_byte(b"12 "), None);
    assert_eq!(parse_byte(b"1_2"), None);
    assert_eq!(parse_byte(b"0x1"), None);
    assert_eq!(parse_byte(&[0x31, 0xff, 0x32]), None);
    assert_eq!(parse_byte(b"/12"), None);
    assert_eq!(parse_byte(b":12"), None);
}

#[test]
fn parse_byte_agrees_with_the_standard_parser_on_three_bytes() {
    let alphabet = b"0123456789+- a/:\xff";
    for &a in alphabet {
        for &b in alphabet {
            for &c in alphabet {
                let text = [a, b, c];
                let expected = std::str::from_utf8(&text).ok().and_then(|s| s.parse::<u8>().ok());
                assert_eq!(parse_byte(&text), expected, "{:?}", text);
            }
        }
    }
}

#[test]
fn format_read_pads_with_zero_bytes() {
    let reply = format_read(0xab);
    assert_eq!(reply.len(), REPLY_LENGTH);
    assert_eq!(reply.len(), 32);
    assert!(reply[..30].iter().all(|&b| b == 0));
    assert_eq!(&reply[30..], b"ab");
}

#[test]
fn format_read_writes_no_leading_zero() {
    let reply = format_read(0x0f);
    assert!(reply[..31].iter().all(|&b| b == 0));
    assert_eq!(reply[31], b'f');
    let reply = format_read(0);
    assert!(reply[..31].iter().all(|&b| b == 0));
    assert_eq!(reply[31], b'0');
    assert_eq!(format_read(0x10)[30..], *b"10");
}

#[test]
fn format_read_is_lower_case_hex_for_every_byte() {
    for value in 0..=255u8 {
        let text = format!("{:x}", value);
        let mut expected = vec![0u8; 32 - text.len()];
        expected.extend_from_slice(text.as_bytes());
        assert_eq!(format_read(value), expected);
    }
}
