use nmea_ingest::framing::{lines_to_text, SentenceBuffer};

#[test]
fn line_split_across_two_reads_is_one_line() {
    let mut buffer = SentenceBuffer::new();
    let first = buffer.feed(b"$GPGSV,3,1,11");
    assert!(first.is_empty());
    assert_eq!(buffer.pending_len(), 13);
    let second = buffer.feed(b",01,05,30,20\r\n");
    assert_eq!(second, vec!["$GPGSV,3,1,11,01,05,30,20".to_string()]);
    assert_eq!(buffer.pending_len(), 0);
}

#[test]
fn several_lines_in_one_read() {
    let mut buffer = SentenceBuffer::new();
    let lines = buffer.feed(b"one\r\ntwo\nthr");
    assert_eq!(lines, vec!["one".to_string(), "two".to_string()]);
    assert_eq!(buffer.pending_len(), 3);
    let lines = buffer.feed(b"ee\n");
    assert_eq!(lines, vec!["three".to_string()]);
}

#[test]
fn empty_read_yields_nothing_and_keeps_pending() {
    let mut buffer = SentenceBuffer::new();
    assert!(buffer.feed(b"abc").is_empty());
    assert!(buffer.feed(b"").is_empty());
    assert_eq!(buffer.pending_len(), 3);
    assert_eq!(buffer.feed(b"\n"), vec!["abc".to_string()]);
}

#[test]
fn empty_lines_are_lines() {
    let mut buffer = SentenceBuffer::new();
    let lines = buffer.feed(b"\n\r\n\n");
    assert_eq!(lines, vec![String::new(), String::new(), String::new()]);
    assert_eq!(buffer.pending_len(), 0);
}

#[test]
fn only_one_carriage_return_is_stripped() {
    let mut buffer = SentenceBuffer::new();
    let raw = buffer.frame(b"a\r\r\nb\rc\n");
    assert_eq!(raw, vec![b"a\r".to_vec(), b"b\rc".to_vec()]);
}

#[test]
fn carriage_return_split_from_its_line_feed() {
    let mut buffer = SentenceBuffer::new();
    assert!(buffer.frame(b"abc\r").is_empty());
    assert_eq!(buffer.frame(b"\n"), vec![b"abc".to_vec()]);
}

#[test]
fn frame_returns_bytes_unchanged() {
    let mut buffer = SentenceBuffer::new();
    let raw = buffer.frame(&[0x24, 0xff, 0x41, 0x0a, 0x42]);
    assert_eq!(raw, vec![vec![0x24u8, 0xff, 0x41]]);
    assert_eq!(buffer.pending_len(), 1);
}

#[test]
fn invalid_bytes_are_replaced_not_fatal() {
    let mut buffer = SentenceBuffer::new();
    let lines = buffer.feed(&[0x24, 0xff, 0x41, 0x0a]);
    assert_eq!(lines, vec!["$\u{fffd}A".to_string()]);
}

#[test]
fn character_split_across_reads_is_decoded_whole() {
    let mut buffer = SentenceBuffer::new();
    assert!(buffer.feed(&[0x61, 0xc3]).is_empty());
    let lines = buffer.feed(&[0xa9, 0x0a]);
    assert_eq!(lines, vec!["a\u{e9}".to_string()]);
}

#[test]
fn lines_to_text_decodes_each_line() {
    let raw = vec![b"abc".to_vec(), vec![0xe2, 0x82, 0xac], vec![0x80]];
    let lines = lines_to_text(&raw);
    assert_eq!(lines, vec!["abc".to_string(), "\u{20ac}".to_string(), "\u{fffd}".to_string()]);
}

#[test]
fn framing_agrees_with_splitting_the_whole_stream() {
    let stream: &[u8] = b"$GPGGA,1\r\n$GPGSV,3,1,11,01,05,030,20\r\n\n$GPRMC\nrest";
    for cut in 0..=stream.len() {
        let mut buffer = SentenceBuffer::new();
        let mut lines = buffer.feed(&stream[..cut]);
        lines.extend(buffer.feed(&stream[cut..]));
        assert_eq!(
            lines,
            vec![
                "$GPGGA,1".to_string(),
                "$GPGSV,3,1,11,01,05,030,20".to_string(),
                String::new(),
                "$GPRMC".to_string(),
            ]
        );
        assert_eq!(buffer.pending_len(), 4);
    }
}
