use e7012e_sim::framing::{append_chunk, process_rx_buffer, RX_BUFFER_LIMIT};

#[test]
fn lines_are_split_and_trimmed() {
    let mut buf = b"first\r\n\nsecond\r\r\npartial".to_vec();
    let lines = process_rx_buffer(&mut buf);
    assert_eq!(lines, vec![b"first".to_vec(), b"second".to_vec()]);
    assert_eq!(buf, b"partial".to_vec());
}

#[test]
fn no_line_end_keeps_everything() {
    let mut buf = b"steer_us:15".to_vec();
    let lines = process_rx_buffer(&mut buf);
    assert!(lines.is_empty());
    assert_eq!(buf, b"steer_us:15".to_vec());
}

#[test]
fn overlong_tail_is_dropped() {
    let mut buf = vec![b'a'; RX_BUFFER_LIMIT + 1];
    assert!(process_rx_buffer(&mut buf).is_empty());
    assert!(buf.is_empty());
    let mut kept = vec![b'a'; RX_BUFFER_LIMIT];
    process_rx_buffer(&mut kept);
    assert_eq!(kept.len(), RX_BUFFER_LIMIT);
}

#[test]
fn split_reads_frame_like_one_read() {
    let whole = b"abc\r\ndef\nghi\njk".to_vec();
    let mut once = whole.clone();
    let all_at_once = process_rx_buffer(&mut once);
    for cut in 0..=whole.len() {
        let mut buf = whole[..cut].to_vec();
        let mut lines = process_rx_buffer(&mut buf);
        buf.extend_from_slice(&whole[cut..]);
        lines.extend(process_rx_buffer(&mut buf));
        assert_eq!(lines, all_at_once, "cut at {cut}");
        assert_eq!(buf, once);
    }
}

#[test]
fn chunks_must_be_utf8() {
    let mut buf = b"ab".to_vec();
    assert!(append_chunk(&mut buf, "cé".as_bytes()));
    assert_eq!(buf, "abcé".as_bytes().to_vec());
    assert!(!append_chunk(&mut buf, &[0xc3]));
    assert_eq!(buf, "abcé".as_bytes().to_vec());
}
