use host_agent::bridge::{
    on_frame, on_terminal_read, shell_cwd, Frame, Inbound, Outbound, ReadOutcome, TerminalDrain,
    TerminalFeed,
    READ_CHUNK,
};

#[test]
fn frames_reach_terminal_byte_for_byte() {
    match on_frame(Frame::Binary(vec![0, 1, 255])) {
        Inbound::Write(b) => assert_eq!(b, vec![0, 1, 255]),
        _ => panic!("expected a write"),
    }
    match on_frame(Frame::Text("ls -l\né".to_string())) {
        Inbound::Write(b) => assert_eq!(b, "ls -l\né".as_bytes().to_vec()),
        _ => panic!("expected a write"),
    }
    assert!(matches!(on_frame(Frame::Ping), Inbound::Ignore));
    assert!(matches!(on_frame(Frame::Pong), Inbound::Ignore));
    assert!(matches!(on_frame(Frame::Close), Inbound::Stop));
    assert!(matches!(on_frame(Frame::ReceiveError), Inbound::Stop));
}

#[test]
fn feed_keeps_order_and_stops_on_close() {
    let mut feed = TerminalFeed::new();
    let mut written: Vec<u8> = Vec::new();
    let frames = vec![
        Frame::Text("ab".to_string()),
        Frame::Ping,
        Frame::Binary(vec![b'c', b'd']),
        Frame::Close,
    ];
    for f in frames {
        assert!(feed.open);
        match feed.accept(f) {
            Inbound::Write(b) => written.extend_from_slice(&b),
            Inbound::Ignore => {}
            Inbound::Stop => break,
        }
    }
    assert_eq!(written, b"abcd".to_vec());
    assert!(!feed.open);
}

#[test]
fn large_output_is_chunked_in_order() {
    let data: Vec<u8> = (0..10000u32).map(|i| (i % 251) as u8).collect();
    let mut forwarded: Vec<u8> = Vec::new();
    let mut chunks = 0;
    for piece in data.chunks(READ_CHUNK) {
        let mut buf = [0u8; READ_CHUNK];
        buf[..piece.len()].copy_from_slice(piece);
        match on_terminal_read(&buf, ReadOutcome::Bytes(piece.len())) {
            Outbound::Forward(c) => {
                assert_eq!(c.len(), piece.len());
                forwarded.extend_from_slice(&c);
                chunks += 1;
            }
            Outbound::Stop => panic!("nonempty read must be forwarded"),
        }
    }
    assert_eq!(chunks, 3);
    assert_eq!(forwarded, data);
}

#[test]
fn terminal_end_stops_reader() {
    let buf = [1u8; 8];
    assert!(matches!(on_terminal_read(&buf, ReadOutcome::Eof), Outbound::Stop));
    assert!(matches!(on_terminal_read(&buf, ReadOutcome::Failed), Outbound::Stop));
    assert!(matches!(on_terminal_read(&buf, ReadOutcome::Bytes(0)), Outbound::Stop));
    assert!(matches!(on_terminal_read(&buf, ReadOutcome::Bytes(9)), Outbound::Stop));
}

#[test]
fn shell_starts_home_or_root() {
    assert_eq!(shell_cwd(Some("/home/op".to_string())), "/home/op");
    assert_eq!(shell_cwd(None), "/");
}

#[test]
fn drain_forwards_reads_in_order_until_end() {
    let data: Vec<u8> = (0..9000u32).map(|i| (i % 13) as u8).collect();
    let mut drain = TerminalDrain::new();
    let mut sent: Vec<Vec<u8>> = Vec::new();
    let mut pieces = data.chunks(READ_CHUNK);
    while drain.open {
        let mut buf = [0u8; READ_CHUNK];
        let outcome = match pieces.next() {
            Some(p) => {
                buf[..p.len()].copy_from_slice(p);
                ReadOutcome::Bytes(p.len())
            }
            None => ReadOutcome::Eof,
        };
        match drain.take(&buf, outcome) {
            Outbound::Forward(c) => sent.push(c),
            Outbound::Stop => {}
        }
    }
    assert_eq!(sent.len(), 3);
    assert!(sent.iter().all(|c| !c.is_empty() && c.len() <= READ_CHUNK));
    assert_eq!(sent.concat(), data);
}
