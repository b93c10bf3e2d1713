use serial_bridge::lines::LineBuffer;
use serial_bridge::reader::{
    extract_messages, handle_line, reader_reaction, ReadEvent, ReaderAction,
};

#[test]
fn good_lines_yield_exactly_their_messages_in_arrival_order() {
    let mut buf = LineBuffer::new();
    let chunk = b"{\"a\":1}\n{not json}\nbad\n{\"b\" : 2 }\n\n   \n{\"command\":\"reset\"}\n";
    let msgs = extract_messages(&mut buf, chunk);
    assert_eq!(msgs.len(), 3);
    assert_eq!(msgs[0], "{\"a\":1}");
    assert_eq!(msgs[1], "{\"b\":2}");
    assert_eq!(msgs[2], "{\"command\":\"reset\"}");
    assert_eq!(buf.len(), 0);
}

#[test]
fn a_line_split_across_reads_is_reassembled() {
    let mut buf = LineBuffer::new();
    let first = extract_messages(&mut buf, b"{\"a\"");
    assert_eq!(first.len(), 0);
    let second = extract_messages(&mut buf, b":1}\n{\"c\":3}\n");
    assert_eq!(second.len(), 2);
    assert_eq!(second[0], "{\"a\":1}");
    assert_eq!(second[1], "{\"c\":3}");
}

#[test]
fn malformed_line_queues_nothing_and_reading_continues() {
    let mut buf = LineBuffer::new();
    let msgs = extract_messages(&mut buf, b"{not json}\n");
    assert_eq!(msgs.len(), 0);
    let msgs = extract_messages(&mut buf, b"{\"ok\":true}\n");
    assert_eq!(msgs.len(), 1);
    assert_eq!(msgs[0], "{\"ok\":true}");
}

#[test]
fn blank_and_whitespace_lines_are_dropped() {
    let mut buf = LineBuffer::new();
    let msgs = extract_messages(&mut buf, b"\n \t \n");
    assert_eq!(msgs.len(), 0);
}

#[test]
fn invalid_utf8_line_is_dropped_without_stalling() {
    let mut buf = LineBuffer::new();
    let mut chunk: Vec<u8> = Vec::new();
    chunk.push(0xFF);
    chunk.extend_from_slice(b"x\n{\"v\":7}\n");
    let msgs = extract_messages(&mut buf, chunk.as_slice());
    assert_eq!(msgs.len(), 1);
    assert_eq!(msgs[0], "{\"v\":7}");
}

#[test]
fn serial_bytes_are_decoded_lossily() {
    let mut buf = LineBuffer::new();
    let mut chunk: Vec<u8> = Vec::new();
    chunk.extend_from_slice(b"{\"v\":\"");
    chunk.push(0xFF);
    chunk.extend_from_slice(b"\"}\n");
    let msgs = extract_messages(&mut buf, chunk.as_slice());
    assert_eq!(msgs.len(), 1);
    assert_eq!(msgs[0], "{\"v\":\"\u{FFFD}\"}");
}

#[test]
fn next_line_drains_up_to_the_delimiter() {
    let mut buf = LineBuffer::new();
    buf.push_chunk(b"ab\ncd");
    let line = buf.next_line();
    assert_eq!(line, Some(vec![b'a', b'b']));
    assert_eq!(buf.next_line(), None);
    assert_eq!(buf.len(), 2);
}

#[test]
fn handle_line_normalizes_and_filters() {
    assert_eq!(handle_line(&b"  { \"a\" : 1 }  ".to_vec()), Some("{\"a\":1}".to_string()));
    assert_eq!(handle_line(&b"   ".to_vec()), None);
    assert_eq!(handle_line(&b"{broken".to_vec()), None);
}

#[test]
fn reader_reactions_follow_the_read_outcome() {
    assert!(matches!(reader_reaction(&ReadEvent::Data), ReaderAction::KeepReading));
    assert!(matches!(reader_reaction(&ReadEvent::Idle), ReaderAction::Backoff));
    assert!(matches!(reader_reaction(&ReadEvent::Failed), ReaderAction::Disconnect));
    assert!(matches!(reader_reaction(&ReadEvent::NoPort), ReaderAction::Disconnect));
}
