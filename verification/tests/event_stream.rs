use llms_client::chatgpt::types::response::{find_delimiter, ResponseStream, SseDecoder, SseEvent};
use llms_client::chatgpt::types::sessions::Session;

fn data(e: SseEvent) -> String {
    match e {
        SseEvent::Data(s) => s,
        other => panic!("expected data, got {:?}", other),
    }
}

#[test]
fn delimiter_prefers_blank_line() {
    assert_eq!(find_delimiter(b"ab\n\ncd"), Some((2, 2)));
    assert_eq!(find_delimiter(b"ab\r\n\r\ncd"), Some((2, 4)));
    assert_eq!(find_delimiter(b"a\r\n\r\nb\n\n"), Some((6, 2)));
    assert_eq!(find_delimiter(b"abc\n"), None);
    assert_eq!(find_delimiter(b""), None);
}

#[test]
fn data_events_in_order_then_done() {
    let mut d = SseDecoder::new();
    d.push_bytes(b"data: {\"a\":1}\n\ndata:  second \n\n: comment\n\ndata: [DONE]\n\n");
    assert_eq!(data(d.next_event()), "{\"a\":1}");
    assert_eq!(data(d.next_event()), "second");
    assert!(matches!(d.next_event(), SseEvent::Done));
    assert!(matches!(d.next_event(), SseEvent::NeedMore));
    assert!(d.finish().is_none());
}

#[test]
fn incomplete_event_waits_for_more_bytes() {
    let mut d = SseDecoder::new();
    d.push_bytes(b"data: par");
    assert!(matches!(d.next_event(), SseEvent::NeedMore));
    d.push_bytes(b"tial\r\n\r\n");
    assert_eq!(data(d.next_event()), "partial");
}

#[test]
fn empty_payloads_and_other_lines_are_skipped() {
    let mut d = SseDecoder::new();
    d.push_bytes(b"data:   \n\nevent: ping\n\ndata: x\n\n");
    assert_eq!(data(d.next_event()), "x");
}

#[test]
fn leftover_bytes_are_reported_at_the_end() {
    let mut d = SseDecoder::new();
    d.push_bytes(b"data: cut");
    assert!(matches!(d.next_event(), SseEvent::NeedMore));
    assert_eq!(d.finish().as_deref(), Some("data: cut"));
    assert!(d.finish().is_none());
}

#[test]
fn invalid_utf8_is_replaced() {
    let mut d = SseDecoder::new();
    d.push_bytes(b"data: a\xffb\n\n");
    assert_eq!(data(d.next_event()), "a\u{fffd}b");
}

#[test]
fn response_stream_keeps_session() {
    let mut session = Session::new(4);
    session.ask("q".to_string());
    let mut rs = ResponseStream::new(7u8, session);
    *rs.stream_mut() += 1;
    assert_eq!(*rs.stream_mut(), 8);
    rs.feed(b"data: [DONE]\n\n");
    assert!(matches!(rs.next_event(), SseEvent::Done));
    assert!(rs.finish().is_none());
    assert_eq!(rs.get_session().get_history_length(), 1);
    assert_eq!(rs.get_session_owned().get_chat_no(), 1);
}
