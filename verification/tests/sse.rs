use graph_server::sse::{
    is_error_status, is_event_stream_content_type, next_line, unexpected_content_type_message,
    EventStreamParser,
};

#[test]
fn parses_chunked_multiline_events_and_ignores_comments() {
    let mut parser = EventStreamParser::default();
    assert!(parser
        .push(b": keep-alive\r\nda", false)
        .unwrap()
        .is_empty());
    assert_eq!(
        parser
            .push(b"ta: {\"type\":\r\ndata: \"friend-added\"}\r\n\r\n", false)
            .unwrap(),
        vec!["{\"type\":\n\"friend-added\"}"]
    );
}

#[test]
fn dispatches_the_last_event_when_the_connection_closes() {
    let mut parser = EventStreamParser::default();
    assert_eq!(
        parser
            .push(b"data: {\"type\":\"friend-added\"}", true)
            .unwrap(),
        vec!["{\"type\":\"friend-added\"}"]
    );
}

#[test]
fn chunk_boundaries_do_not_change_the_payloads() {
    let body: &[u8] = b": keep-alive\r\ndata: one\r\n\r\ndata: two\ndata: lines\n\ndata: three\r\r\n";
    let mut whole = EventStreamParser::default();
    let at_once = whole.push(body, false).unwrap();
    for cut in 0..=body.len() {
        let mut split = EventStreamParser::default();
        let mut payloads = split.push(&body[..cut], false).unwrap();
        payloads.extend(split.push(&body[cut..], false).unwrap());
        assert_eq!(payloads, at_once, "cut at {cut}");
    }
    assert_eq!(at_once, vec!["one", "two\nlines", "three"]);
}

#[test]
fn chunk_boundaries_do_not_change_the_payloads_at_the_end_of_the_stream() {
    let body: &[u8] = b"data: one\r\n\r\ndata: two\r\ndata: last\r";
    let mut whole = EventStreamParser::default();
    let at_once = whole.push(body, true).unwrap();
    for cut in 0..=body.len() {
        let mut split = EventStreamParser::default();
        let mut payloads = split.push(&body[..cut], false).unwrap();
        payloads.extend(split.push(&body[cut..], true).unwrap());
        assert_eq!(payloads, at_once, "cut at {cut}");
    }
    assert_eq!(at_once, vec!["one", "two\nlast"]);
}

#[test]
fn a_lone_carriage_return_waits_for_more_input() {
    assert_eq!(next_line(b"data: x\r", false), None);
    assert_eq!(next_line(b"data: x\r", true), Some((&b"data: x"[..], 8)));
    assert_eq!(next_line(b"data: x\r\n", false), Some((&b"data: x"[..], 9)));
    assert_eq!(next_line(b"data: x\ry", false), Some((&b"data: x"[..], 8)));
}

#[test]
fn invalid_utf8_lines_are_refused() {
    let mut parser = EventStreamParser::default();
    assert!(parser.push(b"data: \xff\n\n", false).is_err());
}

#[test]
fn fields_other_than_data_are_ignored() {
    let mut parser = EventStreamParser::default();
    assert_eq!(
        parser
            .push(b"event: friend-added\nid: 7\ndata:no-space\n\n", false)
            .unwrap(),
        vec!["no-space"]
    );
    assert!(parser.push(b"\n\n", true).unwrap().is_empty());
}

#[test]
fn the_stream_needs_an_event_stream_content_type() {
    assert!(is_event_stream_content_type("text/event-stream"));
    assert!(is_event_stream_content_type("Text/Event-Stream; charset=utf-8"));
    assert!(!is_event_stream_content_type("application/json"));
    assert!(!is_event_stream_content_type(""));
    assert_eq!(
        unexpected_content_type_message("text/html"),
        "unexpected stream Content-Type: text/html"
    );
}

#[test]
fn client_and_server_errors_are_errors() {
    assert!(!is_error_status(200));
    assert!(!is_error_status(399));
    assert!(is_error_status(400));
    assert!(is_error_status(401));
    assert!(is_error_status(599));
    assert!(!is_error_status(600));
}
