use fedistream::error::Error;
use fedistream::timeline::{
    decode_lines, split_lines, DecoderState, Endpoint, Event, Lines, Timeline,
};

fn fresh_decoder() -> Timeline {
    Timeline::from_lines(Lines::new())
}

#[test]
fn endpoint_encoding() {
    let path = Endpoint::Hashtag("こんにちは".into()).as_path();
    assert_eq!(
        path,
        "/api/v1/streaming/hashtag?\
        tag=%E3%81%93%E3%82%93%E3%81%AB%E3%81%A1%E3%81%AF"
    );
    // The encoded path round-trips through a standard URI parser unchanged.
    let url = url::Url::parse(&format!("https://example.com{}", path)).unwrap();
    assert_eq!(url.path(), "/api/v1/streaming/hashtag");
    assert_eq!(
        url.query(),
        Some("tag=%E3%81%93%E3%82%93%E3%81%AB%E3%81%A1%E3%81%AF")
    );
    assert_eq!(url.as_str(), format!("https://example.com{}", path));
}

#[test]
fn lines() {
    let mut lines = Lines::new();

    lines.push_chunk("First".as_bytes());
    assert_eq!(lines.next_line().unwrap(), None);
    lines.push_chunk(" line".as_bytes());
    assert_eq!(lines.next_line().unwrap(), None);

    lines.push_chunk("\nSecond line\nThird line".as_bytes());
    assert_eq!(lines.next_line().unwrap(), Some("First line".to_string()));
    assert_eq!(lines.next_line().unwrap(), Some("Second line".to_string()));
    assert_eq!(lines.next_line().unwrap(), None);

    lines.push_chunk("\n".as_bytes());
    assert_eq!(lines.next_line().unwrap(), Some("Third line".to_string()));

    // Send two chunks that, individually, are invalid UTF-8, but
    // combine to form a valid UTF-8 character.
    let cool = "🆒\n";
    assert!(!cool.is_char_boundary(1));
    let (cool1, cool2) = cool.as_bytes().split_at(1);

    lines.push_chunk(cool1);
    assert_eq!(lines.next_line().unwrap(), None);
    lines.push_chunk(cool2);
    assert_eq!(lines.next_line().unwrap(), Some("🆒".to_string()));
}

#[test]
fn endpoint_fixed_paths() {
    assert_eq!(Endpoint::User.as_path(), "/api/v1/streaming/user");
    assert_eq!(
        Endpoint::Notification.as_path(),
        "/api/v1/streaming/user/notification"
    );
    assert_eq!(Endpoint::Federated.as_path(), "/api/v1/streaming/public");
    assert_eq!(Endpoint::Local.as_path(), "/api/v1/streaming/public/local");
    assert_eq!(
        Endpoint::Other("/something/else".to_string()).as_path(),
        "/something/else"
    );
    assert_eq!(
        Endpoint::LocalHashtag("a b".to_string()).as_path(),
        "/api/v1/streaming/hashtag/local?tag=a%20b"
    );
}

#[test]
fn split_lines_discards_unterminated_remainder() {
    let chunks = vec![
        b"ab".to_vec(),
        b"c\nde\nxy".to_vec(),
    ];
    let lines = split_lines(&chunks).unwrap();
    assert_eq!(lines, vec!["abc".to_string(), "de".to_string()]);
}

#[test]
fn split_lines_reports_invalid_utf8() {
    let chunks = vec![vec![0xff, 0xfe, b'\n', b'o', b'k', b'\n']];
    match split_lines(&chunks) {
        Err(Error::Utf8(raw)) => assert_eq!(raw, vec![0xff, 0xfe]),
        other => panic!("expected a decode error, got {:?}", other),
    }
}

#[test]
fn heartbeat_emits_and_stays_idle() {
    let mut decoder = fresh_decoder();
    assert_eq!(
        decoder.step_line(":hello").unwrap(),
        Some(Event::Heartbeat)
    );
    assert_eq!(decoder.state(), DecoderState::Idle);
}

#[test]
fn update_frame_emits_one_update() {
    let mut decoder = fresh_decoder();
    assert_eq!(decoder.step_line("event: update").unwrap(), None);
    let payload = "{\"id\": \"42\", \"content\": \"hi\"}";
    let event = decoder
        .step_line(&format!("data: {}", payload))
        .unwrap()
        .unwrap();
    assert_eq!(event, Event::Update(payload.to_string()));
    assert_eq!(decoder.state(), DecoderState::Idle);
}

#[test]
fn delete_frame_emits_identifier() {
    let mut decoder = fresh_decoder();
    assert_eq!(decoder.step_line("event: delete").unwrap(), None);
    assert_eq!(
        decoder.step_line("data: 12345").unwrap(),
        Some(Event::Delete("12345".to_string()))
    );
}

#[test]
fn notification_frame_emits_one_notification() {
    let mut decoder = fresh_decoder();
    assert_eq!(decoder.step_line("event: notification").unwrap(), None);
    assert_eq!(
        decoder.step_line("data: {\"id\": 7}").unwrap(),
        Some(Event::Notification("{\"id\": 7}".to_string()))
    );
}

#[test]
fn unknown_event_type_fails() {
    let mut decoder = fresh_decoder();
    assert_eq!(
        decoder.step_line("event: bogus"),
        Err(Error::EventType("bogus".to_string()))
    );
    assert_eq!(decoder.state(), DecoderState::Idle);
}

#[test]
fn double_declaration_fails_then_recovers() {
    let mut decoder = fresh_decoder();
    assert_eq!(decoder.step_line("event: update").unwrap(), None);
    assert_eq!(
        decoder.step_line("event: update"),
        Err(Error::StreamingState(
            "data".to_string(),
            "event: update".to_string()
        ))
    );
    assert_eq!(decoder.state(), DecoderState::Idle);
    // A valid frame fed next decodes normally.
    assert_eq!(decoder.step_line("event: delete").unwrap(), None);
    assert_eq!(
        decoder.step_line("data: 1").unwrap(),
        Some(Event::Delete("1".to_string()))
    );
}

#[test]
fn heartbeat_keeps_pending_declaration() {
    let mut decoder = fresh_decoder();
    assert_eq!(decoder.step_line("event: update").unwrap(), None);
    assert_eq!(decoder.step_line(":ping").unwrap(), Some(Event::Heartbeat));
    assert_eq!(
        decoder.step_line("data: {}").unwrap(),
        Some(Event::Update("{}".to_string()))
    );
}

#[test]
fn bad_payload_json_fails() {
    let mut decoder = fresh_decoder();
    assert_eq!(decoder.step_line("event: update").unwrap(), None);
    assert_eq!(
        decoder.step_line("data: not json"),
        Err(Error::Deserialize("not json".to_string()))
    );
    assert_eq!(decoder.state(), DecoderState::Idle);
}

#[test]
fn non_object_payload_fails() {
    let mut decoder = fresh_decoder();
    assert_eq!(decoder.step_line("event: update").unwrap(), None);
    assert_eq!(
        decoder.step_line("data: 12345"),
        Err(Error::Deserialize("12345".to_string()))
    );
}

#[test]
fn data_without_declaration_fails() {
    let mut decoder = fresh_decoder();
    assert_eq!(
        decoder.step_line("data: {}"),
        Err(Error::StreamingState(
            "event".to_string(),
            "data: {}".to_string()
        ))
    );
}

#[test]
fn empty_lines_are_ignored_between_frames() {
    let lines = vec![
        "".to_string(),
        "event: update".to_string(),
        "data: {}".to_string(),
        "".to_string(),
    ];
    let events = decode_lines(&lines).unwrap();
    assert_eq!(events, vec![Event::Update("{}".to_string())]);
}

#[test]
fn decode_lines_keeps_arrival_order() {
    let lines = vec![
        ":boot".to_string(),
        "event: delete".to_string(),
        "data: 5".to_string(),
        "event: notification".to_string(),
        "data: {\"id\": 1}".to_string(),
    ];
    let events = decode_lines(&lines).unwrap();
    assert_eq!(
        events,
        vec![
            Event::Heartbeat,
            Event::Delete("5".to_string()),
            Event::Notification("{\"id\": 1}".to_string()),
        ]
    );
}

#[test]
fn poll_event_runs_the_whole_pipeline() {
    let mut timeline = fresh_decoder();
    timeline.push_chunk(b"event: del");
    // The frame is not complete: no event yet, nothing consumed for good.
    assert_eq!(timeline.poll_event().unwrap(), None);
    timeline.push_chunk(b"ete\ndata: 9\n:hb\ntrailing");
    assert_eq!(
        timeline.poll_event().unwrap(),
        Some(Event::Delete("9".to_string()))
    );
    assert_eq!(timeline.poll_event().unwrap(), Some(Event::Heartbeat));
    // The unterminated remainder is never surfaced.
    assert_eq!(timeline.poll_event().unwrap(), None);
}

#[test]
fn poll_event_propagates_frame_errors() {
    let mut timeline = fresh_decoder();
    timeline.push_chunk(b"event: update\nevent: update\n");
    assert_eq!(
        timeline.poll_event(),
        Err(Error::StreamingState(
            "data".to_string(),
            "event: update".to_string()
        ))
    );
    assert_eq!(timeline.state(), DecoderState::Idle);
}
