use base64::Engine as _;
use vinput_ws_asr::asr::{
    event_of_json, parse_wire_event, wire_to_event, ClientMessage, Incoming, RealtimeReceiver,
    RealtimeSender, Reading, ServerEvent, WireError, WireEvent,
};
use vinput_ws_asr::json::{parse_json, Json};

fn text(t: &str) -> String {
    t.to_string()
}

fn created(id: &str) -> Option<ServerEvent> {
    Some(ServerEvent::Created { id: text(id) })
}

fn delta(t: &str) -> Option<ServerEvent> {
    Some(ServerEvent::Delta { text: text(t) })
}

fn error(message: &str, code: Option<&str>) -> Option<ServerEvent> {
    Some(ServerEvent::Error { message: text(message), code: code.map(text) })
}

#[test]
fn session_messages_signal_readiness() {
    assert_eq!(parse_wire_event(r#"{"type":"session.created","id":"s1"}"#), created("s1"));
    assert_eq!(parse_wire_event(r#"{"type":"session.created"}"#), created(""));
    assert_eq!(parse_wire_event(r#"{"type":"session.updated","id":"s2","x":[1]}"#), created("s2"));
}

#[test]
fn delta_carries_text() {
    assert_eq!(parse_wire_event(r#"{"delta":"hi \"you\" 你","type":"transcription.delta"}"#), delta("hi \"you\" \u{4f60}"));
    assert_eq!(parse_wire_event(r#" {"type":"transcription.delta"} "#), delta(""));
}

#[test]
fn done_carries_text_and_usage() {
    assert_eq!(
        parse_wire_event(r#"{"type":"transcription.done","text":"all","usage":{"n":12,"f":1.5,"l":[null,true]}}"#),
        Some(ServerEvent::Done {
            text: text("all"),
            usage: Some(Json::Object(vec![
                (text("f"), Json::Number(text("1.5"))),
                (text("l"), Json::Array(vec![Json::Null, Json::Bool(true)])),
                (text("n"), Json::Number(text("12"))),
            ])),
        })
    );
    assert_eq!(
        parse_wire_event(r#"{"type":"transcription.done","usage":null}"#),
        Some(ServerEvent::Done { text: text(""), usage: None })
    );
}

#[test]
fn error_takes_three_shapes() {
    assert_eq!(parse_wire_event(r#"{"type":"error","error":"boom","message":"m","code":"c"}"#), error("boom", None));
    assert_eq!(parse_wire_event(r#"{"type":"error","error":{"message":"m","code":"c"}}"#), error("m", Some("c")));
    assert_eq!(parse_wire_event(r#"{"type":"error","error":{"code":null,"extra":1},"code":"x"}"#), error("", None));
    assert_eq!(parse_wire_event(r#"{"type":"error","message":"m","code":"c"}"#), error("m", Some("c")));
    assert_eq!(parse_wire_event(r#"{"type":"error","error":null,"message":"m"}"#), error("m", None));
    assert_eq!(parse_wire_event(r#"{"type":"error"}"#), error("", None));
}

#[test]
fn unknown_and_malformed_messages_announce_nothing() {
    for txt in [
        "",
        "{",
        "null",
        "3",
        "{}",
        "[]",
        r#""session.created""#,
        r#"{"type":"conversation.item"}"#,
        r#"{"type":0}"#,
        r#"{"type":null}"#,
        r#"{"type":"session.created","id":null}"#,
        r#"{"type":"session.created","id":5}"#,
        r#"{"type":"transcription.delta","delta":["x"]}"#,
        r#"{"type":"transcription.done","text":{}}"#,
        r#"{"type":"error","error":5}"#,
        r#"{"type":"error","error":["m","c"]}"#,
        r#"{"type":"error","error":{"message":5}}"#,
        r#"{"type":"error","error":"boom","code":5}"#,
        r#"{"type":"session.created"} x"#,
    ] {
        assert_eq!(parse_wire_event(txt), None, "{}", txt);
    }
}

#[test]
fn fields_may_come_in_order() {
    assert_eq!(parse_wire_event(r#"["session.created"]"#), created(""));
    assert_eq!(parse_wire_event(r#"["session.created","s"]"#), created("s"));
    assert_eq!(parse_wire_event(r#"["session.created","s","t"]"#), None);
    assert_eq!(parse_wire_event(r#"["transcription.delta","d"]"#), delta("d"));
    assert_eq!(
        parse_wire_event(r#"["transcription.done","t",false]"#),
        Some(ServerEvent::Done { text: text("t"), usage: Some(Json::Bool(false)) })
    );
    assert_eq!(parse_wire_event(r#"["error",null,"m","c"]"#), error("m", Some("c")));
    assert_eq!(parse_wire_event(r#"["error",null,"m","c",1]"#), None);
    assert_eq!(parse_wire_event(r#"["other"]"#), None);
}

#[test]
fn the_later_of_two_members_counts() {
    assert_eq!(parse_wire_event(r#"{"type":"x","type":"transcription.delta","delta":"a","delta":"b"}"#), delta("b"));
    let msg = Json::Object(vec![
        (text("type"), Json::Text(text("transcription.delta"))),
        (text("delta"), Json::Text(text("a"))),
        (text("delta"), Json::Text(text("b"))),
    ]);
    assert_eq!(event_of_json(&msg), delta("b"));
}

#[test]
fn wire_errors_become_events() {
    let object = WireError::Object { message: None, code: Some(text("c")) };
    let ev = WireEvent::Error { error: Some(object), message: Some(text("m")), code: None };
    assert_eq!(wire_to_event(ev), error("", Some("c")));
    assert_eq!(wire_to_event(WireEvent::Unknown), None);
}

#[test]
fn json_values_are_read_whole() {
    assert_eq!(
        parse_json(r#"{"b":[1,-2.5e3,"x\n"],"a":{"t":true,"n":null}}"#),
        Some(Json::Object(vec![
            (text("a"), Json::Object(vec![(text("n"), Json::Null), (text("t"), Json::Bool(true))])),
            (text("b"), Json::Array(vec![
                Json::Number(text("1")),
                Json::Number(text("-2500.0")),
                Json::Text(text("x\n")),
            ])),
        ]))
    );
    assert_eq!(parse_json("1e999"), None);
    let value = parse_json(r#"{"k":[{"x":1}]}"#).unwrap();
    assert_eq!(value.clone(), value);
}

#[test]
fn client_messages_have_exact_frames() {
    let sender = RealtimeSender::new(16000, 250);
    assert_eq!(sender.update_model("qwen3-asr"), r#"{"type":"session.update","model":"qwen3-asr"}"#);
    assert_eq!(sender.start_generation(), r#"{"type":"input_audio_buffer.commit","final":false}"#);
    assert_eq!(sender.finish(), r#"{"type":"input_audio_buffer.commit","final":true}"#);
    let msg = ClientMessage::AppendAudio { audio: "AAEC" };
    assert_eq!(msg.to_frame(), r#"{"type":"input_audio_buffer.append","audio":"AAEC"}"#);
}

#[test]
fn strings_are_escaped() {
    let sender = RealtimeSender::new(16000, 250);
    assert_eq!(
        sender.update_model("a\"\\/\u{8}\t\n\u{c}\r\u{1}\u{1f}\u{7f}\u{4f60}"),
        "{\"type\":\"session.update\",\"model\":\"a\\\"\\\\/\\b\\t\\n\\f\\r\\u0001\\u001f\u{7f}\u{4f60}\"}"
    );
}

#[test]
fn audio_is_sent_in_base64_chunks() {
    let sender = RealtimeSender::new(1000, 3);
    let frames = sender.append_bytes(&[0, 1, 2, 3, 4, 5, 6, 255]);
    assert_eq!(frames, vec![
        r#"{"type":"input_audio_buffer.append","audio":"AAECAwQF"}"#.to_string(),
        r#"{"type":"input_audio_buffer.append","audio":"Bv8="}"#.to_string(),
    ]);
    assert!(sender.append_bytes(&[]).is_empty());
}

#[test]
fn frames_give_the_audio_back() {
    let pcm: Vec<u8> = (0..20000u32).map(|i| (i % 253) as u8).collect();
    let mut received: Vec<u8> = Vec::new();
    for frame in RealtimeSender::new(16000, 250).append_bytes(&pcm) {
        let value = parse_json(&frame).unwrap();
        let audio = value.member("audio").unwrap().as_text().unwrap();
        received.extend(base64::engine::general_purpose::STANDARD.decode(audio).unwrap());
    }
    assert_eq!(received, pcm);
}

#[test]
fn frames_are_read_or_skipped() {
    let receiver = RealtimeReceiver {};
    let read = |incoming| receiver.read_event(incoming);
    assert!(matches!(
        read(Incoming::Text(text(r#"{"type":"session.created"}"#))),
        Reading::Event(ServerEvent::Created { .. })
    ));
    assert!(matches!(read(Incoming::Text(text("noise"))), Reading::Skipped));
    assert!(matches!(read(Incoming::Binary), Reading::Skipped));
    assert!(matches!(read(Incoming::Control), Reading::Skipped));
    assert!(matches!(read(Incoming::Close), Reading::Failed(m) if m == "websocket closed by server"));
    assert!(matches!(read(Incoming::Ended), Reading::Failed(m) if m == "websocket closed"));
    assert!(matches!(read(Incoming::Failed(text("reset"))), Reading::Failed(m) if m == "reset"));
}

#[test]
fn reader_stops_at_the_first_error() {
    let receiver = RealtimeReceiver {};
    let relayed = receiver.relay(Reading::Event(ServerEvent::Delta { text: text("d") }));
    assert_eq!((relayed.event, relayed.stop), (delta("d"), false));
    let relayed = receiver.relay(Reading::Skipped);
    assert_eq!((relayed.event, relayed.stop), (None, false));
    let relayed = receiver.relay(Reading::Event(ServerEvent::Error { message: text("e"), code: None }));
    assert_eq!((relayed.event, relayed.stop), (error("e", None), true));
    let relayed = receiver.relay(Reading::Failed(text("gone")));
    assert_eq!((relayed.event, relayed.stop), (error("gone", Some("connection_closed")), true));
}

/// The events that are passed on of a stream, and how many frames were read.
fn relay_all(frames: Vec<Incoming>) -> (Vec<ServerEvent>, usize) {
    let receiver = RealtimeReceiver {};
    let mut events = vec![];
    let mut count = 0;
    for frame in frames {
        count += 1;
        let relayed = receiver.relay(receiver.read_event(frame));
        events.extend(relayed.event);
        if relayed.stop {
            break;
        }
    }
    (events, count)
}

fn frame(t: &str) -> Incoming {
    Incoming::Text(text(t))
}

fn delta_frame(t: &str) -> Incoming {
    Incoming::Text(format!(r#"{{"type":"transcription.delta","delta":"{t}"}}"#))
}

#[test]
fn events_are_relayed_once_and_in_order() {
    let (events, count) = relay_all(vec![
        frame(r#"{"type":"session.created","id":"s"}"#),
        frame("noise"),
        delta_frame("a"),
        Incoming::Binary,
        Incoming::Control,
        frame(r#"{"type":"unknown"}"#),
        delta_frame("b"),
        delta_frame("a"),
    ]);
    let expected: Vec<ServerEvent> =
        [created("s"), delta("a"), delta("b"), delta("a")].into_iter().flatten().collect();
    assert_eq!(events, expected);
    assert_eq!(count, 8);
}

#[test]
fn nothing_is_relayed_after_the_first_error() {
    let ends = [
        (frame(r#"{"type":"error","message":"m"}"#), error("m", None)),
        (Incoming::Close, error("websocket closed by server", Some("connection_closed"))),
        (Incoming::Failed(text("reset")), error("reset", Some("connection_closed"))),
        (Incoming::Ended, error("websocket closed", Some("connection_closed"))),
    ];
    for (end, expected) in ends {
        let frames = vec![Incoming::Binary, delta_frame("a"), Incoming::Control, end, delta_frame("b")];
        let (events, count) = relay_all(frames);
        assert_eq!(events, vec![delta("a").unwrap(), expected.unwrap()]);
        assert_eq!(count, 4);
    }
}

#[test]
fn a_stream_without_events_relays_nothing() {
    assert_eq!(relay_all(vec![]), (vec![], 0));
    assert_eq!(relay_all(vec![Incoming::Binary, frame("{}"), Incoming::Control]), (vec![], 3));
}
