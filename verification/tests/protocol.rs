use vinput_ws_asr::json::{parse_json, Json};
use vinput_ws_asr::protocol::{
    audio_request, command_of_json, parse_request, Command, OutputEvent, Request,
};

fn text(t: &str) -> String {
    t.to_string()
}

#[test]
fn audio_is_decoded() {
    assert_eq!(
        parse_request("{\"type\":\"audio\",\"audio_base64\":\"AAEC/w==\",\"commit\":true}\n"),
        Request::Audio { pcm: vec![0, 1, 2, 255], commit: true }
    );
    assert_eq!(
        parse_request(r#"{"type":"audio","audio_base64":"AAE="}"#),
        Request::Audio { pcm: vec![0, 1], commit: false }
    );
}

#[test]
fn missing_or_malformed_audio_is_none() {
    for line in [
        r#"{"type":"audio","commit":true}"#,
        r#"{"type":"audio","audio_base64":"","commit":true}"#,
        r#"{"type":"audio","audio_base64":"not base64","commit":true}"#,
        r#"{"type":"audio","audio_base64":"AAE","commit":true}"#,
        r#"{"type":"audio","audio_base64":7,"commit":true}"#,
    ] {
        assert_eq!(parse_request(line), Request::Audio { pcm: vec![], commit: true }, "{}", line);
    }
}

#[test]
fn commit_must_be_a_boolean() {
    assert_eq!(
        parse_request(r#"{"type":"audio","audio_base64":"AAE=","commit":"true"}"#),
        Request::Audio { pcm: vec![0, 1], commit: false }
    );
}

#[test]
fn finish_and_cancel_are_requests() {
    assert_eq!(parse_request("{\"type\":\"finish\"}\r\n"), Request::Finish);
    assert_eq!(parse_request("\u{3000}{\"type\":\"cancel\"} "), Request::Cancel);
}

#[test]
fn end_of_input_is_a_request() {
    assert_eq!(parse_request("__STDIN_EOF__"), Request::EndOfInput);
    assert_eq!(parse_request(" __STDIN_EOF__\n"), Request::EndOfInput);
}

#[test]
fn other_lines_are_ignored() {
    for line in ["", "\n", "  \t", "finish", "{", "[]", "null", "{}", r#"{"type":"other"}"#, r#"{"type":1}"#, r#"["finish"]"#] {
        assert_eq!(parse_request(line), Request::Ignored, "{}", line);
    }
}

#[test]
fn commands_are_read_from_values() {
    let value = Json::Object(vec![
        (text("type"), Json::Text(text("audio"))),
        (text("audio_base64"), Json::Text(text("!"))),
        (text("commit"), Json::Bool(true)),
    ]);
    assert_eq!(command_of_json(&value), Command::Audio { audio_base64: text("!"), commit: true });
    assert_eq!(command_of_json(&Json::Null), Command::Ignored);
    assert_eq!(audio_request(None, true), Request::Audio { pcm: vec![], commit: true });
    assert_eq!(audio_request(Some(vec![1]), false), Request::Audio { pcm: vec![1], commit: false });
}

#[test]
fn events_have_exact_lines() {
    assert_eq!(OutputEvent::SessionStarted.to_line(), r#"{"type":"session_started"}"#);
    assert_eq!(OutputEvent::Partial { text: text("hi") }.to_line(), r#"{"type":"partial","text":"hi"}"#);
    assert_eq!(OutputEvent::Final { text: text("a\"b") }.to_line(), r#"{"type":"final","text":"a\"b"}"#);
    assert_eq!(OutputEvent::Error { message: text("") }.to_line(), r#"{"type":"error","message":""}"#);
    assert_eq!(OutputEvent::Closed.to_line(), r#"{"type":"closed"}"#);
}

#[test]
fn an_event_is_one_line_that_reads_back() {
    let message = "first\nsecond\r\n\u{0}";
    let line = OutputEvent::Error { message: text(message) }.to_line();
    assert!(!line.contains('\n'));
    let value = parse_json(&line).unwrap();
    assert_eq!(value.member("message").unwrap().as_text().unwrap(), message);
    assert_eq!(value.member("type").unwrap().as_text().unwrap(), "error");
    assert_eq!(value.member("type").unwrap().as_bool(), None);
    assert!(value.member("text").is_none());
}
