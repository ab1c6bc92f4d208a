use vinput_ws_asr::asr::ServerEvent;
use vinput_ws_asr::protocol::{OutputEvent, Request};
use vinput_ws_asr::session::{Action, Input, Phase, Reply, Session};

const START: &str = r#"{"type":"input_audio_buffer.commit","final":false}"#;
const COMMIT: &str = r#"{"type":"input_audio_buffer.commit","final":true}"#;

fn text(t: &str) -> String {
    t.to_string()
}

fn created() -> Input {
    Input::Event(ServerEvent::Created { id: text("") })
}

fn delta(t: &str) -> Input {
    Input::Event(ServerEvent::Delta { text: text(t) })
}

fn done(t: &str) -> Input {
    Input::Event(ServerEvent::Done { text: text(t), usage: None })
}

fn server_error(m: &str) -> Input {
    Input::Event(ServerEvent::Error { message: text(m), code: None })
}

fn audio(pcm: &[u8], commit: bool) -> Input {
    Input::Request(Request::Audio { pcm: pcm.to_vec(), commit })
}

fn finish() -> Input {
    Input::Request(Request::Finish)
}

fn partial(t: &str) -> OutputEvent {
    OutputEvent::Partial { text: text(t) }
}

fn final_event(t: &str) -> OutputEvent {
    OutputEvent::Final { text: text(t) }
}

fn error_event(m: &str) -> OutputEvent {
    OutputEvent::Error { message: text(m) }
}

fn sent(reply: &Reply) -> Vec<String> {
    match &reply.action {
        Action::Send(frames) => frames.clone(),
        _ => vec![],
    }
}

/// A session that has started generation and waits for a request.
fn reading() -> Session {
    let mut s = Session::new(text("m"));
    for input in [Input::Connected, created(), Input::Sent, Input::Sent, Input::NoEvent] {
        s.step(input);
    }
    assert_eq!(s.phase(), Phase::Reading);
    s
}

/// A session that has started generation and takes events.
fn polling() -> Session {
    let mut s = reading();
    s.step(Input::Request(Request::Ignored));
    assert_eq!(s.phase(), Phase::Polling { draining: false });
    s
}

#[test]
fn a_session_starts() {
    let mut s = Session::new(text("qwen"));
    let r = s.step(Input::Connected);
    assert_eq!(r.outputs, vec![OutputEvent::SessionStarted]);
    assert!(matches!(r.action, Action::AwaitEvent));
    let r = s.step(created());
    assert_eq!(r.outputs, vec![]);
    assert_eq!(sent(&r), vec![text(r#"{"type":"session.update","model":"qwen"}"#)]);
    let r = s.step(Input::Sent);
    assert_eq!(sent(&r), vec![text(START)]);
    let r = s.step(Input::Sent);
    assert!(matches!(r.action, Action::PollEvent));
    let r = s.step(Input::NoEvent);
    assert!(matches!(r.action, Action::AwaitRequest));
}

#[test]
fn a_failed_connection_is_reported() {
    let mut s = Session::new(text("m"));
    let r = s.step(Input::ConnectFailed { message: text("refused") });
    assert_eq!(r.outputs, vec![error_event("refused"), OutputEvent::Closed]);
    assert!(matches!(r.action, Action::Stop { close: false }));
    assert_eq!(s.phase(), Phase::Closed);
}

#[test]
fn an_error_instead_of_readiness_ends_the_session() {
    let mut s = Session::new(text("m"));
    s.step(Input::Connected);
    let r = s.step(server_error("no"));
    assert_eq!(r.outputs, vec![error_event("no"), OutputEvent::Closed]);
    assert!(matches!(r.action, Action::Stop { close: true }));
}

#[test]
fn any_other_first_event_goes_on() {
    for input in [delta("lost"), done("lost"), Input::EventsClosed] {
        let mut s = Session::new(text("m"));
        s.step(Input::Connected);
        let r = s.step(input);
        assert_eq!(r.outputs, vec![]);
        assert_eq!(sent(&r).len(), 1);
        assert_eq!(s.phase(), Phase::SendingModel);
    }
}

#[test]
fn only_a_failed_start_matters() {
    let mut s = Session::new(text("m"));
    s.step(Input::Connected);
    s.step(created());
    let r = s.step(Input::SendFailed { message: text("a") });
    assert_eq!(sent(&r), vec![text(START)]);
    let r = s.step(Input::SendFailed { message: text("b") });
    assert_eq!(r.outputs, vec![error_event("b"), OutputEvent::Closed]);
    assert!(matches!(r.action, Action::Stop { close: false }));
}

#[test]
fn deltas_are_reported_live_and_whole() {
    let mut s = polling();
    assert_eq!(s.step(delta("language English")).outputs, vec![]);
    assert_eq!(s.step(delta("<asr_text>Hel")).outputs, vec![partial("Hel")]);
    let r = s.step(delta("lo"));
    assert_eq!(r.outputs, vec![partial("Hello")]);
    assert!(matches!(r.action, Action::PollEvent));
}

#[test]
fn done_reports_the_final_text() {
    let mut s = polling();
    s.step(delta("raw"));
    let r = s.step(done("language English<asr_text>All of it."));
    assert_eq!(r.outputs, vec![final_event("All of it."), OutputEvent::Closed]);
    assert!(matches!(r.action, Action::Stop { close: true }));
}

#[test]
fn done_without_text_uses_the_deltas() {
    let mut s = polling();
    s.step(delta(" raw "));
    assert_eq!(s.step(done("")).outputs, vec![final_event(" raw "), OutputEvent::Closed]);
}

#[test]
fn done_with_only_a_prefix_uses_the_trimmed_deltas() {
    let mut s = polling();
    s.step(delta(" raw "));
    assert_eq!(
        s.step(done("language English<asr_text>")).outputs,
        vec![final_event("raw"), OutputEvent::Closed]
    );
}

#[test]
fn done_without_any_text_has_no_final() {
    let mut s = polling();
    assert_eq!(s.step(done("")).outputs, vec![OutputEvent::Closed]);
    let mut s = polling();
    s.step(delta(" "));
    assert_eq!(s.step(done("\n")).outputs, vec![OutputEvent::Closed]);
}

#[test]
fn a_closed_session_is_silent() {
    let mut s = polling();
    s.step(done("x"));
    for input in [done("y"), delta("z"), finish(), Input::Connected, server_error("e")] {
        let r = s.step(input);
        assert_eq!(r.outputs, vec![]);
        assert!(matches!(r.action, Action::Continue));
        assert_eq!(s.phase(), Phase::Closed);
    }
}

#[test]
fn a_server_error_ends_the_session() {
    let mut s = polling();
    s.step(delta("text"));
    let r = s.step(server_error("boom"));
    assert_eq!(r.outputs, vec![error_event("boom"), OutputEvent::Closed]);
    assert!(matches!(r.action, Action::Stop { close: true }));
}

#[test]
fn a_lost_server_closes_the_session() {
    let mut s = polling();
    assert_eq!(s.step(Input::EventsClosed).outputs, vec![OutputEvent::Closed]);
}

#[test]
fn audio_is_sent_in_chunks() {
    let mut s = reading();
    let r = s.step(audio(&[0; 8003], false));
    let frames = sent(&r);
    assert_eq!(frames.len(), 2);
    assert_eq!(frames[1], r#"{"type":"input_audio_buffer.append","audio":"AAAA"}"#);
    let r = s.step(Input::Sent);
    assert!(matches!(r.action, Action::PollEvent));
    assert_eq!(s.phase(), Phase::Polling { draining: false });
}

#[test]
fn failing_to_send_audio_ends_the_session() {
    let mut s = reading();
    s.step(audio(&[1, 2], true));
    let r = s.step(Input::SendFailed { message: text("broken") });
    assert_eq!(r.outputs, vec![error_event("broken"), OutputEvent::Closed]);
    assert!(matches!(r.action, Action::Stop { close: true }));
}

#[test]
fn committed_audio_is_not_committed_again_by_finish() {
    let mut s = reading();
    s.step(audio(&[1, 2], true));
    assert_eq!(sent(&s.step(Input::Sent)), vec![text(COMMIT)]);
    s.step(Input::Sent);
    s.step(delta("x"));
    s.step(Input::NoEvent);
    let r = s.step(finish());
    assert!(matches!(r.action, Action::PollEvent));
    assert_eq!(s.phase(), Phase::Polling { draining: true });
}

#[test]
fn uncommitted_audio_is_committed_by_finish() {
    let mut s = reading();
    s.step(audio(&[1, 2], false));
    s.step(Input::Sent);
    s.step(Input::NoEvent);
    assert_eq!(sent(&s.step(finish())), vec![text(COMMIT)]);
    let r = s.step(Input::SendFailed { message: text("ignored") });
    assert_eq!(r.outputs, vec![]);
    assert_eq!(s.phase(), Phase::Polling { draining: true });
}

#[test]
fn finish_without_audio_commits_nothing() {
    let mut s = reading();
    assert!(matches!(s.step(finish()).action, Action::PollEvent));
}

#[test]
fn commit_without_bytes_commits_what_is_pending() {
    let mut s = reading();
    assert!(matches!(s.step(audio(&[], true)).action, Action::PollEvent));
    s.step(Input::NoEvent);
    s.step(audio(&[1, 2], false));
    s.step(Input::Sent);
    s.step(Input::NoEvent);
    assert_eq!(sent(&s.step(audio(&[], true))), vec![text(COMMIT)]);
}

#[test]
fn end_of_input_always_commits() {
    let mut s = reading();
    assert_eq!(sent(&s.step_line("__STDIN_EOF__")), vec![text(COMMIT)]);
    assert_eq!(s.phase(), Phase::SendingCommit { draining: true });
}

#[test]
fn draining_waits_for_done() {
    let mut s = reading();
    s.step(finish());
    let r = s.step(Input::NoEvent);
    assert!(matches!(r.action, Action::AwaitDone));
    let r = s.step(delta("tail"));
    assert_eq!(r.outputs, vec![partial("tail")]);
    assert!(matches!(r.action, Action::AwaitDone));
    assert!(matches!(s.step(created()).action, Action::AwaitDone));
    assert_eq!(s.step(done("")).outputs, vec![final_event("tail"), OutputEvent::Closed]);
}

#[test]
fn draining_ends_in_time() {
    for input in [Input::TimedOut, Input::EventsClosed] {
        let mut s = reading();
        s.step(finish());
        s.step(Input::NoEvent);
        s.step(delta("tail"));
        let r = s.step(input);
        assert_eq!(r.outputs, vec![OutputEvent::Closed]);
        assert!(matches!(r.action, Action::Stop { close: true }));
    }
}

#[test]
fn cancel_closes_without_a_final_text() {
    let mut s = polling();
    s.step(delta("text"));
    s.step(Input::NoEvent);
    let r = s.step_line("{\"type\":\"cancel\"}\n");
    assert_eq!(r.outputs, vec![OutputEvent::Closed]);
    assert!(matches!(r.action, Action::Stop { close: true }));
}

#[test]
fn no_more_requests_closes_the_session() {
    let mut s = reading();
    assert_eq!(s.step(Input::RequestsClosed).outputs, vec![OutputEvent::Closed]);
}

#[test]
fn lines_are_requests() {
    let mut s = reading();
    let r = s.step_line(r#"{"type":"audio","audio_base64":"AAEC","commit":true}"#);
    assert_eq!(sent(&r), vec![text(r#"{"type":"input_audio_buffer.append","audio":"AAEC"}"#)]);
    assert_eq!(s.phase(), Phase::SendingAudio { commit: true });
    let mut s = reading();
    assert!(matches!(s.step_line("noise").action, Action::PollEvent));
}

#[test]
fn unexpected_input_changes_nothing() {
    let mut s = reading();
    for input in [Input::Connected, delta("x"), Input::Sent, Input::TimedOut, Input::NoEvent] {
        let r = s.step(input);
        assert_eq!(r.outputs, vec![]);
        assert!(matches!(r.action, Action::Continue));
        assert_eq!(s.phase(), Phase::Reading);
    }
}

#[test]
fn reports_of_a_whole_session() {
    let mut s = Session::new(text("m"));
    let mut outputs: Vec<OutputEvent> = Vec::new();
    let mut frames: Vec<String> = Vec::new();
    let inputs = vec![
        Input::Connected,
        created(),
        Input::Sent,
        Input::Sent,
        created(),
        Input::NoEvent,
        audio(&[0, 0, 0], true),
        Input::Sent,
        Input::Sent,
        delta("language English<asr_text>a"),
        delta("b"),
        Input::NoEvent,
        finish(),
        done("language English<asr_text>abc"),
        done("again"),
    ];
    for input in inputs {
        let r = s.step(input);
        frames.extend(sent(&r));
        outputs.extend(r.outputs);
    }
    assert_eq!(outputs, vec![
        OutputEvent::SessionStarted,
        partial("a"),
        partial("ab"),
        final_event("abc"),
        OutputEvent::Closed,
    ]);
    assert_eq!(frames, vec![
        text(r#"{"type":"session.update","model":"m"}"#),
        text(START),
        text(r#"{"type":"input_audio_buffer.append","audio":"AAAA"}"#),
        text(COMMIT),
    ]);
}

#[test]
fn reported_text_has_no_line_feed() {
    let mut s = polling();
    assert_eq!(s.step(delta("a\nb")).outputs, vec![partial("ab")]);
    assert_eq!(s.step(done("c\n\nd\n")).outputs, vec![final_event("cd"), OutputEvent::Closed]);
}

/// The frames that carry audio.
fn audio_only(frames: &[String]) -> Vec<String> {
    frames.iter().filter(|f| f.contains("input_audio_buffer.append")).cloned().collect()
}

#[test]
fn audio_of_a_whole_session_is_sent_once_and_in_order() {
    let mut s = Session::new(text("m"));
    let mut frames = vec![];
    let inputs = [
        // Not asked for yet, so it is not taken.
        audio(&[9, 9], true),
        Input::Connected,
        created(),
        Input::Sent,
        Input::Sent,
        Input::NoEvent,
        audio(&[1, 2, 3], false),
        Input::Sent,
        Input::NoEvent,
        audio(&[], false),
        delta("x"),
        Input::NoEvent,
        audio(&[4, 5, 6], true),
        Input::Sent,
        Input::Sent,
        Input::NoEvent,
        finish(),
        Input::NoEvent,
        Input::TimedOut,
    ];
    for input in inputs {
        frames.extend(sent(&s.step(input)));
    }
    assert_eq!(s.phase(), Phase::Closed);
    assert_eq!(
        audio_only(&frames),
        vec![
            r#"{"type":"input_audio_buffer.append","audio":"AQID"}"#,
            r#"{"type":"input_audio_buffer.append","audio":"BAUG"}"#,
        ]
    );
    assert_eq!(frames[1], START);
    assert_eq!(frames.last().unwrap(), COMMIT);
    assert_eq!(frames.len(), 5);
}

/// Two answers to what an action asks for.
fn answers_to(action: &Action) -> Vec<Input> {
    match action {
        Action::AwaitEvent => vec![created(), Input::EventsClosed],
        Action::PollEvent => vec![Input::NoEvent, delta("a")],
        Action::AwaitRequest => vec![audio(&[1], true), finish()],
        Action::AwaitDone => vec![delta("b"), Input::TimedOut],
        Action::Send(_) => vec![Input::Sent, Input::SendFailed { message: text("m") }],
        Action::Stop { .. } | Action::Continue => vec![],
    }
}

#[test]
fn an_answered_session_goes_on_until_it_stops() {
    for choices in 0u32..4096 {
        let mut s = Session::new(text("m"));
        let mut reply = s.step(Input::Connected);
        for turn in 0..12 {
            assert!(!matches!(reply.action, Action::Continue));
            let mut answers = answers_to(&reply.action);
            if answers.is_empty() {
                assert_eq!(s.phase(), Phase::Closed);
                break;
            }
            let chosen = ((choices >> turn) & 1) as usize;
            reply = s.step(answers.swap_remove(chosen));
        }
    }
}

/// All frames that inputs make a session send.
fn sent_by(s: &mut Session, inputs: Vec<Input>) -> Vec<String> {
    let mut frames = vec![];
    for input in inputs {
        frames.extend(sent(&s.step(input)));
    }
    frames
}

#[test]
fn an_empty_commit_is_not_followed_by_a_commit_on_finish() {
    // Nothing is pending.
    let mut s = reading();
    let inputs = vec![audio(&[], true), delta("x"), Input::NoEvent, finish(), Input::NoEvent];
    assert_eq!(sent_by(&mut s, inputs), Vec::<String>::new());
    assert_eq!(s.phase(), Phase::Draining);
    // Audio is pending.
    for outcome in [Input::Sent, Input::SendFailed { message: text("e") }] {
        let mut s = reading();
        sent_by(&mut s, vec![audio(&[1, 2], false), Input::Sent, Input::NoEvent]);
        let inputs = vec![
            audio(&[], true),
            outcome,
            Input::NoEvent,
            audio(&[], true),
            Input::NoEvent,
            finish(),
            Input::NoEvent,
        ];
        assert_eq!(sent_by(&mut s, inputs), vec![text(COMMIT)]);
        assert_eq!(s.phase(), Phase::Draining);
    }
}
