//! One recognition session, as a state machine.
//!
//! ONE WebSocket connection serves the whole session: incoming PCM is appended
//! continuously while transcription events are read. There is no segmentation
//! and no reconnect. The session decides; the caller acts. [`Session::step`]
//! takes what has happened and says which events to report and what to do next.

use vstd::prelude::*;

use crate::asr;
use crate::asr::ClientMessageModel;
use crate::asr::RealtimeSender;
use crate::asr::ServerEvent;
use crate::asr::ServerEventModel;
use crate::audio;
use crate::config::CHUNK_MS;
use crate::config::SAMPLE_RATE;
use crate::protocol;
use crate::protocol::parse_request;
use crate::protocol::OutputEvent;
use crate::protocol::OutputModel;
use crate::protocol::Request;
use crate::protocol::RequestModel;
use crate::text;
use crate::text::strip_prefix;
use crate::text::trim;
use crate::text::StreamCleaner;
use crate::trace;

verus! {

/// Bytes of audio per frame.
pub const FRAME_BYTES: usize = 8000;

/// Where a session stands: what it waits for.
#[derive(Debug, Clone, Copy, PartialEq, Eq, Structural)]
pub enum Phase {
    /// The connection to be made.
    Connecting,
    /// The first event of the server.
    AwaitingReady,
    /// The model name to be sent.
    SendingModel,
    /// The commit that starts generation to be sent.
    SendingStart,
    /// Events that are already there; `draining` once all input has been taken.
    Polling { draining: bool },
    /// A line of input.
    Reading,
    /// Audio to be sent; `commit` if it is the last.
    SendingAudio { commit: bool },
    /// The final commit to be sent; `draining` once all input has been taken.
    SendingCommit { draining: bool },
    /// The end of the transcription.
    Draining,
    /// Nothing: the session is over.
    Closed,
}

/// What has happened.
#[derive(Debug)]
pub enum Input {
    /// The connection stands.
    Connected,
    /// The connection could not be made.
    ConnectFailed { message: String },
    /// The server sent an event.
    Event(ServerEvent),
    /// No event of the server is there yet.
    NoEvent,
    /// The server will send no more events.
    EventsClosed,
    /// Vinput made a request.
    Request(Request),
    /// Vinput cannot make requests any more.
    RequestsClosed,
    /// All frames were sent.
    Sent,
    /// A frame could not be sent, nor any after it.
    SendFailed { message: String },
    /// The end of the transcription did not come in time.
    TimedOut,
}

/// What an [`Input`] says.
pub enum InputModel {
    Connected,
    ConnectFailed { message: Seq<char> },
    Event(ServerEventModel),
    NoEvent,
    EventsClosed,
    Request(RequestModel),
    RequestsClosed,
    Sent,
    SendFailed { message: Seq<char> },
    TimedOut,
}

impl Input {
    pub open spec fn model(self) -> InputModel {
        match self {
            Input::Connected => InputModel::Connected,
            Input::ConnectFailed { message } => InputModel::ConnectFailed { message: message@ },
            Input::Event(ev) => InputModel::Event(ev.model()),
            Input::NoEvent => InputModel::NoEvent,
            Input::EventsClosed => InputModel::EventsClosed,
            Input::Request(request) => InputModel::Request(request.model()),
            Input::RequestsClosed => InputModel::RequestsClosed,
            Input::Sent => InputModel::Sent,
            Input::SendFailed { message } => InputModel::SendFailed { message: message@ },
            Input::TimedOut => InputModel::TimedOut,
        }
    }
}

/// What to do next.
#[derive(Debug)]
pub enum Action {
    /// Wait for the next event of the server.
    AwaitEvent,
    /// Take an event of the server if one is there.
    PollEvent,
    /// Wait for the next request.
    AwaitRequest,
    /// Wait for the next event of the server, up to the timeout, which runs
    /// from the first time that this is asked for: see [`crate::timer`].
    AwaitDone,
    /// Send frames in order, up to the first that fails.
    Send(Vec<String>),
    /// End the session; close the connection first if `close`.
    Stop { close: bool },
    /// What was asked for before still stands.
    Continue,
}

/// What an [`Action`] says.
pub enum ActionModel {
    AwaitEvent,
    PollEvent,
    AwaitRequest,
    AwaitDone,
    Send(Seq<Seq<char>>),
    Stop { close: bool },
    Continue,
}

impl Action {
    pub open spec fn model(self) -> ActionModel {
        match self {
            Action::AwaitEvent => ActionModel::AwaitEvent,
            Action::PollEvent => ActionModel::PollEvent,
            Action::AwaitRequest => ActionModel::AwaitRequest,
            Action::AwaitDone => ActionModel::AwaitDone,
            Action::Send(frames) => ActionModel::Send(asr::frame_texts(frames@)),
            Action::Stop { close } => ActionModel::Stop { close },
            Action::Continue => ActionModel::Continue,
        }
    }
}

/// What a step comes to: events to report, in order, and what to do next.
#[derive(Debug)]
pub struct Reply {
    pub outputs: Vec<OutputEvent>,
    pub action: Action,
}

/// The events of a list.
pub open spec fn output_models(outputs: Seq<OutputEvent>) -> Seq<OutputModel> {
    outputs.map_values(|e: OutputEvent| e.model())
}

/// The event, if there is one.
pub open spec fn event_models(event: Option<OutputEvent>) -> Seq<OutputModel> {
    match event {
        Some(e) => seq![e.model()],
        None => Seq::empty(),
    }
}

/// The state of a session.
pub struct SessionModel {
    /// The model name.
    pub model: Seq<char>,
    /// The raw transcription so far.
    pub raw: Seq<char>,
    /// Whether audio has been sent since the last final commit.
    pub pending_commit: bool,
    pub phase: Phase,
}

/// A step: the state after it, the events to report, and what to do next.
pub struct StepModel {
    pub session: SessionModel,
    pub outputs: Seq<OutputModel>,
    pub action: ActionModel,
}

// ---------------------------------------------------------------------------
// The transitions
// ---------------------------------------------------------------------------

/// A new session.
pub open spec fn session_start(model: Seq<char>) -> SessionModel {
    SessionModel { model, raw: Seq::empty(), pending_commit: false, phase: Phase::Connecting }
}

/// The frame that names the model.
pub open spec fn model_frame(model: Seq<char>) -> Seq<char> {
    ClientMessageModel::SessionUpdate { model }.frame()
}

/// The frame that commits the audio, finally or not.
pub open spec fn commit_frame(is_final: bool) -> Seq<char> {
    ClientMessageModel::Commit { is_final }.frame()
}

/// The frames that carry a piece of audio.
pub open spec fn audio_frames(pcm: Seq<u8>) -> Seq<Seq<char>> {
    audio::chunks_of(pcm, FRAME_BYTES as nat).map_values(
        |chunk: Seq<u8>| asr::audio_frame(chunk),
    )
}

impl SessionModel {
    pub open spec fn with_phase(self, phase: Phase) -> SessionModel {
        SessionModel { phase, ..self }
    }

    /// A step to another phase, with no event.
    pub open spec fn moves(self, phase: Phase, action: ActionModel) -> StepModel {
        StepModel { session: self.with_phase(phase), outputs: Seq::empty(), action }
    }

    /// The last step: reports `events`, then that the session is closed.
    pub open spec fn ends(self, events: Seq<OutputModel>, close: bool) -> StepModel {
        StepModel {
            session: self.with_phase(Phase::Closed),
            outputs: events.push(OutputModel::Closed),
            action: ActionModel::Stop { close },
        }
    }

    /// No step: the input does not answer what the session waits for.
    pub open spec fn stays(self) -> StepModel {
        self.moves(self.phase, ActionModel::Continue)
    }

    /// The step to sending the final commit.
    pub open spec fn commits(self, draining: bool) -> StepModel {
        self.moves(
            Phase::SendingCommit { draining },
            ActionModel::Send(seq![commit_frame(true)]),
        )
    }

    /// The step to looking for events.
    pub open spec fn polls(self, draining: bool) -> StepModel {
        self.moves(Phase::Polling { draining }, ActionModel::PollEvent)
    }
}

/// The text of the final event for a `transcription.done` with `text`, after
/// the raw transcription `raw`: the cleaned text of the message, or of `raw`
/// where the message has none. Should nothing be left of it, the cleaned `raw`
/// is used without the white space around it. `None` where that is empty, too.
pub open spec fn final_text(raw: Seq<char>, text: Seq<char>) -> Option<Seq<char>> {
    let whole = text::cleaned(
        if text.len() == 0 {
            raw
        } else {
            text
        },
    );
    let rest = text::trimmed(text::cleaned(raw));
    if whole.len() > 0 {
        Some(whole)
    } else if rest.len() > 0 {
        Some(rest)
    } else {
        None
    }
}

/// The final event, if there is text for it.
pub open spec fn final_outputs(raw: Seq<char>, text: Seq<char>) -> Seq<OutputModel> {
    match final_text(raw, text) {
        Some(text) => seq![OutputModel::Final { text }],
        None => Seq::empty(),
    }
}

/// What the server's events come to once generation has started. `action`
/// asks for the next event.
pub open spec fn on_event(s: SessionModel, ev: ServerEventModel, action: ActionModel) -> StepModel {
    match ev {
        ServerEventModel::Delta { text } => {
            let raw = s.raw + text;
            let clean = text::cleaned(raw);
            StepModel {
                session: SessionModel { raw, ..s },
                outputs: if clean.len() > 0 {
                    seq![OutputModel::Partial { text: clean }]
                } else {
                    Seq::empty()
                },
                action,
            }
        },
        ServerEventModel::Done { text, .. } => s.ends(final_outputs(s.raw, text), true),
        ServerEventModel::Error { message, .. } => s.ends(
            seq![OutputModel::Error { message }],
            true,
        ),
        ServerEventModel::Created { .. } => s.moves(s.phase, action),
    }
}

/// What a request comes to.
pub open spec fn on_request(s: SessionModel, request: RequestModel) -> StepModel {
    match request {
        RequestModel::Audio { pcm, commit } => if pcm.len() > 0 {
            s.moves(Phase::SendingAudio { commit }, ActionModel::Send(audio_frames(pcm)))
        } else if commit && s.pending_commit {
            s.commits(false)
        } else {
            s.polls(false)
        },
        RequestModel::Finish => if s.pending_commit {
            s.commits(true)
        } else {
            s.polls(true)
        },
        RequestModel::EndOfInput => s.commits(true),
        RequestModel::Cancel => s.ends(Seq::empty(), true),
        RequestModel::Ignored => s.polls(false),
    }
}

/// The step that an input makes a session take.
pub open spec fn stepped(s: SessionModel, input: InputModel) -> StepModel {
    match (s.phase, input) {
        (Phase::Connecting, InputModel::Connected) => StepModel {
            session: s.with_phase(Phase::AwaitingReady),
            outputs: seq![OutputModel::SessionStarted],
            action: ActionModel::AwaitEvent,
        },
        (Phase::Connecting, InputModel::ConnectFailed { message }) => s.ends(
            seq![OutputModel::Error { message }],
            false,
        ),
        (
            Phase::AwaitingReady,
            InputModel::Event(ServerEventModel::Error { message, .. }),
        ) => s.ends(seq![OutputModel::Error { message }], true),
        (Phase::AwaitingReady, InputModel::Event(_)) => s.moves(
            Phase::SendingModel,
            ActionModel::Send(seq![model_frame(s.model)]),
        ),
        (Phase::AwaitingReady, InputModel::EventsClosed) => s.moves(
            Phase::SendingModel,
            ActionModel::Send(seq![model_frame(s.model)]),
        ),
        (Phase::SendingModel, InputModel::Sent) => s.moves(
            Phase::SendingStart,
            ActionModel::Send(seq![commit_frame(false)]),
        ),
        (Phase::SendingModel, InputModel::SendFailed { .. }) => s.moves(
            Phase::SendingStart,
            ActionModel::Send(seq![commit_frame(false)]),
        ),
        (Phase::SendingStart, InputModel::Sent) => s.polls(false),
        (Phase::SendingStart, InputModel::SendFailed { message }) => s.ends(
            seq![OutputModel::Error { message }],
            false,
        ),
        (Phase::Polling { .. }, InputModel::Event(ev)) => on_event(s, ev, ActionModel::PollEvent),
        (Phase::Polling { .. }, InputModel::EventsClosed) => s.ends(Seq::empty(), true),
        (Phase::Polling { draining }, InputModel::NoEvent) => if draining {
            s.moves(Phase::Draining, ActionModel::AwaitDone)
        } else {
            s.moves(Phase::Reading, ActionModel::AwaitRequest)
        },
        (Phase::Reading, InputModel::Request(request)) => on_request(s, request),
        (Phase::Reading, InputModel::RequestsClosed) => s.ends(Seq::empty(), true),
        (Phase::SendingAudio { commit }, InputModel::Sent) => {
            let t = SessionModel { pending_commit: true, ..s };
            if commit {
                t.commits(false)
            } else {
                t.polls(false)
            }
        },
        (Phase::SendingAudio { .. }, InputModel::SendFailed { message }) => s.ends(
            seq![OutputModel::Error { message }],
            true,
        ),
        (Phase::SendingCommit { draining }, InputModel::Sent) => SessionModel {
            pending_commit: false,
            ..s
        }.polls(draining),
        (Phase::SendingCommit { draining }, InputModel::SendFailed { .. }) => SessionModel {
            pending_commit: false,
            ..s
        }.polls(draining),
        (Phase::Draining, InputModel::Event(ev)) => on_event(s, ev, ActionModel::AwaitDone),
        (Phase::Draining, InputModel::EventsClosed) => s.ends(Seq::empty(), true),
        (Phase::Draining, InputModel::TimedOut) => s.ends(Seq::empty(), true),
        _ => s.stays(),
    }
}

// ---------------------------------------------------------------------------
// The session
// ---------------------------------------------------------------------------

/// The frames that an action asks to be sent.
pub open spec fn frames_of(action: ActionModel) -> Seq<Seq<char>> {
    match action {
        ActionModel::Send(frames) => frames,
        _ => Seq::empty(),
    }
}

/// Whether an action sends frames from which a reader has the audio `pcm` again.
pub open spec fn delivers(action: ActionModel, pcm: Seq<u8>) -> bool {
    action is Send && asr::carried_by(frames_of(action)) == pcm
}

/// The audio that a session takes from an input: that of a request it waits for.
pub open spec fn taken(s: SessionModel, input: InputModel) -> Seq<u8> {
    match (s.phase, input) {
        (Phase::Reading, InputModel::Request(RequestModel::Audio { pcm, .. })) => pcm,
        _ => Seq::empty(),
    }
}

/// A recognition session.
pub struct Session {
    model: String,
    cleaner: StreamCleaner,
    pending_commit: bool,
    phase: Phase,
    history: Ghost<Seq<InputModel>>,
}

impl View for Session {
    type V = SessionModel;

    closed spec fn view(&self) -> SessionModel {
        SessionModel {
            model: self.model@,
            raw: self.cleaner@,
            pending_commit: self.pending_commit,
            phase: self.phase,
        }
    }
}

/// The maker of the session's frames.
fn sender() -> (r: RealtimeSender)
    ensures
        r.chunk_size() == FRAME_BYTES,
{
    RealtimeSender::new(SAMPLE_RATE, CHUNK_MS)
}

/// No frames carry no audio.
proof fn lemma_nothing_carried()
    ensures
        asr::carried_by(Seq::empty()) == Seq::<u8>::empty(),
{
    let none = Seq::<Seq<char>>::empty().map_values(|f: Seq<char>| asr::carried_audio(f));
    assert(none =~= Seq::empty());
    assert(none.flatten() =~= Seq::empty());
}

/// Asks for one frame to be sent.
fn send_one(frame: String) -> (r: Action)
    ensures
        r.model() == ActionModel::Send(seq![frame@]),
        asr::carried_by(frames_of(r.model())) == asr::carried_audio(frame@),
{
    proof {
        let carried = seq![frame@].map_values(|f: Seq<char>| asr::carried_audio(f));
        assert(carried =~= seq![asr::carried_audio(frame@)]);
        carried.lemma_flatten_one_element();
    }
    let mut frames: Vec<String> = Vec::new();
    frames.push(frame);
    assert(asr::frame_texts(frames@) =~= seq![frame@]);
    Action::Send(frames)
}

/// A reply without events.
fn silently(action: Action) -> (r: Reply)
    ensures
        r.action == action,
        output_models(r.outputs@) == Seq::<OutputModel>::empty(),
{
    let outputs: Vec<OutputEvent> = Vec::new();
    assert(output_models(outputs@) =~= Seq::empty());
    Reply { outputs, action }
}

/// A reply with one event.
fn reporting(event: OutputEvent, action: Action) -> (r: Reply)
    ensures
        r.action == action,
        output_models(r.outputs@) == seq![event.model()],
{
    let mut outputs: Vec<OutputEvent> = Vec::new();
    outputs.push(event);
    assert(output_models(outputs@) =~= seq![event.model()]);
    Reply { outputs, action }
}

impl Session {
    /// A session that will use the given model.
    pub fn new(model: String) -> (r: Self)
        ensures
            r@ == session_start(model@),
            r.history() == Seq::<InputModel>::empty(),
            r.accounted(),
    {
        proof {
            lemma_nothing_carried();
        }
        Session {
            model,
            cleaner: StreamCleaner::new(),
            pending_commit: false,
            phase: Phase::Connecting,
            history: Ghost(Seq::empty()),
        }
    }

    /// All that has happened so far.
    pub closed spec fn history(&self) -> Seq<InputModel> {
        self.history@
    }

    /// Whether all is accounted for: the session stands where its history
    /// takes it, and a reader of all frames that it has asked to be sent has
    /// exactly the audio of all requests that it has taken, in order.
    pub open spec fn accounted(&self) -> bool {
        let start = session_start(self@.model);
        &&& trace::run(start, self.history()).session == self@
        &&& asr::carried_by(trace::run(start, self.history()).frames) == trace::taken_audio(
            start,
            self.history(),
        )
    }

    /// Where the session stands.
    pub fn phase(&self) -> (r: Phase)
        ensures
            r == self@.phase,
    {
        self.phase
    }

    fn move_to(&mut self, phase: Phase, action: Action) -> (r: Reply)
        ensures
            final(self)@ == old(self)@.moves(phase, action.model()).session,
            output_models(r.outputs@) == old(self)@.moves(phase, action.model()).outputs,
            r.action == action,
    {
        self.phase = phase;
        silently(action)
    }

    fn end(&mut self, event: Option<OutputEvent>, close: bool) -> (r: Reply)
        ensures
            ({
                let step = old(self)@.ends(event_models(event), close);
                &&& final(self)@ == step.session
                &&& output_models(r.outputs@) == step.outputs
                &&& r.action.model() == step.action
            }),
    {
        self.phase = Phase::Closed;
        let mut outputs: Vec<OutputEvent> = Vec::new();
        let ghost events = event_models(event);
        match event {
            Some(e) => {
                outputs.push(e);
            },
            None => {},
        }
        assert(output_models(outputs@) =~= events);
        let ghost before = outputs@;
        outputs.push(OutputEvent::Closed);
        assert(output_models(outputs@) =~= output_models(before).push(OutputModel::Closed));
        Reply { outputs, action: Action::Stop { close } }
    }

    fn commit(&mut self, draining: bool) -> (r: Reply)
        ensures
            final(self)@ == old(self)@.commits(draining).session,
            output_models(r.outputs@) == old(self)@.commits(draining).outputs,
            r.action.model() == old(self)@.commits(draining).action,
            asr::carried_by(frames_of(r.action.model())) == Seq::<u8>::empty(),
    {
        self.move_to(Phase::SendingCommit { draining }, send_one(sender().finish()))
    }

    fn poll(&mut self, draining: bool) -> (r: Reply)
        ensures
            final(self)@ == old(self)@.polls(draining).session,
            output_models(r.outputs@) == old(self)@.polls(draining).outputs,
            r.action.model() == old(self)@.polls(draining).action,
    {
        self.move_to(Phase::Polling { draining }, Action::PollEvent)
    }

    /// The final event for a `transcription.done` with `text`, if there is text for it.
    fn final_event(&self, text: &str) -> (r: Option<OutputEvent>)
        ensures
            event_models(r) == final_outputs(self@.raw, text@),
    {
        let whole = if text.is_empty() {
            self.cleaner.current()
        } else {
            strip_prefix(text)
        };
        if !whole.as_str().is_empty() {
            return Some(OutputEvent::Final { text: whole });
        }
        let rest = trim(self.cleaner.current().as_str());
        if !rest.as_str().is_empty() {
            return Some(OutputEvent::Final { text: rest });
        }
        None
    }

    fn take_event(&mut self, ev: ServerEvent, action: Action) -> (r: Reply)
        ensures
            ({
                let step = on_event(old(self)@, ev.model(), action.model());
                &&& final(self)@ == step.session
                &&& output_models(r.outputs@) == step.outputs
                &&& r.action.model() == step.action
            }),
    {
        match ev {
            ServerEvent::Delta { text } => {
                let clean = self.cleaner.push_delta(text.as_str());
                if !clean.as_str().is_empty() {
                    reporting(OutputEvent::Partial { text: clean }, action)
                } else {
                    silently(action)
                }
            },
            ServerEvent::Done { text, usage } => {
                let event = self.final_event(text.as_str());
                self.end(event, true)
            },
            ServerEvent::Error { message, code } => {
                self.end(Some(OutputEvent::Error { message }), true)
            },
            ServerEvent::Created { id } => silently(action),
        }
    }

    fn take_request(&mut self, request: Request) -> (r: Reply)
        ensures
            ({
                let step = on_request(old(self)@, request.model());
                &&& final(self)@ == step.session
                &&& output_models(r.outputs@) == step.outputs
                &&& r.action.model() == step.action
            }),
            r.action is Send ==> asr::carried_by(frames_of(r.action.model()))
                == match request.model() {
                RequestModel::Audio { pcm, .. } => pcm,
                _ => Seq::empty(),
            },
    {
        match request {
            Request::Audio { pcm, commit } => {
                if !pcm.is_empty() {
                    let frames = sender().append_bytes(pcm.as_slice());
                    self.move_to(Phase::SendingAudio { commit }, Action::Send(frames))
                } else if commit && self.pending_commit {
                    assert(pcm@ =~= Seq::empty());
                    self.commit(false)
                } else {
                    self.poll(false)
                }
            },
            Request::Finish => {
                if self.pending_commit {
                    self.commit(true)
                } else {
                    self.poll(true)
                }
            },
            Request::EndOfInput => self.commit(true),
            Request::Cancel => self.end(None, true),
            Request::Ignored => self.poll(false),
        }
    }

    fn advance(&mut self, input: Input) -> (r: Reply)
        ensures
            final(self)@ == stepped(old(self)@, input.model()).session,
            output_models(r.outputs@) == stepped(old(self)@, input.model()).outputs,
            r.action.model() == stepped(old(self)@, input.model()).action,
            r.action is Send ==> asr::carried_by(frames_of(r.action.model())) == taken(
                old(self)@,
                input.model(),
            ),
    {
        match self.phase {
            Phase::Connecting => match input {
                Input::Connected => {
                    self.phase = Phase::AwaitingReady;
                    reporting(OutputEvent::SessionStarted, Action::AwaitEvent)
                },
                Input::ConnectFailed { message } => {
                    self.end(Some(OutputEvent::Error { message }), false)
                },
                _ => silently(Action::Continue),
            },
            Phase::AwaitingReady => match input {
                Input::Event(ServerEvent::Error { message, code }) => {
                    self.end(Some(OutputEvent::Error { message }), true)
                },
                Input::Event(_) | Input::EventsClosed => {
                    let frame = sender().update_model(self.model.as_str());
                    self.move_to(Phase::SendingModel, send_one(frame))
                },
                _ => silently(Action::Continue),
            },
            Phase::SendingModel => match input {
                Input::Sent | Input::SendFailed { .. } => {
                    let frame = sender().start_generation();
                    self.move_to(Phase::SendingStart, send_one(frame))
                },
                _ => silently(Action::Continue),
            },
            Phase::SendingStart => match input {
                Input::Sent => self.poll(false),
                Input::SendFailed { message } => {
                    self.end(Some(OutputEvent::Error { message }), false)
                },
                _ => silently(Action::Continue),
            },
            Phase::Polling { draining } => match input {
                Input::Event(ev) => self.take_event(ev, Action::PollEvent),
                Input::EventsClosed => self.end(None, true),
                Input::NoEvent => {
                    if draining {
                        self.move_to(Phase::Draining, Action::AwaitDone)
                    } else {
                        self.move_to(Phase::Reading, Action::AwaitRequest)
                    }
                },
                _ => silently(Action::Continue),
            },
            Phase::Reading => match input {
                Input::Request(request) => self.take_request(request),
                Input::RequestsClosed => self.end(None, true),
                _ => silently(Action::Continue),
            },
            Phase::SendingAudio { commit } => match input {
                Input::Sent => {
                    self.pending_commit = true;
                    if commit {
                        self.commit(false)
                    } else {
                        self.poll(false)
                    }
                },
                Input::SendFailed { message } => {
                    self.end(Some(OutputEvent::Error { message }), true)
                },
                _ => silently(Action::Continue),
            },
            Phase::SendingCommit { draining } => match input {
                Input::Sent | Input::SendFailed { .. } => {
                    self.pending_commit = false;
                    self.poll(draining)
                },
                _ => silently(Action::Continue),
            },
            Phase::Draining => match input {
                Input::Event(ev) => self.take_event(ev, Action::AwaitDone),
                Input::EventsClosed | Input::TimedOut => self.end(None, true),
                _ => silently(Action::Continue),
            },
            Phase::Closed => silently(Action::Continue),
        }
    }

    /// Takes note of what has happened. An input that does not answer what the
    /// session waits for changes nothing. Audio that is taken is sent on whole,
    /// and no other audio is.
    pub fn step(&mut self, input: Input) -> (r: Reply)
        ensures
            final(self)@ == stepped(old(self)@, input.model()).session,
            output_models(r.outputs@) == stepped(old(self)@, input.model()).outputs,
            r.action.model() == stepped(old(self)@, input.model()).action,
            asr::carried_by(frames_of(r.action.model())) == taken(old(self)@, input.model()),
            old(self)@.phase is Reading ==> (input.model() matches InputModel::Request(
                RequestModel::Audio { pcm, .. },
            ) ==> pcm.len() > 0 ==> delivers(r.action.model(), pcm)),
            final(self).history() == old(self).history().push(input.model()),
            old(self).accounted() ==> final(self).accounted(),
    {
        let ghost event = input.model();
        let ghost before = self@;
        let ghost past = self.history@;
        let r = self.advance(input);
        self.history = Ghost(past.push(event));
        proof {
            lemma_nothing_carried();
            if !(r.action is Send) {
                assert(taken(before, event) =~= Seq::empty());
            }
            trace::lemma_run_push(session_start(before.model), past, event);
        }
        r
    }

    /// Takes note of a line of input.
    pub fn step_line(&mut self, line: &str) -> (r: Reply)
        ensures
            ({
                let step = stepped(
                    old(self)@,
                    InputModel::Request(protocol::request_of(line@)),
                );
                &&& final(self)@ == step.session
                &&& output_models(r.outputs@) == step.outputs
                &&& r.action.model() == step.action
            }),
            asr::carried_by(frames_of(r.action.model())) == taken(
                old(self)@,
                InputModel::Request(protocol::request_of(line@)),
            ),
            old(self)@.phase is Reading ==> (protocol::request_of(
                line@,
            ) matches RequestModel::Audio { pcm, .. } ==> pcm.len() > 0 ==> delivers(
                r.action.model(),
                pcm,
            )),
            final(self).history() == old(self).history().push(
                InputModel::Request(protocol::request_of(line@)),
            ),
            old(self).accounted() ==> final(self).accounted(),
    {
        self.step(Input::Request(parse_request(line)))
    }
}

} // verus!
