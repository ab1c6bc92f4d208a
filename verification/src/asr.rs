//! Minimal vLLM `/v1/realtime` WebSocket protocol client.
//!
//! Client -> Server:
//!   {"type":"session.update","model":"..."}
//!   {"type":"input_audio_buffer.append","audio":"<base64 PCM16@16k mono>"}
//!   {"type":"input_audio_buffer.commit","final":bool}
//! Server -> Client:
//!   {"type":"session.created"} or {"type":"session.updated"}
//!   {"type":"transcription.delta","delta":"..."}
//!   {"type":"transcription.done","text":"...","usage":{...}}
//!   {"type":"error",...}
//!
//! The functions here compute what goes over the wire and what came over it;
//! the connection itself is the caller's.

use vstd::prelude::*;

use crate::audio;
use crate::audio::AudioChunker;
use crate::audio::BYTES_PER_SAMPLE;
use crate::codec;
use crate::codec::encode_base64;
use crate::json;
use crate::json::parse_json;
use crate::json::same_text;
use crate::json::write_object;
use crate::json::Json;
use crate::json::JsonModel;

verus! {

// ---------------------------------------------------------------------------
// Server -> Client
// ---------------------------------------------------------------------------

/// Events received from the server.
#[derive(Debug, Clone, PartialEq)]
pub enum ServerEvent {
    /// The session is ready.
    Created { id: String },
    Delta { text: String },
    Done { text: String, usage: Option<Json> },
    Error { message: String, code: Option<String> },
}

/// What a [`ServerEvent`] says.
pub enum ServerEventModel {
    Created { id: Seq<char> },
    Delta { text: Seq<char> },
    Done { text: Seq<char>, usage: Option<JsonModel> },
    Error { message: Seq<char>, code: Option<Seq<char>> },
}

/// Server error payload accepts two shapes: plain string or object.
#[derive(Debug, Clone, PartialEq)]
pub enum WireError {
    Text(String),
    Object { message: Option<String>, code: Option<String> },
}

/// What a [`WireError`] says.
pub enum WireErrorModel {
    Text(Seq<char>),
    Object { message: Option<Seq<char>>, code: Option<Seq<char>> },
}

/// A server message as it stands on the wire.
#[derive(Debug, Clone, PartialEq)]
pub enum WireEvent {
    Created { id: String },
    Delta { text: String },
    Done { text: String, usage: Option<Json> },
    Error { error: Option<WireError>, message: Option<String>, code: Option<String> },
    Unknown,
}

/// What a [`WireEvent`] says.
pub enum WireEventModel {
    Created { id: Seq<char> },
    Delta { text: Seq<char> },
    Done { text: Seq<char>, usage: Option<JsonModel> },
    Error {
        error: Option<WireErrorModel>,
        message: Option<Seq<char>>,
        code: Option<Seq<char>>,
    },
    Unknown,
}

/// The characters of an optional text.
pub open spec fn text_model(text: Option<String>) -> Option<Seq<char>> {
    match text {
        Some(t) => Some(t@),
        None => None,
    }
}

/// What an optional JSON value stands for.
pub open spec fn json_model(value: Option<Json>) -> Option<JsonModel> {
    match value {
        Some(v) => Some(v.model()),
        None => None,
    }
}

impl ServerEvent {
    pub open spec fn model(self) -> ServerEventModel {
        match self {
            ServerEvent::Created { id } => ServerEventModel::Created { id: id@ },
            ServerEvent::Delta { text } => ServerEventModel::Delta { text: text@ },
            ServerEvent::Done { text, usage } => ServerEventModel::Done {
                text: text@,
                usage: json_model(usage),
            },
            ServerEvent::Error { message, code } => ServerEventModel::Error {
                message: message@,
                code: text_model(code),
            },
        }
    }
}

impl WireError {
    pub open spec fn model(self) -> WireErrorModel {
        match self {
            WireError::Text(t) => WireErrorModel::Text(t@),
            WireError::Object { message, code } => WireErrorModel::Object {
                message: text_model(message),
                code: text_model(code),
            },
        }
    }
}

pub open spec fn wire_error_model(error: Option<WireError>) -> Option<WireErrorModel> {
    match error {
        Some(e) => Some(e.model()),
        None => None,
    }
}

impl WireEvent {
    pub open spec fn model(self) -> WireEventModel {
        match self {
            WireEvent::Created { id } => WireEventModel::Created { id: id@ },
            WireEvent::Delta { text } => WireEventModel::Delta { text: text@ },
            WireEvent::Done { text, usage } => WireEventModel::Done {
                text: text@,
                usage: json_model(usage),
            },
            WireEvent::Error { error, message, code } => WireEventModel::Error {
                error: wire_error_model(error),
                message: text_model(message),
                code: text_model(code),
            },
            WireEvent::Unknown => WireEventModel::Unknown,
        }
    }
}

pub open spec fn wire_event_model(ev: Option<WireEvent>) -> Option<WireEventModel> {
    match ev {
        Some(e) => Some(e.model()),
        None => None,
    }
}

pub open spec fn server_event_model(ev: Option<ServerEvent>) -> Option<ServerEventModel> {
    match ev {
        Some(e) => Some(e.model()),
        None => None,
    }
}

/// An optional text, with the empty text for none.
pub open spec fn text_or_empty(text: Option<Seq<char>>) -> Seq<char> {
    match text {
        Some(t) => t,
        None => Seq::empty(),
    }
}

/// The event that a wire message announces. An `error` payload takes
/// precedence over a message and a code beside it; unknown messages announce
/// nothing.
pub open spec fn announced(ev: WireEventModel) -> Option<ServerEventModel> {
    match ev {
        WireEventModel::Created { id } => Some(ServerEventModel::Created { id }),
        WireEventModel::Delta { text } => Some(ServerEventModel::Delta { text }),
        WireEventModel::Done { text, usage } => Some(ServerEventModel::Done { text, usage }),
        WireEventModel::Error { error, message, code } => Some(
            match error {
                Some(WireErrorModel::Text(text)) => ServerEventModel::Error {
                    message: text,
                    code: None,
                },
                Some(WireErrorModel::Object { message, code }) => ServerEventModel::Error {
                    message: text_or_empty(message),
                    code,
                },
                None => ServerEventModel::Error { message: text_or_empty(message), code },
            },
        ),
        WireEventModel::Unknown => None,
    }
}

/// The text, or the empty text for none.
fn unwrap_text(text: Option<String>) -> (r: String)
    ensures
        r@ == text_or_empty(text_model(text)),
{
    match text {
        Some(t) => t,
        None => String::new(),
    }
}

/// The event that a wire message announces, if any.
pub fn wire_to_event(ev: WireEvent) -> (r: Option<ServerEvent>)
    ensures
        server_event_model(r) == announced(ev.model()),
{
    match ev {
        WireEvent::Unknown => None,
        WireEvent::Created { id } => Some(ServerEvent::Created { id }),
        WireEvent::Delta { text } => Some(ServerEvent::Delta { text }),
        WireEvent::Done { text, usage } => Some(ServerEvent::Done { text, usage }),
        WireEvent::Error { error, message, code } => {
            match error {
                Some(WireError::Text(text)) => Some(
                    ServerEvent::Error { message: text, code: None },
                ),
                Some(WireError::Object { message: inner, code: inner_code }) => Some(
                    ServerEvent::Error { message: unwrap_text(inner), code: inner_code },
                ),
                None => Some(ServerEvent::Error { message: unwrap_text(message), code }),
            }
        },
    }
}

// ---------------------------------------------------------------------------
// Wire format of server messages
// ---------------------------------------------------------------------------
//
// A message is an object whose member "type" names its kind, or an array
// whose first element does and whose further elements are the fields in
// order. A field that is not there takes its default; in an object, members
// that the kind does not know are skipped.

/// The kind that a message names.
pub open spec fn wire_kind(msg: JsonModel) -> Option<Seq<char>> {
    let tag = match msg {
        JsonModel::Array(items) => if items.len() > 0 {
            Some(items[0])
        } else {
            None
        },
        _ => json::member_of(msg, "type"@),
    };
    match tag {
        Some(JsonModel::Text(kind)) => Some(kind),
        _ => None,
    }
}

/// The field `name` of a message, which is the field number `index` of its kind.
pub open spec fn wire_field(msg: JsonModel, name: Seq<char>, index: nat) -> Option<JsonModel> {
    match msg {
        JsonModel::Array(items) => if index + 1 < items.len() {
            Some(items[index as int + 1])
        } else {
            None
        },
        _ => json::member_of(msg, name),
    }
}

/// Whether a message has no more than `count` fields in order.
pub open spec fn wire_fits(msg: JsonModel, count: nat) -> bool {
    match msg {
        JsonModel::Array(items) => items.len() <= count + 1,
        _ => true,
    }
}

/// A text field that is empty by default, or `None` where it is not a text.
pub open spec fn plain_text(field: Option<JsonModel>) -> Option<Seq<char>> {
    match field {
        None => Some(Seq::empty()),
        Some(JsonModel::Text(t)) => Some(t),
        Some(_) => None,
    }
}

/// A text field that may be left out or null, or `None` where it is anything else.
pub open spec fn optional_text(field: Option<JsonModel>) -> Option<Option<Seq<char>>> {
    match field {
        None => Some(None),
        Some(JsonModel::Null) => Some(None),
        Some(JsonModel::Text(t)) => Some(Some(t)),
        Some(_) => None,
    }
}

/// A field of any value that may be left out or null.
pub open spec fn optional_value(field: Option<JsonModel>) -> Option<JsonModel> {
    match field {
        None => None,
        Some(JsonModel::Null) => None,
        Some(v) => Some(v),
    }
}

/// An error payload that may be left out or null: a text, or an object with
/// an optional message and code. `None` where it is anything else.
pub open spec fn optional_error(field: Option<JsonModel>) -> Option<Option<WireErrorModel>> {
    match field {
        None => Some(None),
        Some(JsonModel::Null) => Some(None),
        Some(JsonModel::Text(t)) => Some(Some(WireErrorModel::Text(t))),
        Some(JsonModel::Object(members)) => {
            let payload = JsonModel::Object(members);
            match (
                optional_text(json::member_of(payload, "message"@)),
                optional_text(json::member_of(payload, "code"@)),
            ) {
                (Some(message), Some(code)) => Some(
                    Some(WireErrorModel::Object { message, code }),
                ),
                _ => None,
            }
        },
        Some(_) => None,
    }
}

/// The message that a JSON value denotes on the wire, or `None` where it is
/// not a well-formed message.
pub open spec fn decoded(msg: JsonModel) -> Option<WireEventModel> {
    match wire_kind(msg) {
        None => None,
        Some(kind) => if kind == "session.created"@ || kind == "session.updated"@ {
            match plain_text(wire_field(msg, "id"@, 0)) {
                Some(id) if wire_fits(msg, 1) => Some(WireEventModel::Created { id }),
                _ => None,
            }
        } else if kind == "transcription.delta"@ {
            match plain_text(wire_field(msg, "delta"@, 0)) {
                Some(text) if wire_fits(msg, 1) => Some(WireEventModel::Delta { text }),
                _ => None,
            }
        } else if kind == "transcription.done"@ {
            match plain_text(wire_field(msg, "text"@, 0)) {
                Some(text) if wire_fits(msg, 2) => Some(
                    WireEventModel::Done {
                        text,
                        usage: optional_value(wire_field(msg, "usage"@, 1)),
                    },
                ),
                _ => None,
            }
        } else if kind == "error"@ {
            match (
                optional_error(wire_field(msg, "error"@, 0)),
                optional_text(wire_field(msg, "message"@, 1)),
                optional_text(wire_field(msg, "code"@, 2)),
            ) {
                (Some(error), Some(message), Some(code)) if wire_fits(msg, 3) => Some(
                    WireEventModel::Error { error, message, code },
                ),
                _ => None,
            }
        } else if wire_fits(msg, 0) {
            Some(WireEventModel::Unknown)
        } else {
            None
        },
    }
}

/// The event that a JSON value announces, if any.
pub open spec fn event_of(msg: JsonModel) -> Option<ServerEventModel> {
    match decoded(msg) {
        Some(ev) => announced(ev),
        None => None,
    }
}

/// The event that a text frame announces, given what the text parses to.
pub open spec fn event_of_parse(parsed: Option<JsonModel>) -> Option<ServerEventModel> {
    match parsed {
        Some(msg) => event_of(msg),
        None => None,
    }
}

/// `session.created` and `session.updated` alike say that the session is ready.
pub proof fn law_both_session_messages_signal_readiness(msg: JsonModel, id: Seq<char>)
    requires
        wire_kind(msg) == Some("session.created"@) || wire_kind(msg) == Some("session.updated"@),
        plain_text(wire_field(msg, "id"@, 0)) == Some(id),
        wire_fits(msg, 1),
    ensures
        event_of(msg) == Some(ServerEventModel::Created { id }),
{
}

/// A message of a kind that is not part of the protocol announces nothing.
pub proof fn law_unknown_kinds_are_skipped(msg: JsonModel, kind: Seq<char>)
    requires
        wire_kind(msg) == Some(kind),
        kind != "session.created"@,
        kind != "session.updated"@,
        kind != "transcription.delta"@,
        kind != "transcription.done"@,
        kind != "error"@,
    ensures
        event_of(msg) is None,
{
}

/// Beside an error payload, a message and a code of the event itself do not count.
pub proof fn law_error_payload_takes_precedence(
    payload: WireErrorModel,
    message: Option<Seq<char>>,
    code: Option<Seq<char>>,
)
    ensures
        announced(WireEventModel::Error { error: Some(payload), message, code }) == announced(
            WireEventModel::Error { error: Some(payload), message: None, code: None },
        ),
{
}

proof fn lemma_models_index(items: Seq<Json>)
    ensures
        Json::models(items).len() == items.len(),
        forall|i: int| 0 <= i < items.len() ==> #[trigger] Json::models(items)[i] == items[i].model(),
    decreases items.len(),
{
    if items.len() > 0 {
        lemma_models_index(items.drop_last());
        assert forall|i: int| 0 <= i < items.len() implies #[trigger] Json::models(items)[i]
            == items[i].model() by {
            if i < items.len() - 1 {
                assert(items.drop_last()[i] == items[i]);
            }
        }
    }
}

/// The kind that a message names.
fn kind_of(msg: &Json) -> (r: Option<&String>)
    ensures
        match r {
            Some(kind) => wire_kind(msg.model()) == Some(kind@),
            None => wire_kind(msg.model()) is None,
        },
{
    match msg {
        Json::Array(items) => {
            proof {
                lemma_models_index(items@);
            }
            if items.len() > 0 {
                items[0].as_text()
            } else {
                None
            }
        },
        _ => match msg.member("type") {
            Some(tag) => tag.as_text(),
            None => None,
        },
    }
}

/// The field `name` of a message, which is the field number `index` of its kind.
fn field_of<'a>(msg: &'a Json, name: &str, index: usize) -> (r: Option<&'a Json>)
    requires
        index < 3,
    ensures
        json::model_of(r) == wire_field(msg.model(), name@, index as nat),
{
    match msg {
        Json::Array(items) => {
            proof {
                lemma_models_index(items@);
            }
            if index + 1 < items.len() {
                Some(&items[index + 1])
            } else {
                None
            }
        },
        _ => msg.member(name),
    }
}

/// Whether a message has no more than `count` fields in order.
fn fits(msg: &Json, count: usize) -> (r: bool)
    requires
        count <= 3,
    ensures
        r == wire_fits(msg.model(), count as nat),
{
    match msg {
        Json::Array(items) => {
            proof {
                lemma_models_index(items@);
            }
            items.len() <= count + 1
        },
        _ => true,
    }
}

/// A text field that is empty by default.
fn read_text(field: Option<&Json>) -> (r: Option<String>)
    ensures
        text_model(r) == plain_text(json::model_of(field)),
{
    match field {
        None => Some(String::new()),
        Some(v) => match v.as_text() {
            Some(t) => Some(t.clone()),
            None => None,
        },
    }
}

/// A text field that may be left out or null.
fn read_optional_text(field: Option<&Json>) -> (r: Option<Option<String>>)
    ensures
        match r {
            Some(t) => optional_text(json::model_of(field)) == Some(text_model(t)),
            None => optional_text(json::model_of(field)) is None,
        },
{
    match field {
        None => Some(None),
        Some(Json::Null) => Some(None),
        Some(v) => match v.as_text() {
            Some(t) => Some(Some(t.clone())),
            None => None,
        },
    }
}

/// A field of any value that may be left out or null.
fn read_optional_value(field: Option<&Json>) -> (r: Option<Json>)
    ensures
        json_model(r) == optional_value(json::model_of(field)),
{
    match field {
        None => None,
        Some(Json::Null) => None,
        Some(v) => Some(v.clone()),
    }
}

/// An error payload that may be left out or null.
fn read_optional_error(field: Option<&Json>) -> (r: Option<Option<WireError>>)
    ensures
        match r {
            Some(e) => optional_error(json::model_of(field)) == Some(wire_error_model(e)),
            None => optional_error(json::model_of(field)) is None,
        },
{
    match field {
        None => Some(None),
        Some(Json::Null) => Some(None),
        Some(Json::Text(t)) => Some(Some(WireError::Text(t.clone()))),
        Some(Json::Object(fields)) => {
            let payload = field.unwrap();
            let message = read_optional_text(payload.member("message"));
            let code = read_optional_text(payload.member("code"));
            match (message, code) {
                (Some(message), Some(code)) => Some(Some(WireError::Object { message, code })),
                _ => None,
            }
        },
        Some(_) => None,
    }
}

/// Reads a JSON value as a server message.
pub fn decode_wire_event(msg: &Json) -> (r: Option<WireEvent>)
    ensures
        wire_event_model(r) == decoded(msg.model()),
{
    let kind = match kind_of(msg) {
        Some(kind) => kind.as_str(),
        None => return None,
    };
    if same_text(kind, "session.created") || same_text(kind, "session.updated") {
        let id = read_text(field_of(msg, "id", 0));
        match id {
            Some(id) if fits(msg, 1) => Some(WireEvent::Created { id }),
            _ => None,
        }
    } else if same_text(kind, "transcription.delta") {
        let text = read_text(field_of(msg, "delta", 0));
        match text {
            Some(text) if fits(msg, 1) => Some(WireEvent::Delta { text }),
            _ => None,
        }
    } else if same_text(kind, "transcription.done") {
        let text = read_text(field_of(msg, "text", 0));
        let usage = read_optional_value(field_of(msg, "usage", 1));
        match text {
            Some(text) if fits(msg, 2) => Some(WireEvent::Done { text, usage }),
            _ => None,
        }
    } else if same_text(kind, "error") {
        let error = read_optional_error(field_of(msg, "error", 0));
        let message = read_optional_text(field_of(msg, "message", 1));
        let code = read_optional_text(field_of(msg, "code", 2));
        match (error, message, code) {
            (Some(error), Some(message), Some(code)) if fits(msg, 3) => Some(
                WireEvent::Error { error, message, code },
            ),
            _ => None,
        }
    } else if fits(msg, 0) {
        Some(WireEvent::Unknown)
    } else {
        None
    }
}

/// The event that a JSON value announces, if any.
pub fn event_of_json(msg: &Json) -> (r: Option<ServerEvent>)
    ensures
        server_event_model(r) == event_of(msg.model()),
{
    match decode_wire_event(msg) {
        Some(ev) => wire_to_event(ev),
        None => None,
    }
}

/// The event that a text frame announces, if any.
pub fn parse_wire_event(txt: &str) -> (r: Option<ServerEvent>)
    ensures
        server_event_model(r) == event_of_parse(json::json_parsed(txt@)),
{
    match parse_json(txt) {
        Some(msg) => event_of_json(&msg),
        None => None,
    }
}

// ---------------------------------------------------------------------------
// Reading frames
// ---------------------------------------------------------------------------

/// What the read side of the connection yields.
#[derive(Debug)]
pub enum Incoming {
    /// A text frame.
    Text(String),
    /// A binary frame.
    Binary,
    /// A close frame.
    Close,
    /// Any other frame, such as a ping.
    Control,
    /// The connection failed; the error is described.
    Failed(String),
    /// Nothing more will come.
    Ended,
}

/// What reading a frame came to.
#[derive(Debug)]
pub enum Reading {
    Event(ServerEvent),
    /// Nothing of interest: read the next frame.
    Skipped,
    /// There will be no further events, for the described reason.
    Failed(String),
}

/// What a [`Reading`] says.
pub enum ReadingModel {
    Event(ServerEventModel),
    Skipped,
    Failed(Seq<char>),
}

impl Reading {
    pub open spec fn model(self) -> ReadingModel {
        match self {
            Reading::Event(ev) => ReadingModel::Event(ev.model()),
            Reading::Skipped => ReadingModel::Skipped,
            Reading::Failed(message) => ReadingModel::Failed(message@),
        }
    }
}

/// What a frame comes to: a text frame that announces an event is that event,
/// every other data or control frame is skipped, and a close frame, a failure
/// or the end of the stream ends reading.
pub open spec fn reading_of(incoming: Incoming) -> ReadingModel {
    match incoming {
        Incoming::Text(txt) => match event_of_parse(json::json_parsed(txt@)) {
            Some(ev) => ReadingModel::Event(ev),
            None => ReadingModel::Skipped,
        },
        Incoming::Binary => ReadingModel::Skipped,
        Incoming::Control => ReadingModel::Skipped,
        Incoming::Close => ReadingModel::Failed("websocket closed by server"@),
        Incoming::Failed(message) => ReadingModel::Failed(message@),
        Incoming::Ended => ReadingModel::Failed("websocket closed"@),
    }
}

/// What the reader passes on, and whether it stops after that.
#[derive(Debug)]
pub struct Relayed {
    pub event: Option<ServerEvent>,
    pub stop: bool,
}

/// The event that a reading is passed on as. A failure becomes an error event
/// with the code `connection_closed`.
pub open spec fn relayed_event(reading: ReadingModel) -> Option<ServerEventModel> {
    match reading {
        ReadingModel::Event(ev) => Some(ev),
        ReadingModel::Skipped => None,
        ReadingModel::Failed(message) => Some(
            ServerEventModel::Error { message, code: Some("connection_closed"@) },
        ),
    }
}

/// Whether the reader stops after a reading: when it passes an error on.
pub open spec fn stops_after(reading: ReadingModel) -> bool {
    relayed_event(reading) matches Some(ev) && ev is Error
}

/// Receiver half (read side).
pub struct RealtimeReceiver {}

impl RealtimeReceiver {
    /// Reads one frame; unknown messages are skipped.
    pub fn read_event(&self, incoming: Incoming) -> (r: Reading)
        ensures
            r.model() == reading_of(incoming),
    {
        match incoming {
            Incoming::Text(txt) => match parse_wire_event(txt.as_str()) {
                Some(ev) => Reading::Event(ev),
                None => Reading::Skipped,
            },
            Incoming::Binary => Reading::Skipped,
            Incoming::Control => Reading::Skipped,
            Incoming::Close => Reading::Failed("websocket closed by server".to_string()),
            Incoming::Failed(message) => Reading::Failed(message),
            Incoming::Ended => Reading::Failed("websocket closed".to_string()),
        }
    }

    /// What is passed on of a reading. The reader stops at the first error.
    pub fn relay(&self, reading: Reading) -> (r: Relayed)
        ensures
            server_event_model(r.event) == relayed_event(reading.model()),
            r.stop <==> stops_after(reading.model()),
    {
        match reading {
            Reading::Event(ev) => {
                let stop = match &ev {
                    ServerEvent::Error { .. } => true,
                    _ => false,
                };
                Relayed { event: Some(ev), stop }
            },
            Reading::Skipped => Relayed { event: None, stop: false },
            Reading::Failed(message) => {
                let code = Some("connection_closed".to_string());
                Relayed { event: Some(ServerEvent::Error { message, code }), stop: true }
            },
        }
    }
}

// ---------------------------------------------------------------------------
// Client -> Server
// ---------------------------------------------------------------------------

/// Client -> Server messages.
#[derive(Debug)]
pub enum ClientMessage<'a> {
    SessionUpdate { model: &'a str },
    AppendAudio { audio: &'a str },
    Commit { is_final: bool },
}

/// What a [`ClientMessage`] says.
pub enum ClientMessageModel {
    SessionUpdate { model: Seq<char> },
    AppendAudio { audio: Seq<char> },
    Commit { is_final: bool },
}

impl ClientMessageModel {
    /// The members of the message that are strings, in order.
    pub open spec fn texts(self) -> Seq<(Seq<char>, Seq<char>)> {
        match self {
            ClientMessageModel::SessionUpdate { model } => seq![
                ("type"@, "session.update"@),
                ("model"@, model),
            ],
            ClientMessageModel::AppendAudio { audio } => seq![
                ("type"@, "input_audio_buffer.append"@),
                ("audio"@, audio),
            ],
            ClientMessageModel::Commit { .. } => seq![("type"@, "input_audio_buffer.commit"@)],
        }
    }

    /// The members of the message that are booleans, after the strings.
    pub open spec fn flags(self) -> Seq<(Seq<char>, bool)> {
        match self {
            ClientMessageModel::Commit { is_final } => seq![("final"@, is_final)],
            _ => Seq::empty(),
        }
    }

    /// The message on the wire.
    pub open spec fn frame(self) -> Seq<char> {
        json::object_text(self.texts(), self.flags())
    }

    /// The JSON value that the message is.
    pub open spec fn object(self) -> JsonModel {
        JsonModel::Object(json::object_members(self.texts(), self.flags()))
    }
}

impl<'a> ClientMessage<'a> {
    pub open spec fn model(self) -> ClientMessageModel {
        match self {
            ClientMessage::SessionUpdate { model } => ClientMessageModel::SessionUpdate {
                model: model@,
            },
            ClientMessage::AppendAudio { audio } => ClientMessageModel::AppendAudio {
                audio: audio@,
            },
            ClientMessage::Commit { is_final } => ClientMessageModel::Commit { is_final },
        }
    }

    /// The text frame that carries the message.
    pub fn to_frame(&self) -> (r: String)
        ensures
            r@ == self.model().frame(),
            json::json_parsed(r@) == Some(self.model().object()),
    {
        let mut texts: Vec<(String, String)> = Vec::new();
        let mut flags: Vec<(String, bool)> = Vec::new();
        match self {
            ClientMessage::SessionUpdate { model } => {
                texts.push(("type".to_string(), "session.update".to_string()));
                texts.push(("model".to_string(), (*model).to_string()));
            },
            ClientMessage::AppendAudio { audio } => {
                texts.push(("type".to_string(), "input_audio_buffer.append".to_string()));
                texts.push(("audio".to_string(), (*audio).to_string()));
            },
            ClientMessage::Commit { is_final } => {
                texts.push(("type".to_string(), "input_audio_buffer.commit".to_string()));
                flags.push(("final".to_string(), *is_final));
            },
        }
        assert(json::text_members(texts@) =~= self.model().texts());
        assert(json::flag_members(flags@) =~= self.model().flags());
        write_object(texts, flags)
    }
}

/// The texts of a list of frames.
pub open spec fn frame_texts(frames: Seq<String>) -> Seq<Seq<char>> {
    frames.map_values(|f: String| f@)
}

/// The frame that carries a piece of audio.
pub open spec fn audio_frame(audio: Seq<u8>) -> Seq<char> {
    ClientMessageModel::AppendAudio { audio: codec::base64_encoded(audio) }.frame()
}

/// The audio that the reader of a frame finds in it: the base64 text under
/// `audio`, decoded. A frame without such a text carries none.
pub open spec fn carried_audio(frame: Seq<char>) -> Seq<u8> {
    match json::json_parsed(frame) {
        Some(msg) => match json::member_of(msg, "audio"@) {
            Some(JsonModel::Text(text)) => match codec::base64_decoded(text) {
                Some(audio) => audio,
                None => Seq::empty(),
            },
            _ => Seq::empty(),
        },
        None => Seq::empty(),
    }
}

/// The audio that a reader finds in a list of frames, one after the other.
pub open spec fn carried_by(frames: Seq<Seq<char>>) -> Seq<u8> {
    frames.map_values(|frame: Seq<char>| carried_audio(frame)).flatten()
}

/// Sender half (write side): makes the frames to send.
pub struct RealtimeSender {
    chunker: AudioChunker,
}

impl RealtimeSender {
    /// Bytes of audio per frame.
    pub closed spec fn chunk_size(&self) -> nat {
        self.chunker.chunk_size()
    }

    /// A sender of audio in frames of `chunk_ms` milliseconds.
    pub fn new(sample_rate: u32, chunk_ms: u64) -> (r: Self)
        requires
            sample_rate * chunk_ms <= u64::MAX,
            BYTES_PER_SAMPLE * audio::samples_per_chunk(sample_rate, chunk_ms) <= usize::MAX,
        ensures
            r.chunk_size() == BYTES_PER_SAMPLE * audio::samples_per_chunk(sample_rate, chunk_ms),
    {
        RealtimeSender { chunker: AudioChunker::new(sample_rate, chunk_ms) }
    }

    /// Validate the model.
    pub fn update_model(&self, model: &str) -> (r: String)
        ensures
            r@ == (ClientMessageModel::SessionUpdate { model: model@ }).frame(),
            json::json_parsed(r@) == Some(
                (ClientMessageModel::SessionUpdate { model: model@ }).object(),
            ),
            carried_audio(r@) == Seq::<u8>::empty(),
    {
        let msg = ClientMessage::SessionUpdate { model };
        proof {
            lemma_carries_no_audio(msg.model());
        }
        msg.to_frame()
    }

    /// Start generation with a non-final commit (required).
    pub fn start_generation(&self) -> (r: String)
        ensures
            r@ == (ClientMessageModel::Commit { is_final: false }).frame(),
            json::json_parsed(r@) == Some(
                (ClientMessageModel::Commit { is_final: false }).object(),
            ),
            carried_audio(r@) == Seq::<u8>::empty(),
    {
        let msg = ClientMessage::Commit { is_final: false };
        proof {
            lemma_carries_no_audio(msg.model());
        }
        msg.to_frame()
    }

    /// Append raw PCM16 mono bytes (chunked internally).
    ///
    /// There is one frame per chunk, and a reader that decodes the frames one
    /// after the other has the bytes again.
    pub fn append_bytes(&self, pcm: &[u8]) -> (r: Vec<String>)
        requires
            codec::base64_len(self.chunk_size()) <= isize::MAX || codec::base64_len(pcm@.len())
                <= isize::MAX,
        ensures
            frame_texts(r@) == audio::chunks_of(pcm@, self.chunk_size()).map_values(
                |chunk: Seq<u8>| audio_frame(chunk),
            ),
            carried_by(frame_texts(r@)) == pcm@,
    {
        let chunks = self.chunker.chunks(pcm);
        let ghost pieces = audio::chunks_of(pcm@, self.chunk_size());
        let ghost views = audio::slice_views(chunks@);
        let mut frames: Vec<String> = Vec::new();
        let mut i: usize = 0;
        while i < chunks.len()
            invariant
                i <= chunks@.len(),
                views == audio::slice_views(chunks@),
                views == pieces,
                self.chunk_size() > 0,
                pieces == audio::chunks_of(pcm@, self.chunk_size()),
                codec::base64_len(self.chunk_size()) <= isize::MAX || codec::base64_len(
                    pcm@.len(),
                ) <= isize::MAX,
                frames@.len() == i,
                forall|k: int|
                    0 <= k < i ==> (#[trigger] frames@[k])@ == audio_frame(pieces[k])
                        && carried_audio(frames@[k]@) == pieces[k],
            decreases chunks@.len() - i,
        {
            let chunk = chunks[i];
            proof {
                assert(views[i as int] == chunk@);
                lemma_chunk_fits(pcm@, self.chunk_size(), i as int);
            }
            let b64 = encode_base64(chunk);
            let msg = ClientMessage::AppendAudio { audio: b64.as_str() };
            let frame = msg.to_frame();
            proof {
                lemma_carried_audio(msg.model(), b64@);
            }
            frames.push(frame);
            i = i + 1;
        }
        proof {
            let texts = frame_texts(frames@);
            assert(texts =~= pieces.map_values(|chunk: Seq<u8>| audio_frame(chunk)));
            assert(texts.map_values(|frame: Seq<char>| carried_audio(frame)) =~= pieces);
            audio::law_chunks_join_to_data(pcm@, self.chunk_size());
        }
        frames
    }

    /// Final commit: signals end of audio.
    pub fn finish(&self) -> (r: String)
        ensures
            r@ == (ClientMessageModel::Commit { is_final: true }).frame(),
            json::json_parsed(r@) == Some((ClientMessageModel::Commit { is_final: true }).object()),
            carried_audio(r@) == Seq::<u8>::empty(),
    {
        let msg = ClientMessage::Commit { is_final: true };
        proof {
            lemma_carries_no_audio(msg.model());
        }
        msg.to_frame()
    }
}

/// No chunk is longer than a chunk may be, nor than the whole.
proof fn lemma_chunk_fits(data: Seq<u8>, size: nat, k: int)
    requires
        size > 0,
        0 <= k < audio::chunks_of(data, size).len(),
    ensures
        audio::chunks_of(data, size)[k].len() <= size,
        audio::chunks_of(data, size)[k].len() <= data.len(),
        codec::base64_len(audio::chunks_of(data, size)[k].len()) <= codec::base64_len(size),
        codec::base64_len(audio::chunks_of(data, size)[k].len()) <= codec::base64_len(data.len()),
    decreases data.len(),
{
    if data.len() > size {
        if k > 0 {
            let rest = data.skip(size as int);
            assert(audio::chunks_of(data, size)[k] == audio::chunks_of(rest, size)[k - 1]);
            lemma_chunk_fits(rest, size, k - 1);
        }
    }
}

proof fn lemma_carried_audio(msg: ClientMessageModel, text: Seq<char>)
    requires
        msg == (ClientMessageModel::AppendAudio { audio: text }),
    ensures
        json::member_of(msg.object(), "audio"@) == Some(JsonModel::Text(text)),
{
    let texts = msg.texts();
    let flags = msg.flags();
    assert(texts.last() == ("audio"@, text));
    assert(json::object_members(texts, flags) == json::object_members(
        texts.drop_last(),
        flags,
    ).insert("audio"@, JsonModel::Text(text)));
}

/// Only the message that appends audio has a member for it.
proof fn lemma_carries_no_audio(msg: ClientMessageModel)
    requires
        !(msg is AppendAudio),
    ensures
        json::member_of(msg.object(), "audio"@) is None,
{
    reveal_with_fuel(json::object_members, 3);
    reveal_strlit("audio");
    reveal_strlit("type");
    reveal_strlit("model");
    reveal_strlit("final");
    assert("audio"@[0] != "type"@[0]);
    assert("audio"@[0] != "model"@[0]);
    assert("audio"@[0] != "final"@[0]);
}

/// The kind that a message names.
pub open spec fn client_kind(msg: ClientMessageModel) -> Seq<char> {
    msg.texts()[0].1
}

/// A character that JSON strings hold as it is.
spec fn plain_char(c: char) -> bool {
    c as u32 >= 0x20 && c != '"' && c != '\\'
}

proof fn lemma_escaped_plain(t: Seq<char>)
    requires
        forall|i: int| 0 <= i < t.len() ==> plain_char(#[trigger] t[i]),
    ensures
        json::escaped(t) == t,
    decreases t.len(),
{
    if t.len() == 0 {
        assert(t =~= Seq::empty());
    } else {
        let init = t.drop_last();
        assert forall|i: int| 0 <= i < init.len() implies plain_char(#[trigger] init[i]) by {
            assert(init[i] == t[i]);
        }
        lemma_escaped_plain(init);
        assert(plain_char(t[t.len() - 1]));
        assert(t =~= init + seq![t.last()]);
    }
}

proof fn lemma_kinds_are_plain(msg: ClientMessageModel)
    ensures
        json::escaped("type"@) == "type"@,
        json::escaped(client_kind(msg)) == client_kind(msg),
{
    reveal_strlit("type");
    reveal_strlit("session.update");
    reveal_strlit("input_audio_buffer.append");
    reveal_strlit("input_audio_buffer.commit");
    lemma_escaped_plain("type"@);
    lemma_escaped_plain("session.update"@);
    lemma_escaped_plain("input_audio_buffer.append"@);
    lemma_escaped_plain("input_audio_buffer.commit"@);
}

/// The kind stands at the start of a frame.
proof fn lemma_frame_starts_with_kind(msg: ClientMessageModel)
    ensures
        forall|k: int|
            0 <= k < client_kind(msg).len() ==> msg.frame()[9 + k] == #[trigger] client_kind(msg)[k],
{
    let kind = client_kind(msg);
    lemma_kinds_are_plain(msg);
    reveal_strlit("type");
    reveal_with_fuel(json::comma_separated, 3);
    let items = json::member_texts(msg.texts(), msg.flags());
    let first = json::quoted("type"@) + seq![':'] + json::quoted(kind);
    assert(items[0] == first);
    let all = json::comma_separated(items);
    assert forall|k: int| 0 <= k < kind.len() implies msg.frame()[9 + k] == #[trigger] kind[k] by {
        if items.len() == 2 {
            assert(items.drop_last() =~= seq![first]);
        }
        assert(all[8 + k] == first[8 + k]);
        assert(msg.frame()[9 + k] == all[8 + k]);
    }
}

/// A frame that carries audio cannot be taken for any other frame.
pub proof fn law_audio_frames_are_distinct(msg: ClientMessageModel, audio: Seq<u8>)
    requires
        !(msg is AppendAudio),
    ensures
        msg.frame() != audio_frame(audio),
{
    let other = ClientMessageModel::AppendAudio { audio: codec::base64_encoded(audio) };
    lemma_frame_starts_with_kind(msg);
    lemma_frame_starts_with_kind(other);
    reveal_strlit("session.update");
    reveal_strlit("input_audio_buffer.append");
    reveal_strlit("input_audio_buffer.commit");
    assert(client_kind(other)[0] == 'i');
    assert(client_kind(other)[19] == 'a');
    if msg is SessionUpdate {
        assert(client_kind(msg)[0] == 's');
    } else {
        assert(client_kind(msg)[19] == 'c');
    }
}

} // verus!
