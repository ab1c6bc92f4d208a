//! The JSON-lines protocol with vinput.
//!
//! Requests (one per line):
//!   {"type":"audio","audio_base64":"...","commit":bool}
//!   {"type":"finish"}
//!   {"type":"cancel"}
//! Events (one per line):
//!   {"type":"session_started"}
//!   {"type":"partial","text":"<full cleaned text>"}
//!   {"type":"final","text":"<full cleaned text>"}
//!   {"type":"error","message":"..."}
//!   {"type":"closed"}

use vstd::prelude::*;

use crate::codec;
use crate::codec::decode_base64;
use crate::json;
use crate::json::parse_json;
use crate::json::same_text;
use crate::json::write_object;
use crate::json::Json;
use crate::json::JsonModel;
use crate::text;
use crate::text::trim;

verus! {

/// The line that stands for the end of the input.
pub const END_OF_INPUT: &'static str = "__STDIN_EOF__";

// ---------------------------------------------------------------------------
// Requests
// ---------------------------------------------------------------------------

/// A request as its JSON value states it.
#[derive(Debug, PartialEq)]
pub enum Command {
    /// Audio in base64, and whether it is the last.
    Audio { audio_base64: String, commit: bool },
    Finish,
    Cancel,
    /// Nothing that asks for anything.
    Ignored,
}

/// What a [`Command`] says.
pub enum CommandModel {
    Audio { audio_base64: Seq<char>, commit: bool },
    Finish,
    Cancel,
    Ignored,
}

impl Command {
    pub open spec fn model(self) -> CommandModel {
        match self {
            Command::Audio { audio_base64, commit } => CommandModel::Audio {
                audio_base64: audio_base64@,
                commit,
            },
            Command::Finish => CommandModel::Finish,
            Command::Cancel => CommandModel::Cancel,
            Command::Ignored => CommandModel::Ignored,
        }
    }
}

/// A request of vinput.
#[derive(Debug, PartialEq)]
pub enum Request {
    /// PCM bytes to append, possibly none, and whether to commit afterwards.
    Audio { pcm: Vec<u8>, commit: bool },
    Finish,
    Cancel,
    /// There will be no more requests.
    EndOfInput,
    /// A line that asks for nothing.
    Ignored,
}

/// What a [`Request`] says.
pub enum RequestModel {
    Audio { pcm: Seq<u8>, commit: bool },
    Finish,
    Cancel,
    EndOfInput,
    Ignored,
}

impl Request {
    pub open spec fn model(self) -> RequestModel {
        match self {
            Request::Audio { pcm, commit } => RequestModel::Audio { pcm: pcm@, commit },
            Request::Finish => RequestModel::Finish,
            Request::Cancel => RequestModel::Cancel,
            Request::EndOfInput => RequestModel::EndOfInput,
            Request::Ignored => RequestModel::Ignored,
        }
    }
}

/// The text of a member, or the empty text where it is not a text.
pub open spec fn member_text(value: JsonModel, key: Seq<char>) -> Seq<char> {
    match json::member_of(value, key) {
        Some(JsonModel::Text(t)) => t,
        _ => Seq::empty(),
    }
}

/// Whether a member is the boolean `true`.
pub open spec fn member_flag(value: JsonModel, key: Seq<char>) -> bool {
    json::member_of(value, key) == Some(JsonModel::Bool(true))
}

/// What a JSON value asks for. Members that are missing or of another type
/// count as empty or false.
pub open spec fn command_of(value: JsonModel) -> CommandModel {
    let kind = member_text(value, "type"@);
    if kind == "audio"@ {
        CommandModel::Audio {
            audio_base64: member_text(value, "audio_base64"@),
            commit: member_flag(value, "commit"@),
        }
    } else if kind == "finish"@ {
        CommandModel::Finish
    } else if kind == "cancel"@ {
        CommandModel::Cancel
    } else {
        CommandModel::Ignored
    }
}

/// An audio request, given what its base64 text decodes to. Malformed audio counts as none.
pub open spec fn audio_request_of(decoded: Option<Seq<u8>>, commit: bool) -> RequestModel {
    match decoded {
        Some(pcm) => RequestModel::Audio { pcm, commit },
        None => RequestModel::Audio { pcm: Seq::empty(), commit },
    }
}

/// The request that a line makes: white space around it does not matter, and
/// a line that is not JSON asks for nothing.
pub open spec fn request_of(line: Seq<char>) -> RequestModel {
    let t = text::trimmed(line);
    if t.len() == 0 {
        RequestModel::Ignored
    } else if t == END_OF_INPUT@ {
        RequestModel::EndOfInput
    } else {
        match json::json_parsed(t) {
            None => RequestModel::Ignored,
            Some(value) => match command_of(value) {
                CommandModel::Audio { audio_base64, commit } => audio_request_of(
                    codec::base64_decoded(audio_base64),
                    commit,
                ),
                CommandModel::Finish => RequestModel::Finish,
                CommandModel::Cancel => RequestModel::Cancel,
                CommandModel::Ignored => RequestModel::Ignored,
            },
        }
    }
}

fn text_member(value: &Json, key: &str) -> (r: String)
    ensures
        r@ == member_text(value.model(), key@),
{
    match value.member(key) {
        Some(member) => match member.as_text() {
            Some(t) => t.clone(),
            None => String::new(),
        },
        None => String::new(),
    }
}

fn flag_member(value: &Json, key: &str) -> (r: bool)
    ensures
        r == member_flag(value.model(), key@),
{
    match value.member(key) {
        Some(member) => match member.as_bool() {
            Some(b) => b,
            None => false,
        },
        None => false,
    }
}

/// What a JSON value asks for.
pub fn command_of_json(value: &Json) -> (r: Command)
    ensures
        r.model() == command_of(value.model()),
{
    let kind = text_member(value, "type");
    if same_text(kind.as_str(), "audio") {
        Command::Audio {
            audio_base64: text_member(value, "audio_base64"),
            commit: flag_member(value, "commit"),
        }
    } else if same_text(kind.as_str(), "finish") {
        Command::Finish
    } else if same_text(kind.as_str(), "cancel") {
        Command::Cancel
    } else {
        Command::Ignored
    }
}

/// The bytes that an optional byte string holds.
pub open spec fn bytes_model(bytes: Option<Vec<u8>>) -> Option<Seq<u8>> {
    match bytes {
        Some(b) => Some(b@),
        None => None,
    }
}

/// An audio request, given what its base64 text decodes to.
pub fn audio_request(decoded: Option<Vec<u8>>, commit: bool) -> (r: Request)
    ensures
        r.model() == audio_request_of(bytes_model(decoded), commit),
{
    match decoded {
        Some(pcm) => Request::Audio { pcm, commit },
        None => {
            let pcm: Vec<u8> = Vec::new();
            assert(pcm@ =~= Seq::empty());
            Request::Audio { pcm, commit }
        },
    }
}

/// The request that a line makes.
pub fn parse_request(line: &str) -> (r: Request)
    ensures
        r.model() == request_of(line@),
{
    let trimmed = trim(line);
    if trimmed.as_str().is_empty() {
        return Request::Ignored;
    }
    if same_text(trimmed.as_str(), END_OF_INPUT) {
        return Request::EndOfInput;
    }
    match parse_json(trimmed.as_str()) {
        None => Request::Ignored,
        Some(value) => match command_of_json(&value) {
            Command::Audio { audio_base64, commit } => {
                let decoded = decode_base64(audio_base64.as_str());
                assert(bytes_model(decoded) == codec::base64_decoded(audio_base64@));
                audio_request(decoded, commit)
            },
            Command::Finish => Request::Finish,
            Command::Cancel => Request::Cancel,
            Command::Ignored => Request::Ignored,
        },
    }
}

// ---------------------------------------------------------------------------
// Events
// ---------------------------------------------------------------------------

/// An event for vinput.
#[derive(Debug, PartialEq)]
pub enum OutputEvent {
    SessionStarted,
    /// All text so far; replaces what was reported before.
    Partial { text: String },
    /// The whole text.
    Final { text: String },
    Error { message: String },
    Closed,
}

/// What an [`OutputEvent`] says.
pub enum OutputModel {
    SessionStarted,
    Partial { text: Seq<char> },
    Final { text: Seq<char> },
    Error { message: Seq<char> },
    Closed,
}

impl OutputModel {
    /// The members of the event, all strings, in order.
    pub open spec fn texts(self) -> Seq<(Seq<char>, Seq<char>)> {
        match self {
            OutputModel::SessionStarted => seq![("type"@, "session_started"@)],
            OutputModel::Partial { text } => seq![("type"@, "partial"@), ("text"@, text)],
            OutputModel::Final { text } => seq![("type"@, "final"@), ("text"@, text)],
            OutputModel::Error { message } => seq![("type"@, "error"@), ("message"@, message)],
            OutputModel::Closed => seq![("type"@, "closed"@)],
        }
    }

    /// The line that reports the event, without its line end.
    pub open spec fn line(self) -> Seq<char> {
        json::object_text(self.texts(), Seq::empty())
    }

    /// The JSON value that the event is.
    pub open spec fn object(self) -> JsonModel {
        JsonModel::Object(json::object_members(self.texts(), Seq::empty()))
    }
}

impl OutputEvent {
    pub open spec fn model(self) -> OutputModel {
        match self {
            OutputEvent::SessionStarted => OutputModel::SessionStarted,
            OutputEvent::Partial { text } => OutputModel::Partial { text: text@ },
            OutputEvent::Final { text } => OutputModel::Final { text: text@ },
            OutputEvent::Error { message } => OutputModel::Error { message: message@ },
            OutputEvent::Closed => OutputModel::Closed,
        }
    }

    /// The line that reports the event, without its line end. It holds no
    /// line feed, and a JSON reader finds the event in it.
    pub fn to_line(&self) -> (r: String)
        ensures
            r@ == self.model().line(),
            json::single_line(r@),
            json::json_parsed(r@) == Some(self.model().object()),
    {
        let mut texts: Vec<(String, String)> = Vec::new();
        match self {
            OutputEvent::SessionStarted => {
                texts.push(("type".to_string(), "session_started".to_string()));
            },
            OutputEvent::Partial { text } => {
                texts.push(("type".to_string(), "partial".to_string()));
                texts.push(("text".to_string(), text.clone()));
            },
            OutputEvent::Final { text } => {
                texts.push(("type".to_string(), "final".to_string()));
                texts.push(("text".to_string(), text.clone()));
            },
            OutputEvent::Error { message } => {
                texts.push(("type".to_string(), "error".to_string()));
                texts.push(("message".to_string(), message.clone()));
            },
            OutputEvent::Closed => {
                texts.push(("type".to_string(), "closed".to_string()));
            },
        }
        let flags: Vec<(String, bool)> = Vec::new();
        proof {
            assert(json::text_members(texts@) =~= self.model().texts());
            assert(json::flag_members(flags@) =~= Seq::empty());
            json::law_object_text_is_single_line(self.model().texts(), Seq::empty());
        }
        write_object(texts, flags)
    }
}

} // verus!
