//! What requests ask for, and what the messages to vinput and to the server
//! say, member by member.

use vstd::prelude::*;

use crate::asr::ClientMessage;
use crate::asr::ClientMessageModel;
use crate::codec;
use crate::json;
use crate::json::Json;
use crate::json::JsonModel;
use crate::protocol;
use crate::protocol::Command;
use crate::protocol::CommandModel;
use crate::protocol::OutputEvent;
use crate::protocol::OutputModel;
use crate::protocol::Request;
use crate::protocol::RequestModel;
use crate::text;

verus! {

// ---------------------------------------------------------------------------
// Requests
// ---------------------------------------------------------------------------

/// Whether a request is an object of the given kind.
pub open spec fn asks_for(members: Map<Seq<char>, JsonModel>, kind: Seq<char>) -> bool {
    members.contains_key("type"@) && members["type"@] == JsonModel::Text(kind)
}

proof fn lemma_kinds_differ()
    ensures
        "audio"@.len() == 5,
        "finish"@.len() == 6,
        "cancel"@.len() == 6,
        "finish"@[0] == 'f',
        "cancel"@[0] == 'c',
        "__STDIN_EOF__"@.len() == 13,
        "__STDIN_EOF__"@[0] == '_',
        "__STDIN_EOF__"@[12] == '_',
{
    reveal_strlit("audio");
    reveal_strlit("finish");
    reveal_strlit("cancel");
    reveal_strlit("__STDIN_EOF__");
}

/// An audio request asks for its audio with its own flag: the value of the
/// boolean `commit`, whichever it is, and false where there is no boolean.
pub proof fn law_commit_flag_is_taken_as_it_is(members: Map<Seq<char>, JsonModel>, flag: bool)
    requires
        asks_for(members, "audio"@),
    ensures
        protocol::command_of(JsonModel::Object(members)) is Audio,
        members.contains_key("commit"@) && members["commit"@] == JsonModel::Bool(flag)
            ==> protocol::command_of(JsonModel::Object(members))->commit == flag,
        !members.contains_key("commit"@) || !(members["commit"@] is Bool) ==> !protocol::command_of(
            JsonModel::Object(members),
        )->commit,
{
    lemma_kinds_differ();
}

/// An audio request asks for the audio whose base64 text stands under
/// `audio_base64`, character for character; there is none where that is no text.
pub proof fn law_audio_text_is_taken_as_it_is(members: Map<Seq<char>, JsonModel>)
    requires
        asks_for(members, "audio"@),
    ensures
        protocol::command_of(JsonModel::Object(members)) is Audio,
        members.contains_key("audio_base64"@) ==> (
        members["audio_base64"@] matches JsonModel::Text(t) ==> protocol::command_of(
            JsonModel::Object(members),
        )->audio_base64 == t),
        !members.contains_key("audio_base64"@) || !(members["audio_base64"@] is Text)
            ==> protocol::command_of(JsonModel::Object(members))->audio_base64.len() == 0,
{
    lemma_kinds_differ();
}

/// `finish` and `cancel` ask for that, whatever other members they have; any
/// other object, and any value that is no object, asks for nothing.
pub proof fn law_other_requests(members: Map<Seq<char>, JsonModel>, value: JsonModel)
    ensures
        asks_for(members, "finish"@) ==> protocol::command_of(JsonModel::Object(members))
            == CommandModel::Finish,
        asks_for(members, "cancel"@) ==> protocol::command_of(JsonModel::Object(members))
            == CommandModel::Cancel,
        !asks_for(members, "audio"@) && !asks_for(members, "finish"@) && !asks_for(
            members,
            "cancel"@,
        ) ==> protocol::command_of(JsonModel::Object(members)) == CommandModel::Ignored,
        !(value is Object) ==> protocol::command_of(value) == CommandModel::Ignored,
{
    lemma_kinds_differ();
    if !(value is Object) {
        assert(protocol::member_text(value, "type"@).len() == 0);
    }
}

/// A line of JSON asks for what its value asks for. The bytes are those that
/// the base64 text decodes to, or none where it is malformed; the flag stays.
pub proof fn law_lines_are_requests(line: Seq<char>, value: JsonModel)
    requires
        text::trimmed(line).len() > 0,
        text::trimmed(line) != "__STDIN_EOF__"@,
    ensures
        json::json_parsed(text::trimmed(line)) == Some(value) ==> (match protocol::command_of(
            value,
        ) {
            CommandModel::Audio { audio_base64, commit } => {
                &&& protocol::request_of(line) is Audio
                &&& protocol::request_of(line)->commit == commit
                &&& codec::base64_decoded(audio_base64) matches Some(bytes)
                    ==> protocol::request_of(line)->pcm == bytes
                &&& codec::base64_decoded(audio_base64) is None ==> protocol::request_of(
                    line,
                )->pcm.len() == 0
            },
            CommandModel::Finish => protocol::request_of(line) == RequestModel::Finish,
            CommandModel::Cancel => protocol::request_of(line) == RequestModel::Cancel,
            CommandModel::Ignored => protocol::request_of(line) == RequestModel::Ignored,
        }),
        json::json_parsed(text::trimmed(line)) is None ==> protocol::request_of(line)
            == RequestModel::Ignored,
{
}

/// Audio is taken with the bytes that its text decodes to, none where it is
/// malformed, and with its flag either way.
pub proof fn law_audio_is_decoded(bytes: Seq<u8>, flag: bool)
    ensures
        protocol::audio_request_of(Some(bytes), flag) == (RequestModel::Audio {
            pcm: bytes,
            commit: flag,
        }),
        protocol::audio_request_of(None, flag) == (RequestModel::Audio {
            pcm: Seq::empty(),
            commit: flag,
        }),
{
}

/// A line of audio with a commit flag: the flag of the request is that of the line.
pub proof fn law_audio_lines(line: Seq<char>, members: Map<Seq<char>, JsonModel>, flag: bool)
    requires
        text::trimmed(line).len() > 0,
        text::trimmed(line) != "__STDIN_EOF__"@,
        asks_for(members, "audio"@),
        members.contains_key("commit"@),
        members["commit"@] == JsonModel::Bool(flag),
    ensures
        json::json_parsed(text::trimmed(line)) == Some(JsonModel::Object(members)) ==> (
        protocol::request_of(line) matches RequestModel::Audio { commit, .. } && commit == flag),
{
    law_commit_flag_is_taken_as_it_is(members, flag);
}

/// The model of a command, a request or an event says all that the value says.
pub proof fn law_request_models(text: String, pcm: Vec<u8>, flag: bool)
    ensures
        (Command::Audio { audio_base64: text, commit: flag }).model() == (CommandModel::Audio {
            audio_base64: text@,
            commit: flag,
        }),
        Command::Finish.model() == CommandModel::Finish,
        Command::Cancel.model() == CommandModel::Cancel,
        Command::Ignored.model() == CommandModel::Ignored,
        (Request::Audio { pcm, commit: flag }).model() == (RequestModel::Audio {
            pcm: pcm@,
            commit: flag,
        }),
        Request::Finish.model() == RequestModel::Finish,
        Request::Cancel.model() == RequestModel::Cancel,
        Request::EndOfInput.model() == RequestModel::EndOfInput,
        Request::Ignored.model() == RequestModel::Ignored,
        protocol::bytes_model(Some(pcm)) == Some(pcm@),
        protocol::bytes_model(None) is None,
        (OutputEvent::Partial { text }).model() == (OutputModel::Partial { text: text@ }),
        (OutputEvent::Final { text }).model() == (OutputModel::Final { text: text@ }),
        (OutputEvent::Error { message: text }).model() == (OutputModel::Error { message: text@ }),
        OutputEvent::SessionStarted.model() == OutputModel::SessionStarted,
        OutputEvent::Closed.model() == OutputModel::Closed,
{
}

// ---------------------------------------------------------------------------
// Events and messages
// ---------------------------------------------------------------------------

/// The object with one member, `type`.
pub open spec fn only_type(kind: Seq<char>) -> Map<Seq<char>, JsonModel> {
    Map::empty().insert("type"@, JsonModel::Text(kind))
}

/// An event for vinput is an object with its kind, and with its text or its
/// message character for character, and nothing else.
pub proof fn law_event_objects(t: Seq<char>)
    ensures
        OutputModel::SessionStarted.object() == JsonModel::Object(only_type("session_started"@)),
        OutputModel::Closed.object() == JsonModel::Object(only_type("closed"@)),
        (OutputModel::Partial { text: t }).object() == JsonModel::Object(
            only_type("partial"@).insert("text"@, JsonModel::Text(t)),
        ),
        (OutputModel::Final { text: t }).object() == JsonModel::Object(
            only_type("final"@).insert("text"@, JsonModel::Text(t)),
        ),
        (OutputModel::Error { message: t }).object() == JsonModel::Object(
            only_type("error"@).insert("message"@, JsonModel::Text(t)),
        ),
{
    lemma_object_of_one("session_started"@);
    lemma_object_of_one("closed"@);
    lemma_object_of_two("partial"@, "text"@, t);
    lemma_object_of_two("final"@, "text"@, t);
    lemma_object_of_two("error"@, "message"@, t);
}

proof fn lemma_object_of_one(kind: Seq<char>)
    ensures
        json::object_members(seq![("type"@, kind)], Seq::empty()) == only_type(kind),
{
    let texts = seq![("type"@, kind)];
    let none = Seq::<(Seq<char>, bool)>::empty();
    assert(texts.drop_last() =~= Seq::empty());
    assert(json::object_members(texts.drop_last(), none) == Map::<Seq<char>, JsonModel>::empty());
}

proof fn lemma_object_of_two(kind: Seq<char>, key: Seq<char>, t: Seq<char>)
    ensures
        json::object_members(seq![("type"@, kind), (key, t)], Seq::empty()) == only_type(
            kind,
        ).insert(key, JsonModel::Text(t)),
{
    let texts = seq![("type"@, kind), (key, t)];
    lemma_object_of_one(kind);
    assert(texts.drop_last() =~= seq![("type"@, kind)]);
}

/// A message for the server is an object with its kind, and with the model
/// name, the audio text or the flag as it is, and nothing else.
pub proof fn law_client_objects(t: Seq<char>, flag: bool)
    ensures
        (ClientMessageModel::SessionUpdate { model: t }).object() == JsonModel::Object(
            only_type("session.update"@).insert("model"@, JsonModel::Text(t)),
        ),
        (ClientMessageModel::AppendAudio { audio: t }).object() == JsonModel::Object(
            only_type("input_audio_buffer.append"@).insert("audio"@, JsonModel::Text(t)),
        ),
        (ClientMessageModel::Commit { is_final: flag }).object() == JsonModel::Object(
            only_type("input_audio_buffer.commit"@).insert("final"@, JsonModel::Bool(flag)),
        ),
{
    lemma_object_of_two("session.update"@, "model"@, t);
    lemma_object_of_two("input_audio_buffer.append"@, "audio"@, t);
    lemma_object_of_one("input_audio_buffer.commit"@);
    let flags = seq![("final"@, flag)];
    assert(flags.drop_last() =~= Seq::empty());
}

/// The model of a message for the server says all that the message says.
pub proof fn law_client_models(t: &str, flag: bool)
    ensures
        (ClientMessage::SessionUpdate { model: t }).model() == (ClientMessageModel::SessionUpdate {
            model: t@,
        }),
        (ClientMessage::AppendAudio { audio: t }).model() == (ClientMessageModel::AppendAudio {
            audio: t@,
        }),
        (ClientMessage::Commit { is_final: flag }).model() == (ClientMessageModel::Commit {
            is_final: flag,
        }),
{
}

/// A tree stands for what it holds: its elements in their order, and under
/// each key the last member with that key.
pub proof fn law_json_models(
    flag: bool,
    t: String,
    items: Seq<Json>,
    fields: Seq<(String, Json)>,
    key: String,
    value: Json,
)
    ensures
        Json::Null.model() == JsonModel::Null,
        Json::Bool(flag).model() == JsonModel::Bool(flag),
        Json::Number(t).model() == JsonModel::Number(t@),
        Json::Text(t).model() == JsonModel::Text(t@),
        Json::models(Seq::empty()).len() == 0,
        Json::models(items.push(value)) == Json::models(items).push(value.model()),
        Json::members(Seq::empty()) == Map::<Seq<char>, JsonModel>::empty(),
        Json::members(fields.push((key, value))) == Json::members(fields).insert(
            key@,
            value.model(),
        ),
{
    assert(items.push(value).drop_last() =~= items);
    assert(fields.push((key, value)).drop_last() =~= fields);
}

} // verus!
