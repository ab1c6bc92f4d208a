//! What the server's messages say, member by member.

use vstd::prelude::*;

use crate::asr;
use crate::asr::Incoming;
use crate::asr::Reading;
use crate::asr::ReadingModel;
use crate::asr::ServerEvent;
use crate::asr::ServerEventModel;
use crate::asr::WireError;
use crate::asr::WireErrorModel;
use crate::asr::WireEvent;
use crate::asr::WireEventModel;
use crate::json;
use crate::json::Json;
use crate::json::JsonModel;

verus! {

/// Whether a message is an object of the given kind.
pub open spec fn of_kind(members: Map<Seq<char>, JsonModel>, kind: Seq<char>) -> bool {
    members.contains_key("type"@) && members["type"@] == JsonModel::Text(kind)
}

proof fn lemma_kinds_differ()
    ensures
        "session.created"@.len() == 15,
        "session.updated"@.len() == 15,
        "transcription.delta"@.len() == 19,
        "transcription.done"@.len() == 18,
        "error"@.len() == 5,
{
    reveal_strlit("session.created");
    reveal_strlit("session.updated");
    reveal_strlit("transcription.delta");
    reveal_strlit("transcription.done");
    reveal_strlit("error");
}

/// A member is found under its key, whatever other members there are, and
/// only objects have members.
pub proof fn law_members_are_found_by_key(
    members: Map<Seq<char>, JsonModel>,
    key: Seq<char>,
    value: JsonModel,
)
    ensures
        json::member_of(JsonModel::Object(members.insert(key, value)), key) == Some(value),
        json::member_of(JsonModel::Object(members.remove(key)), key) is None,
        !(value is Object) ==> json::member_of(value, key) is None,
{
}

/// `session.created` and `session.updated` both say that the session is ready;
/// the `id` is taken as it is, and is empty where there is none.
pub proof fn law_ready_message(members: Map<Seq<char>, JsonModel>)
    requires
        of_kind(members, "session.created"@) || of_kind(members, "session.updated"@),
    ensures
        !members.contains_key("id"@) ==> asr::event_of(JsonModel::Object(members)) == Some(
            (ServerEventModel::Created { id: Seq::empty() }),
        ),
        members.contains_key("id"@) ==> (members["id"@] matches JsonModel::Text(t)
            ==> asr::event_of(JsonModel::Object(members)) == Some(
            (ServerEventModel::Created { id: t }),
        )),
        members.contains_key("id"@) && !(members["id"@] is Text) ==> asr::event_of(
            JsonModel::Object(members),
        ) is None,
{
    lemma_kinds_differ();
}

/// The text of a `transcription.delta` is taken character for character, and
/// is empty where there is none.
pub proof fn law_delta_message(members: Map<Seq<char>, JsonModel>)
    requires
        of_kind(members, "transcription.delta"@),
    ensures
        !members.contains_key("delta"@) ==> asr::event_of(JsonModel::Object(members)) == Some(
            (ServerEventModel::Delta { text: Seq::empty() }),
        ),
        members.contains_key("delta"@) ==> (members["delta"@] matches JsonModel::Text(t)
            ==> asr::event_of(JsonModel::Object(members)) == Some(
            (ServerEventModel::Delta { text: t }),
        )),
        members.contains_key("delta"@) && !(members["delta"@] is Text) ==> asr::event_of(
            JsonModel::Object(members),
        ) is None,
{
    lemma_kinds_differ();
}

/// The text of a `transcription.done` is taken character for character, and is
/// empty where there is none; `usage` is any value, where it is not null.
pub proof fn law_done_message(members: Map<Seq<char>, JsonModel>)
    requires
        of_kind(members, "transcription.done"@),
    ensures
        ({
            let event = asr::event_of(JsonModel::Object(members));
            let usage = if members.contains_key("usage"@) && !(members["usage"@] is Null) {
                Some(members["usage"@])
            } else {
                None
            };
            &&& !members.contains_key("text"@) ==> event == Some(
                (ServerEventModel::Done { text: Seq::empty(), usage }),
            )
            &&& members.contains_key("text"@) ==> (members["text"@] matches JsonModel::Text(t)
                ==> event == Some((ServerEventModel::Done { text: t, usage })))
            &&& members.contains_key("text"@) && !(members["text"@] is Text) ==> event is None
        }),
{
    lemma_kinds_differ();
}

/// Whether a member that may be left out or null says the given text, or nothing.
pub open spec fn says(
    members: Map<Seq<char>, JsonModel>,
    key: Seq<char>,
    text: Option<Seq<char>>,
) -> bool {
    match text {
        Some(t) => members.contains_key(key) && members[key] == JsonModel::Text(t),
        None => !members.contains_key(key) || members[key] == JsonModel::Null,
    }
}

/// An error without a payload says its own message and code.
pub proof fn law_error_message(
    members: Map<Seq<char>, JsonModel>,
    message: Option<Seq<char>>,
    code: Option<Seq<char>>,
)
    requires
        of_kind(members, "error"@),
        says(members, "error"@, None),
        says(members, "message"@, message),
        says(members, "code"@, code),
    ensures
        asr::event_of(JsonModel::Object(members)) matches Some(ServerEventModel::Error { message: m, code: c })
            && c == code && (message is Some ==> m == message->0) && (message is None ==> m.len() == 0),
{
    lemma_kinds_differ();
}

/// An error with a text for a payload says that text and no code, whatever
/// stands beside it.
pub proof fn law_error_text(
    members: Map<Seq<char>, JsonModel>,
    text: Seq<char>,
    message: Option<Seq<char>>,
    code: Option<Seq<char>>,
)
    requires
        of_kind(members, "error"@),
        says(members, "error"@, Some(text)),
        says(members, "message"@, message),
        says(members, "code"@, code),
    ensures
        asr::event_of(JsonModel::Object(members)) == Some(
            (ServerEventModel::Error { message: text, code: None }),
        ),
{
    lemma_kinds_differ();
}

/// An error with an object for a payload says the message and the code of
/// that object, whatever stands beside it.
pub proof fn law_error_object(
    members: Map<Seq<char>, JsonModel>,
    payload: Map<Seq<char>, JsonModel>,
    message: Option<Seq<char>>,
    code: Option<Seq<char>>,
    inner_message: Option<Seq<char>>,
    inner_code: Option<Seq<char>>,
)
    requires
        of_kind(members, "error"@),
        members.contains_key("error"@),
        members["error"@] == JsonModel::Object(payload),
        says(members, "message"@, message),
        says(members, "code"@, code),
        says(payload, "message"@, inner_message),
        says(payload, "code"@, inner_code),
    ensures
        asr::event_of(JsonModel::Object(members)) matches Some(ServerEventModel::Error { message: m, code: c })
            && c == inner_code && (inner_message is Some ==> m == inner_message->0) && (
        inner_message is None ==> m.len() == 0),
{
    lemma_kinds_differ();
}

/// An error whose message, code or payload is of another shape announces nothing.
pub proof fn law_malformed_error(members: Map<Seq<char>, JsonModel>, key: Seq<char>)
    requires
        of_kind(members, "error"@),
        members.contains_key(key),
        !(members[key] is Null),
        !(members[key] is Text),
        key == "message"@ || key == "code"@ || key == "error"@ && !(members[key] is Object),
    ensures
        asr::event_of(JsonModel::Object(members)) is None,
{
    lemma_kinds_differ();
}

/// So does one whose payload is an object with such a message or code.
pub proof fn law_malformed_error_object(
    members: Map<Seq<char>, JsonModel>,
    payload: Map<Seq<char>, JsonModel>,
    key: Seq<char>,
)
    requires
        of_kind(members, "error"@),
        members.contains_key("error"@),
        members["error"@] == JsonModel::Object(payload),
        key == "message"@ || key == "code"@,
        payload.contains_key(key),
        !(payload[key] is Null),
        !(payload[key] is Text),
    ensures
        asr::event_of(JsonModel::Object(members)) is None,
{
    lemma_kinds_differ();
}

/// A message of no known kind, one without a kind, and a value that is neither
/// object nor array announce nothing.
pub proof fn law_other_messages(members: Map<Seq<char>, JsonModel>, value: JsonModel)
    ensures
        !of_kind(members, "session.created"@) && !of_kind(members, "session.updated"@) && !of_kind(
            members,
            "transcription.delta"@,
        ) && !of_kind(members, "transcription.done"@) && !of_kind(members, "error"@)
            ==> asr::event_of(JsonModel::Object(members)) is None,
        !(value is Object) && !(value is Array) ==> asr::event_of(value) is None,
{
}

// ---------------------------------------------------------------------------
// Messages that are arrays
// ---------------------------------------------------------------------------

/// The members with one more, taken from the fields in order if there are that many.
pub open spec fn with_field(
    members: Map<Seq<char>, JsonModel>,
    name: Seq<char>,
    fields: Seq<JsonModel>,
    i: int,
) -> Map<Seq<char>, JsonModel> {
    if i < fields.len() {
        members.insert(name, fields[i])
    } else {
        members
    }
}

/// A message that is an array: its kind, and its fields in order.
pub open spec fn ordered(kind: Seq<char>, fields: Seq<JsonModel>) -> JsonModel {
    JsonModel::Array(seq![JsonModel::Text(kind)] + fields)
}

/// The members of a message that has nothing but its kind.
pub open spec fn bare(kind: Seq<char>) -> Map<Seq<char>, JsonModel> {
    Map::empty().insert("type"@, JsonModel::Text(kind))
}

proof fn lemma_keys_differ()
    ensures
        "type"@ != "id"@,
        "type"@ != "delta"@,
        "type"@ != "text"@,
        "type"@ != "usage"@,
        "type"@ != "error"@,
        "type"@ != "message"@,
        "type"@ != "code"@,
        "text"@ != "usage"@,
        "error"@ != "message"@,
        "error"@ != "code"@,
        "message"@ != "code"@,
{
    reveal_strlit("type");
    reveal_strlit("id");
    reveal_strlit("delta");
    reveal_strlit("text");
    reveal_strlit("usage");
    reveal_strlit("error");
    reveal_strlit("message");
    reveal_strlit("code");
    assert("type"@[1] != "text"@[1]);
    assert("type"@[0] != "code"@[0]);
    assert("id"@.len() == 2);
    assert("code"@.len() == 4);
    assert("type"@.len() == 4);
    assert("text"@.len() == 4);
    assert("delta"@.len() == 5);
    assert("usage"@.len() == 5);
    assert("error"@.len() == 5);
    assert("message"@.len() == 7);
}

/// A message with one field may be an array: it says what the object with the
/// same field says. With more fields than its kind has it says nothing.
pub proof fn law_one_field_in_order(kind: Seq<char>, name: Seq<char>, fields: Seq<JsonModel>)
    requires
        (kind == "session.created"@ || kind == "session.updated"@) && name == "id"@ || kind
            == "transcription.delta"@ && name == "delta"@,
    ensures
        asr::event_of(ordered(kind, fields)) == if fields.len() <= 1 {
            asr::event_of(JsonModel::Object(with_field(bare(kind), name, fields, 0)))
        } else {
            None
        },
{
    lemma_kinds_differ();
    lemma_keys_differ();
    let items = seq![JsonModel::Text(kind)] + fields;
    assert(items[0] == JsonModel::Text(kind));
    if fields.len() > 0 {
        assert(items[1] == fields[0]);
    }
}

/// So may the end of a transcription, with its text and its usage.
pub proof fn law_done_in_order(fields: Seq<JsonModel>)
    ensures
        asr::event_of(ordered("transcription.done"@, fields)) == if fields.len() <= 2 {
            asr::event_of(
                JsonModel::Object(
                    with_field(
                        with_field(bare("transcription.done"@), "text"@, fields, 0),
                        "usage"@,
                        fields,
                        1,
                    ),
                ),
            )
        } else {
            None
        },
{
    lemma_kinds_differ();
    lemma_keys_differ();
    let items = seq![JsonModel::Text("transcription.done"@)] + fields;
    assert(items[0] == JsonModel::Text("transcription.done"@));
    if fields.len() > 0 {
        assert(items[1] == fields[0]);
    }
    if fields.len() > 1 {
        assert(items[2] == fields[1]);
    }
}

/// So may an error, with its payload, its message and its code.
pub proof fn law_error_in_order(fields: Seq<JsonModel>)
    ensures
        asr::event_of(ordered("error"@, fields)) == if fields.len() <= 3 {
            asr::event_of(
                JsonModel::Object(
                    with_field(
                        with_field(
                            with_field(bare("error"@), "error"@, fields, 0),
                            "message"@,
                            fields,
                            1,
                        ),
                        "code"@,
                        fields,
                        2,
                    ),
                ),
            )
        } else {
            None
        },
{
    lemma_kinds_differ();
    lemma_keys_differ();
    let items = seq![JsonModel::Text("error"@)] + fields;
    assert(items[0] == JsonModel::Text("error"@));
    if fields.len() > 0 {
        assert(items[1] == fields[0]);
    }
    if fields.len() > 1 {
        assert(items[2] == fields[1]);
    }
    if fields.len() > 2 {
        assert(items[3] == fields[2]);
    }
}

/// An array of no known kind says nothing.
pub proof fn law_other_arrays(items: Seq<JsonModel>)
    requires
        items.len() > 0 ==> items[0] != JsonModel::Text("session.created"@),
        items.len() > 0 ==> items[0] != JsonModel::Text("session.updated"@),
        items.len() > 0 ==> items[0] != JsonModel::Text("transcription.delta"@),
        items.len() > 0 ==> items[0] != JsonModel::Text("transcription.done"@),
        items.len() > 0 ==> items[0] != JsonModel::Text("error"@),
    ensures
        asr::event_of(JsonModel::Array(items)) is None,
{
}

// ---------------------------------------------------------------------------
// From the message to the event
// ---------------------------------------------------------------------------

/// Each message that is known is announced as what it says, and no other is.
pub proof fn law_messages_are_announced(
    id: Seq<char>,
    text: Seq<char>,
    usage: Option<JsonModel>,
    message: Option<Seq<char>>,
    code: Option<Seq<char>>,
)
    ensures
        asr::announced(WireEventModel::Created { id }) == Some((ServerEventModel::Created { id })),
        asr::announced(WireEventModel::Delta { text }) == Some((ServerEventModel::Delta { text })),
        asr::announced(WireEventModel::Done { text, usage }) == Some(
            (ServerEventModel::Done { text, usage }),
        ),
        asr::announced(WireEventModel::Unknown) is None,
        asr::announced(
            WireEventModel::Error { error: Some(WireErrorModel::Text(text)), message, code },
        ) == Some((ServerEventModel::Error { message: text, code: None })),
        asr::announced(WireEventModel::Error { error: None, message: Some(text), code }) == Some(
            (ServerEventModel::Error { message: text, code }),
        ),
        asr::announced(WireEventModel::Error { error: None, message: None, code }) == Some(
            (ServerEventModel::Error { message: Seq::empty(), code }),
        ),
{
}

/// An error payload that is an object is announced with its own message and
/// code, whatever stands beside it.
pub proof fn law_error_objects_are_announced(
    inner: Seq<char>,
    inner_code: Option<Seq<char>>,
    message: Option<Seq<char>>,
    code: Option<Seq<char>>,
)
    ensures
        asr::announced(
            WireEventModel::Error {
                error: Some(
                    WireErrorModel::Object { message: Some(inner), code: inner_code },
                ),
                message,
                code,
            },
        ) == Some((ServerEventModel::Error { message: inner, code: inner_code })),
        asr::announced(
            WireEventModel::Error {
                error: Some(WireErrorModel::Object { message: None, code: inner_code }),
                message,
                code,
            },
        ) == Some((ServerEventModel::Error { message: Seq::empty(), code: inner_code })),
{
}

/// Decoding keeps the members of an error apart, each as it stands.
pub proof fn law_error_is_decoded_whole(
    members: Map<Seq<char>, JsonModel>,
    message: Option<Seq<char>>,
    code: Option<Seq<char>>,
)
    requires
        of_kind(members, "error"@),
        says(members, "message"@, message),
        says(members, "code"@, code),
    ensures
        says(members, "error"@, None) ==> asr::decoded(JsonModel::Object(members)) == Some(
            (WireEventModel::Error { error: None, message, code }),
        ),
        members.contains_key("error"@) ==> (members["error"@] matches JsonModel::Text(t)
            ==> asr::decoded(JsonModel::Object(members)) == Some(
            (WireEventModel::Error { error: Some(WireErrorModel::Text(t)), message, code }),
        )),
        members.contains_key("error"@) ==> (members["error"@] matches JsonModel::Object(payload)
            ==> forall|m: Option<Seq<char>>, c: Option<Seq<char>>|
            #[trigger] says(payload, "message"@, m) && #[trigger] says(payload, "code"@, c)
                ==> asr::decoded(JsonModel::Object(members)) == Some(
                (WireEventModel::Error {
                    error: Some((WireErrorModel::Object { message: m, code: c })),
                    message,
                    code,
                }),
            )),
{
    lemma_kinds_differ();
}

/// A message of a kind that is not known is decoded as such; one without a
/// kind is not decoded at all.
pub proof fn law_kinds_are_decoded(members: Map<Seq<char>, JsonModel>, kind: Seq<char>)
    ensures
        of_kind(members, kind) && kind != "session.created"@ && kind != "session.updated"@ && kind
            != "transcription.delta"@ && kind != "transcription.done"@ && kind != "error"@
            ==> asr::decoded(JsonModel::Object(members)) == Some(WireEventModel::Unknown),
        !members.contains_key("type"@) || !(members["type"@] is Text) ==> asr::decoded(
            JsonModel::Object(members),
        ) is None,
{
}

// ---------------------------------------------------------------------------
// From the frame to the event
// ---------------------------------------------------------------------------

/// A text frame is read as the event that its JSON announces, and is skipped
/// only where it announces none.
pub proof fn law_text_frames_are_read(txt: String)
    ensures
        json::json_parsed(txt@) matches Some(msg) ==> asr::event_of(msg) matches Some(ev)
            ==> asr::reading_of(Incoming::Text(txt)) == ReadingModel::Event(ev),
        json::json_parsed(txt@) matches Some(msg) ==> asr::event_of(msg) is None
            ==> asr::reading_of(Incoming::Text(txt)) == ReadingModel::Skipped,
        json::json_parsed(txt@) is None ==> asr::reading_of(Incoming::Text(txt))
            == ReadingModel::Skipped,
{
}

/// A `transcription.done` with a text is read as such, and so is a
/// `transcription.delta`.
pub proof fn law_transcription_frames_are_read(
    txt: String,
    members: Map<Seq<char>, JsonModel>,
    text: Seq<char>,
)
    ensures
        json::json_parsed(txt@) == Some(JsonModel::Object(members)) && of_kind(
            members,
            "transcription.done"@,
        ) && says(members, "text"@, Some(text)) ==> (asr::reading_of(
            Incoming::Text(txt),
        ) matches ReadingModel::Event(ServerEventModel::Done { text: t, .. }) && t == text),
        json::json_parsed(txt@) == Some(JsonModel::Object(members)) && of_kind(
            members,
            "transcription.delta"@,
        ) && says(members, "delta"@, Some(text)) ==> asr::reading_of(Incoming::Text(txt))
            == ReadingModel::Event(ServerEventModel::Delta { text }),
{
    lemma_kinds_differ();
}

/// What is read of frames that are no text.
pub proof fn law_other_frames_are_read(reason: String)
    ensures
        asr::reading_of(Incoming::Binary) == ReadingModel::Skipped,
        asr::reading_of(Incoming::Control) == ReadingModel::Skipped,
        asr::reading_of(Incoming::Close) == ReadingModel::Failed("websocket closed by server"@),
        asr::reading_of(Incoming::Ended) == ReadingModel::Failed("websocket closed"@),
        asr::reading_of(Incoming::Failed(reason)) == ReadingModel::Failed(reason@),
{
}

/// Events are passed on as they are, and an end of the stream as an error with
/// its reason; the reader stops at errors, and at nothing else.
pub proof fn law_readings_are_passed_on(ev: ServerEventModel, reason: Seq<char>)
    ensures
        asr::relayed_event(ReadingModel::Event(ev)) == Some(ev),
        asr::relayed_event(ReadingModel::Skipped) is None,
        asr::relayed_event(ReadingModel::Failed(reason)) == Some(
            (ServerEventModel::Error { message: reason, code: Some("connection_closed"@) }),
        ),
        asr::stops_after(ReadingModel::Event(ev)) <==> ev is Error,
        !asr::stops_after(ReadingModel::Skipped),
        asr::stops_after(ReadingModel::Failed(reason)),
{
}

// ---------------------------------------------------------------------------
// Models
// ---------------------------------------------------------------------------

/// The model of an event or a reading says all that the value says.
pub proof fn law_event_models(text: String, more: String, value: Json, ev: ServerEvent)
    ensures
        (ServerEvent::Created { id: text }).model() == (ServerEventModel::Created { id: text@ }),
        (ServerEvent::Delta { text }).model() == (ServerEventModel::Delta { text: text@ }),
        (ServerEvent::Done { text, usage: None }).model() == (ServerEventModel::Done {
            text: text@,
            usage: None,
        }),
        (ServerEvent::Done { text, usage: Some(value) }).model() == (ServerEventModel::Done {
            text: text@,
            usage: Some(value.model()),
        }),
        (ServerEvent::Error { message: text, code: None }).model() == (ServerEventModel::Error {
            message: text@,
            code: None,
        }),
        (ServerEvent::Error { message: text, code: Some(more) }).model() == (
        ServerEventModel::Error { message: text@, code: Some(more@) }),
        asr::server_event_model(Some(ev)) == Some(ev.model()),
        asr::server_event_model(None) is None,
        Reading::Event(ev).model() == ReadingModel::Event(ev.model()),
        Reading::Skipped.model() == ReadingModel::Skipped,
        Reading::Failed(text).model() == ReadingModel::Failed(text@),
{
}

/// The model of a message on the wire says all that the message says.
pub proof fn law_message_models(
    text: String,
    value: Json,
    error: WireError,
    message: Option<String>,
    code: Option<String>,
    ev: WireEvent,
)
    ensures
        (WireEvent::Created { id: text }).model() == (WireEventModel::Created { id: text@ }),
        (WireEvent::Delta { text }).model() == (WireEventModel::Delta { text: text@ }),
        (WireEvent::Done { text, usage: None }).model() == (WireEventModel::Done {
            text: text@,
            usage: None,
        }),
        (WireEvent::Done { text, usage: Some(value) }).model() == (WireEventModel::Done {
            text: text@,
            usage: Some(value.model()),
        }),
        (WireEvent::Error { error: None, message, code }).model() == (WireEventModel::Error {
            error: None,
            message: asr::text_model(message),
            code: asr::text_model(code),
        }),
        (WireEvent::Error { error: Some(error), message, code }).model() == (
        WireEventModel::Error {
            error: Some(error.model()),
            message: asr::text_model(message),
            code: asr::text_model(code),
        }),
        WireEvent::Unknown.model() == WireEventModel::Unknown,
        WireError::Text(text).model() == WireErrorModel::Text(text@),
        (WireError::Object { message, code }).model() == (WireErrorModel::Object {
            message: asr::text_model(message),
            code: asr::text_model(code),
        }),
        asr::text_model(Some(text)) == Some(text@),
        asr::text_model(None) is None,
        asr::wire_event_model(Some(ev)) == Some(ev.model()),
        asr::wire_event_model(None) is None,
{
}

} // verus!
