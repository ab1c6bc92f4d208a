//! What every session does for the audio and the text that it is given.

use vstd::prelude::*;

use crate::asr;
use crate::asr::ClientMessageModel;
use crate::asr::ServerEventModel;
use crate::audio;
use crate::json::JsonModel;
use crate::protocol::RequestModel;
use crate::session;
use crate::session::InputModel;
use crate::session::Phase;
use crate::session::SessionModel;
use crate::trace;
use crate::wire;

verus! {

/// Whether the last frame carries audio, which no commit follows yet.
pub open spec fn uncommitted(frames: Seq<Seq<char>>) -> bool {
    frames.len() > 0 && trace::is_audio_frame(frames.last())
}

/// How the last frame that was asked for fits the state of a session.
spec fn settled(s: SessionModel, frames: Seq<Seq<char>>) -> bool {
    match s.phase {
        Phase::SendingAudio { .. } => uncommitted(frames),
        Phase::SendingCommit { .. } => frames.len() > 0 && !uncommitted(frames),
        Phase::Polling { draining } => s.pending_commit == uncommitted(frames) && (draining
            ==> !s.pending_commit),
        Phase::Reading => s.pending_commit == uncommitted(frames),
        Phase::Draining => !s.pending_commit && !uncommitted(frames),
        Phase::Closed => true,
        _ => !s.pending_commit && !uncommitted(frames),
    }
}

proof fn lemma_no_audio_in(msg: ClientMessageModel)
    requires
        !(msg is AppendAudio),
    ensures
        !trace::is_audio_frame(msg.frame()),
{
    assert forall|chunk: Seq<u8>| msg.frame() != #[trigger] asr::audio_frame(chunk) by {
        asr::law_audio_frames_are_distinct(msg, chunk);
    }
}

proof fn lemma_audio_comes_last(pcm: Seq<u8>)
    requires
        pcm.len() > 0,
    ensures
        uncommitted(session::audio_frames(pcm)),
{
    let chunks = audio::chunks_of(pcm, session::FRAME_BYTES as nat);
    let frames = session::audio_frames(pcm);
    assert(chunks.len() > 0);
    assert(frames.last() == asr::audio_frame(chunks.last()));
}

proof fn lemma_step_settles(s: SessionModel, frames: Seq<Seq<char>>, input: InputModel)
    requires
        settled(s, frames),
    ensures
        settled(
            session::stepped(s, input).session,
            frames + session::frames_of(session::stepped(s, input).action),
        ),
{
    let sent = session::frames_of(session::stepped(s, input).action);
    lemma_no_audio_in(ClientMessageModel::SessionUpdate { model: s.model });
    lemma_no_audio_in(ClientMessageModel::Commit { is_final: true });
    lemma_no_audio_in(ClientMessageModel::Commit { is_final: false });
    if let InputModel::Request(RequestModel::Audio { pcm, commit }) = input {
        if pcm.len() > 0 {
            lemma_audio_comes_last(pcm);
        }
    }
    if sent.len() == 0 {
        assert(frames + sent =~= frames);
    } else {
        assert((frames + sent).last() == sent.last());
    }
}

proof fn lemma_session_is_settled(model: Seq<char>, inputs: Seq<InputModel>)
    ensures
        ({
            let end = trace::run(session::session_start(model), inputs);
            settled(end.session, end.frames)
        }),
    decreases inputs.len(),
{
    if inputs.len() > 0 {
        let start = session::session_start(model);
        let init = inputs.drop_last();
        lemma_session_is_settled(model, init);
        let before = trace::run(start, init);
        lemma_step_settles(before.session, before.frames, inputs.last());
        trace::lemma_run_push(start, init, inputs.last());
        assert(init.push(inputs.last()) =~= inputs);
    }
}

/// A session that takes events or requests knows what it owes: a commit is
/// pending exactly when the last frame of the run carries audio.
pub proof fn law_pending_means_uncommitted(model: Seq<char>, inputs: Seq<InputModel>)
    ensures
        ({
            let end = trace::run(session::session_start(model), inputs);
            end.session.phase is Polling || end.session.phase is Reading
                || end.session.phase is Draining ==> (end.session.pending_commit <==> uncommitted(
                end.frames,
            ))
        }),
{
    lemma_session_is_settled(model, inputs);
}

/// A `finish` leaves no audio uncommitted: if the last frame so far carries
/// audio, one final commit is sent, and otherwise nothing is.
pub proof fn law_finish_leaves_nothing_uncommitted(model: Seq<char>, inputs: Seq<InputModel>)
    requires
        trace::run(session::session_start(model), inputs).session.phase is Reading,
    ensures
        ({
            let start = session::session_start(model);
            let before = trace::run(start, inputs).frames;
            let after = trace::run(
                start,
                inputs.push(InputModel::Request(RequestModel::Finish)),
            ).frames;
            &&& uncommitted(before) ==> after == before.push(
                (ClientMessageModel::Commit { is_final: true }).frame(),
            )
            &&& !uncommitted(before) ==> after == before
            &&& !uncommitted(after)
        }),
{
    let start = session::session_start(model);
    let finish = InputModel::Request(RequestModel::Finish);
    let before = trace::run(start, inputs);
    lemma_session_is_settled(model, inputs);
    trace::lemma_run_push(start, inputs, finish);
    lemma_no_audio_in(ClientMessageModel::Commit { is_final: true });
    let sent = session::frames_of(session::stepped(before.session, finish).action);
    if before.session.pending_commit {
        assert(before.frames + sent =~= before.frames.push(
            (ClientMessageModel::Commit { is_final: true }).frame(),
        ));
    } else {
        assert(before.frames + sent =~= before.frames);
    }
}

/// Once all input has been taken, all audio has been committed.
pub proof fn law_all_audio_is_committed_in_the_end(model: Seq<char>, inputs: Seq<InputModel>)
    ensures
        ({
            let end = trace::run(session::session_start(model), inputs);
            trace::draining(end.session.phase) && !(end.session.phase is Closed) ==> !uncommitted(
                end.frames,
            )
        }),
{
    lemma_session_is_settled(model, inputs);
}

// ---------------------------------------------------------------------------
// Text
// ---------------------------------------------------------------------------

/// The events that messages announce, as they come to a session.
pub open spec fn as_inputs(messages: Seq<Map<Seq<char>, JsonModel>>) -> Seq<InputModel> {
    messages.map_values(
        |m: Map<Seq<char>, JsonModel>| InputModel::Event(asr::event_of(JsonModel::Object(m))->0),
    )
}

/// The text of a session is what the deltas on the wire say, one after the
/// other and character for character.
pub proof fn law_text_is_what_the_deltas_say(
    s: SessionModel,
    messages: Seq<Map<Seq<char>, JsonModel>>,
    texts: Seq<Seq<char>>,
)
    requires
        s.phase is Polling || s.phase is Draining,
        messages.len() == texts.len(),
        forall|i: int|
            0 <= i < messages.len() ==> wire::of_kind(
                #[trigger] messages[i],
                "transcription.delta"@,
            ),
        forall|i: int|
            0 <= i < messages.len() ==> wire::says(
                #[trigger] messages[i],
                "delta"@,
                Some(texts[i]),
            ),
    ensures
        trace::run(s, as_inputs(messages)).session.raw == s.raw + texts.flatten(),
        trace::run(s, as_inputs(messages)).session.phase == s.phase,
    decreases messages.len(),
{
    let inputs = as_inputs(messages);
    if messages.len() == 0 {
        assert(texts.flatten() =~= Seq::empty());
        assert(s.raw + texts.flatten() =~= s.raw);
    } else {
        let init = messages.drop_last();
        let earlier = texts.drop_last();
        assert forall|i: int| 0 <= i < init.len() implies wire::of_kind(
            #[trigger] init[i],
            "transcription.delta"@,
        ) && wire::says(init[i], "delta"@, Some(earlier[i])) by {
            assert(init[i] == messages[i]);
        }
        law_text_is_what_the_deltas_say(s, init, earlier);
        let last = messages[messages.len() - 1];
        assert(wire::of_kind(last, "transcription.delta"@));
        wire::law_delta_message(last);
        assert(inputs.last() == InputModel::Event(ServerEventModel::Delta { text: texts.last() }));
        assert(inputs =~= as_inputs(init).push(inputs.last()));
        trace::lemma_run_push(s, as_inputs(init), inputs.last());
        assert(texts =~= earlier + seq![texts.last()]);
        vstd::seq_lib::lemma_flatten_concat(earlier, seq![texts.last()]);
        seq![texts.last()].lemma_flatten_one_element();
        assert(s.raw + earlier.flatten() + texts.last() =~= s.raw + texts.flatten());
    }
}

} // verus!
