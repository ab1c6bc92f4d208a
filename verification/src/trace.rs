//! What holds of a whole session, whatever happens in it.

use vstd::prelude::*;

use crate::asr;
use crate::asr::ClientMessageModel;
use crate::asr::ServerEventModel;
use crate::audio;
use crate::protocol::OutputModel;
use crate::protocol::RequestModel;
use crate::session;
use crate::session::ActionModel;
use crate::session::InputModel;
use crate::session::Phase;
use crate::session::SessionModel;
use crate::session::StepModel;
use crate::text;

verus! {

/// A run of a session: where it ends, what was reported, and which frames were
/// to be sent.
pub struct RunModel {
    pub session: SessionModel,
    pub outputs: Seq<OutputModel>,
    pub frames: Seq<Seq<char>>,
}

/// A step of a run: [`session::stepped`], kept folded where its cases do not matter.
#[verifier::opaque]
pub open spec fn next(s: SessionModel, input: InputModel) -> StepModel {
    session::stepped(s, input)
}

/// The run that a sequence of inputs takes a session through.
pub open spec fn run(s: SessionModel, inputs: Seq<InputModel>) -> RunModel
    decreases inputs.len(),
{
    if inputs.len() == 0 {
        RunModel { session: s, outputs: Seq::empty(), frames: Seq::empty() }
    } else {
        let before = run(s, inputs.drop_last());
        let step = next(before.session, inputs.last());
        RunModel {
            session: step.session,
            outputs: before.outputs + step.outputs,
            frames: before.frames + session::frames_of(step.action),
        }
    }
}

/// A run over two sequences is the run over the first, followed by the run
/// over the second from where the first ended.
proof fn lemma_run_add(s: SessionModel, a: Seq<InputModel>, b: Seq<InputModel>)
    ensures
        run(s, a + b).session == run(run(s, a).session, b).session,
        run(s, a + b).outputs == run(s, a).outputs + run(run(s, a).session, b).outputs,
        run(s, a + b).frames == run(s, a).frames + run(run(s, a).session, b).frames,
    decreases b.len(),
{
    let mid = run(s, a).session;
    if b.len() == 0 {
        assert(a + b =~= a);
        assert(run(s, a).outputs + run(mid, b).outputs =~= run(s, a).outputs);
        assert(run(s, a).frames + run(mid, b).frames =~= run(s, a).frames);
    } else {
        lemma_run_add(s, a, b.drop_last());
        assert((a + b).drop_last() =~= a + b.drop_last());
        let step = next(run(mid, b.drop_last()).session, b.last());
        assert(run(s, a + b).outputs =~= run(s, a).outputs + run(mid, b).outputs);
        assert(run(s, a + b).frames =~= run(s, a).frames + run(mid, b).frames);
    }
}

/// A run with one more input.
pub(crate) proof fn lemma_run_push(s: SessionModel, inputs: Seq<InputModel>, input: InputModel)
    ensures
        ({
            let before = run(s, inputs);
            let step = session::stepped(before.session, input);
            let after = run(s, inputs.push(input));
            &&& after.session == step.session
            &&& after.frames == before.frames + session::frames_of(step.action)
            &&& asr::carried_by(after.frames) == asr::carried_by(before.frames) + asr::carried_by(
                session::frames_of(step.action),
            )
            &&& taken_audio(s, inputs.push(input)) == taken_audio(s, inputs) + session::taken(
                before.session,
                input,
            )
        }),
{
    let longer = inputs.push(input);
    assert(longer.drop_last() =~= inputs);
    assert(run(s, longer).session == next(run(s, inputs).session, input).session);
    reveal(next);
    let f = |frame: Seq<char>| asr::carried_audio(frame);
    let old_frames = run(s, inputs).frames;
    let new_frames = session::frames_of(session::stepped(run(s, inputs).session, input).action);
    assert((old_frames + new_frames).map_values(f) =~= old_frames.map_values(f)
        + new_frames.map_values(f));
    vstd::seq_lib::lemma_flatten_concat(old_frames.map_values(f), new_frames.map_values(f));
}

proof fn lemma_run_one(s: SessionModel, input: InputModel)
    ensures
        run(s, seq![input]).session == next(s, input).session,
        run(s, seq![input]).outputs == next(s, input).outputs,
        run(s, seq![input]).frames == session::frames_of(next(s, input).action),
{
    let inputs = seq![input];
    reveal_with_fuel(run, 2);
    assert(inputs.drop_last() =~= Seq::empty());
    let step = next(s, input);
    assert(run(s, inputs).outputs =~= step.outputs);
    assert(run(s, inputs).frames =~= session::frames_of(step.action));
}

// ---------------------------------------------------------------------------
// What is reported
// ---------------------------------------------------------------------------

/// Whether the events from index `from` up to `to` are all partial texts.
pub open spec fn only_partials(outputs: Seq<OutputModel>, from: int, to: int) -> bool {
    forall|i: int| from <= i < to ==> (#[trigger] outputs[i]) is Partial
}

/// The shape of what a session reports over its life: that it started, then
/// partial texts, then at most one final text or error, then that it is
/// closed. A session that cannot connect reports the error and closes.
pub open spec fn well_shaped(phase: Phase, outputs: Seq<OutputModel>) -> bool {
    let n = outputs.len() as int;
    match phase {
        Phase::Connecting => n == 0,
        Phase::Closed => n >= 2 && outputs[n - 1] is Closed && {
            ||| n == 2 && outputs[0] is Error
            ||| outputs[0] is SessionStarted && only_partials(outputs, 1, n - 2) && (n == 2
                || outputs[n - 2] is Partial || outputs[n - 2] is Final || outputs[n - 2] is Error)
        },
        _ => n >= 1 && outputs[0] is SessionStarted && only_partials(outputs, 1, n),
    }
}

/// Every session keeps to the shape of reports.
pub proof fn law_reports_are_well_shaped(model: Seq<char>, inputs: Seq<InputModel>)
    ensures
        well_shaped(
            run(session::session_start(model), inputs).session.phase,
            run(session::session_start(model), inputs).outputs,
        ),
    decreases inputs.len(),
{
    if inputs.len() > 0 {
        let start = session::session_start(model);
        law_reports_are_well_shaped(model, inputs.drop_last());
        let before = run(start, inputs.drop_last());
        reveal(next);
        let step = next(before.session, inputs.last());
        let after = run(start, inputs);
        assert(after.outputs == before.outputs + step.outputs);
        if step.outputs.len() == 0 {
            assert(after.outputs =~= before.outputs);
        }
    }
}

/// `session_started` is the first event of every session that connects, and is
/// reported exactly once.
pub proof fn law_session_started_exactly_once(model: Seq<char>, later: Seq<InputModel>)
    ensures
        ({
            let outputs = run(
                session::session_start(model),
                seq![InputModel::Connected] + later,
            ).outputs;
            &&& outputs.len() > 0
            &&& outputs[0] is SessionStarted
            &&& forall|i: int| 0 < i < outputs.len() ==> !((#[trigger] outputs[i]) is SessionStarted)
        }),
{
    let start = session::session_start(model);
    let inputs = seq![InputModel::Connected] + later;
    law_reports_are_well_shaped(model, inputs);
    lemma_run_add(start, seq![InputModel::Connected], later);
    lemma_run_one(start, InputModel::Connected);
    reveal(next);
    let first = run(start, seq![InputModel::Connected]).outputs;
    assert(first == seq![OutputModel::SessionStarted]);
    let outputs = run(start, inputs).outputs;
    assert(outputs[0] == first[0]);
    lemma_started_only_first(run(start, inputs).session.phase, outputs);
}

proof fn lemma_started_only_first(phase: Phase, outputs: Seq<OutputModel>)
    requires
        well_shaped(phase, outputs),
    ensures
        forall|i: int| 0 < i < outputs.len() ==> !((#[trigger] outputs[i]) is SessionStarted),
{
}

/// `session_started` is reported at most once: only as the first event.
pub proof fn law_session_started_at_most_once(model: Seq<char>, inputs: Seq<InputModel>)
    ensures
        ({
            let outputs = run(session::session_start(model), inputs).outputs;
            forall|i: int| 0 < i < outputs.len() ==> !((#[trigger] outputs[i]) is SessionStarted)
        }),
{
    let start = session::session_start(model);
    law_reports_are_well_shaped(model, inputs);
    lemma_started_only_first(run(start, inputs).session.phase, run(start, inputs).outputs);
}

/// A final text is reported at most once: only directly before `closed`, which is the end.
pub proof fn law_final_at_most_once(model: Seq<char>, inputs: Seq<InputModel>)
    ensures
        ({
            let outputs = run(session::session_start(model), inputs).outputs;
            forall|i: int|
                0 <= i < outputs.len() && (#[trigger] outputs[i]) is Final ==> i == outputs.len() - 2
                    && outputs.last() is Closed
        }),
{
    law_reports_are_well_shaped(model, inputs);
}

/// `closed` is the last thing reported, and a session is over exactly when it
/// has been reported.
pub proof fn law_closed_comes_last(model: Seq<char>, inputs: Seq<InputModel>)
    ensures
        ({
            let end = run(session::session_start(model), inputs);
            &&& forall|i: int|
                0 <= i < end.outputs.len() - 1 ==> !((#[trigger] end.outputs[i]) is Closed)
            &&& end.session.phase is Closed <==> end.outputs.len() > 0 && end.outputs.last() is Closed
        }),
{
    law_reports_are_well_shaped(model, inputs);
}

/// Nothing happens in a session that is over.
pub proof fn law_closed_session_is_silent(s: SessionModel, later: Seq<InputModel>)
    requires
        s.phase is Closed,
    ensures
        run(s, later).session == s,
        run(s, later).outputs == Seq::<OutputModel>::empty(),
        run(s, later).frames == Seq::<Seq<char>>::empty(),
    decreases later.len(),
{
    if later.len() > 0 {
        law_closed_session_is_silent(s, later.drop_last());
        reveal(next);
        assert(run(s, later).outputs =~= Seq::empty());
        assert(run(s, later).frames =~= Seq::empty());
    }
}

/// Whether a session takes transcription events.
pub open spec fn transcribing(phase: Phase) -> bool {
    phase is Polling || phase is Draining
}

/// When the transcription is done and there is text, in the message or in what
/// was received before, the final text is reported exactly once: now, followed
/// by `closed`, and by nothing later.
pub proof fn law_final_exactly_once(
    model: Seq<char>,
    inputs: Seq<InputModel>,
    done: ServerEventModel,
    later: Seq<InputModel>,
)
    requires
        transcribing(run(session::session_start(model), inputs).session.phase),
        done is Done,
        session::final_text(
            received(session::session_start(model), inputs),
            done->Done_text,
        ) is Some,
    ensures
        ({
            let before = run(session::session_start(model), inputs);
            let after = run(
                session::session_start(model),
                inputs + seq![InputModel::Event(done)] + later,
            );
            let text = session::final_text(
                received(session::session_start(model), inputs),
                done->Done_text,
            )->0;
            &&& after.outputs == before.outputs + seq![
                OutputModel::Final { text },
                OutputModel::Closed,
            ]
            &&& forall|i: int| 0 <= i < before.outputs.len() ==> !((#[trigger] before.outputs[i]) is Final)
        }),
{
    let start = session::session_start(model);
    let before = run(start, inputs);
    let input = InputModel::Event(done);
    let text = session::final_text(received(start, inputs), done->Done_text)->0;
    law_raw_text_is_what_was_received(model, inputs);
    law_reports_are_well_shaped(model, inputs);
    lemma_run_add(start, inputs, seq![input]);
    lemma_run_one(before.session, input);
    reveal(next);
    let closed = run(start, inputs + seq![input]).session;
    assert(closed.phase is Closed);
    let tail = seq![OutputModel::Final { text }, OutputModel::Closed];
    assert(run(before.session, seq![input]).outputs =~= tail);
    lemma_run_add(start, inputs + seq![input], later);
    law_closed_session_is_silent(closed, later);
    assert(run(start, inputs + seq![input] + later).outputs =~= before.outputs + tail);
}

/// An error of the server is reported, and ends the session, whenever the
/// session takes events.
pub proof fn law_server_error_ends_session(s: SessionModel, error: ServerEventModel)
    requires
        s.phase is AwaitingReady || transcribing(s.phase),
        error is Error,
    ensures
        ({
            let step = session::stepped(s, InputModel::Event(error));
            &&& step.session.phase is Closed
            &&& step.outputs == seq![
                OutputModel::Error { message: error->Error_message },
                OutputModel::Closed,
            ]
            &&& step.action == ActionModel::Stop { close: true }
        }),
{
    let step = session::stepped(s, InputModel::Event(error));
    assert(step.outputs =~= seq![
        OutputModel::Error { message: error->Error_message },
        OutputModel::Closed,
    ]);
}

// ---------------------------------------------------------------------------
// What is transcribed
// ---------------------------------------------------------------------------

/// The raw text of the deltas that a session takes in during a run.
pub open spec fn received(s: SessionModel, inputs: Seq<InputModel>) -> Seq<char>
    decreases inputs.len(),
{
    if inputs.len() == 0 {
        Seq::empty()
    } else {
        let init = inputs.drop_last();
        match inputs.last() {
            InputModel::Event(ServerEventModel::Delta { text }) => if transcribing(
                run(s, init).session.phase,
            ) {
                received(s, init) + text
            } else {
                received(s, init)
            },
            _ => received(s, init),
        }
    }
}

/// A session keeps all the raw text it has received, and no other.
pub proof fn law_raw_text_is_what_was_received(model: Seq<char>, inputs: Seq<InputModel>)
    ensures
        run(session::session_start(model), inputs).session.raw == received(
            session::session_start(model),
            inputs,
        ),
    decreases inputs.len(),
{
    if inputs.len() > 0 {
        law_raw_text_is_what_was_received(model, inputs.drop_last());
        reveal(next);
    }
}

/// Each delta is answered at once by a partial text, which is the whole
/// transcription so far, cleaned; it is left out only while there is none.
pub proof fn law_partial_is_whole_text_so_far(
    model: Seq<char>,
    inputs: Seq<InputModel>,
    text: Seq<char>,
)
    requires
        transcribing(run(session::session_start(model), inputs).session.phase),
    ensures
        ({
            let start = session::session_start(model);
            let before = run(start, inputs);
            let after = run(
                start,
                inputs.push(InputModel::Event(ServerEventModel::Delta { text })),
            );
            let clean = text::cleaned(received(start, inputs) + text);
            after.outputs == if clean.len() > 0 {
                before.outputs.push(OutputModel::Partial { text: clean })
            } else {
                before.outputs
            }
        }),
{
    let start = session::session_start(model);
    let input = InputModel::Event(ServerEventModel::Delta { text });
    law_raw_text_is_what_was_received(model, inputs);
    assert(inputs.push(input).drop_last() =~= inputs);
    reveal(next);
    let before = run(start, inputs);
    let clean = text::cleaned(received(start, inputs) + text);
    let expected = if clean.len() > 0 {
        before.outputs.push(OutputModel::Partial { text: clean })
    } else {
        before.outputs
    };
    assert(run(start, inputs.push(input)).outputs =~= expected);
}

/// Whether an event, if it carries transcribed text, carries no line feed.
pub open spec fn reports_one_line(event: OutputModel) -> bool {
    match event {
        OutputModel::Partial { text } => !text.contains('\n'),
        OutputModel::Final { text } => !text.contains('\n'),
        _ => true,
    }
}

/// No transcribed text that is reported, partial or final, has a line feed.
pub proof fn law_reported_text_is_one_line(model: Seq<char>, inputs: Seq<InputModel>)
    ensures
        ({
            let outputs = run(session::session_start(model), inputs).outputs;
            forall|i: int| 0 <= i < outputs.len() ==> reports_one_line(#[trigger] outputs[i])
        }),
    decreases inputs.len(),
{
    if inputs.len() > 0 {
        let start = session::session_start(model);
        law_reported_text_is_one_line(model, inputs.drop_last());
        let before = run(start, inputs.drop_last());
        let step = next(before.session, inputs.last());
        let outputs = run(start, inputs).outputs;
        lemma_step_reports_one_line(before.session, inputs.last());
        assert(outputs == before.outputs + step.outputs);
        assert forall|i: int| 0 <= i < outputs.len() implies reports_one_line(
            #[trigger] outputs[i],
        ) by {
            if i < before.outputs.len() {
                assert(outputs[i] == before.outputs[i]);
            } else {
                assert(outputs[i] == step.outputs[i - before.outputs.len()]);
            }
        }
    }
}

proof fn lemma_step_reports_one_line(s: SessionModel, input: InputModel)
    ensures
        forall|i: int|
            0 <= i < next(s, input).outputs.len() ==> reports_one_line(
                #[trigger] next(s, input).outputs[i],
            ),
{
    reveal(next);
    match input {
        InputModel::Event(ServerEventModel::Delta { text }) => {
            text::law_cleaned_text_is_one_line(s.raw + text);
        },
        InputModel::Event(ServerEventModel::Done { text, .. }) => {
            text::law_cleaned_text_is_one_line(s.raw);
            text::law_cleaned_text_is_one_line(text);
            text::lemma_trimmed_is_one_line(text::cleaned(s.raw));
        },
        _ => {},
    }
}

// ---------------------------------------------------------------------------
// What is sent
// ---------------------------------------------------------------------------

/// The audio of the requests that a session takes during a run, in order.
pub open spec fn taken_audio(s: SessionModel, inputs: Seq<InputModel>) -> Seq<u8>
    decreases inputs.len(),
{
    if inputs.len() == 0 {
        Seq::empty()
    } else {
        let init = inputs.drop_last();
        taken_audio(s, init) + session::taken(run(s, init).session, inputs.last())
    }
}

/// A frame that may be sent once generation has started.
pub open spec fn streaming_frame(frame: Seq<char>) -> bool {
    frame == session::commit_frame(true) || is_audio_frame(frame)
}

/// What may have been sent: first the model name, then the commit that is not
/// final and starts generation, and only then audio and final commits.
pub open spec fn well_ordered(model: Seq<char>, frames: Seq<Seq<char>>) -> bool {
    &&& frames.len() > 0 ==> frames[0] == session::model_frame(model)
    &&& frames.len() > 1 ==> frames[1] == session::commit_frame(false)
    &&& forall|i: int| 2 <= i < frames.len() ==> streaming_frame(#[trigger] frames[i])
}

/// How many frames have been sent by the time a phase is reached.
pub open spec fn frames_by(phase: Phase, count: nat) -> bool {
    match phase {
        Phase::Connecting => count == 0,
        Phase::AwaitingReady => count == 0,
        Phase::SendingModel => count == 1,
        Phase::SendingStart => count == 2,
        Phase::Closed => true,
        _ => count >= 2,
    }
}

proof fn lemma_audio_frames_stream(pcm: Seq<u8>)
    ensures
        forall|i: int|
            0 <= i < session::audio_frames(pcm).len() ==> streaming_frame(
                #[trigger] session::audio_frames(pcm)[i],
            ),
{
    let chunks = audio::chunks_of(pcm, session::FRAME_BYTES as nat);
    assert forall|i: int| 0 <= i < session::audio_frames(pcm).len() implies streaming_frame(
        #[trigger] session::audio_frames(pcm)[i],
    ) by {
        assert(session::audio_frames(pcm)[i] == asr::audio_frame(chunks[i]));
    }
}

/// Every session starts generation before it sends audio, and no audio is
/// sent before the model is named.
pub proof fn law_generation_starts_before_audio(model: Seq<char>, inputs: Seq<InputModel>)
    ensures
        well_ordered(model, run(session::session_start(model), inputs).frames),
{
    lemma_frames(model, inputs);
}

proof fn lemma_frames(model: Seq<char>, inputs: Seq<InputModel>)
    ensures
        well_ordered(model, run(session::session_start(model), inputs).frames),
        run(session::session_start(model), inputs).session.model == model,
        frames_by(
            run(session::session_start(model), inputs).session.phase,
            run(session::session_start(model), inputs).frames.len(),
        ),
    decreases inputs.len(),
{
    if inputs.len() > 0 {
        let start = session::session_start(model);
        lemma_frames(model, inputs.drop_last());
        let before = run(start, inputs.drop_last());
        let input = inputs.last();
        let step = next(before.session, input);
        let sent = session::frames_of(step.action);
        let after = run(start, inputs);
        assert(after.frames == before.frames + sent);
        reveal(next);
        if sent.len() == 0 {
            assert(after.frames =~= before.frames);
        }
        if let InputModel::Request(RequestModel::Audio { pcm, commit }) = input {
            lemma_audio_frames_stream(pcm);
        }
        assert forall|i: int| 2 <= i < after.frames.len() implies streaming_frame(
            #[trigger] after.frames[i],
        ) by {
            if i < before.frames.len() {
                assert(after.frames[i] == before.frames[i]);
            } else {
                assert(after.frames[i] == sent[i - before.frames.len()]);
            }
        }
    }
}

/// Whether a frame carries audio.
pub open spec fn is_audio_frame(frame: Seq<char>) -> bool {
    exists|chunk: Seq<u8>| frame == #[trigger] asr::audio_frame(chunk)
}

/// The chunks of audio that a session takes during a run, request by request, in order.
pub open spec fn taken_chunks(s: SessionModel, inputs: Seq<InputModel>) -> Seq<Seq<u8>>
    decreases inputs.len(),
{
    if inputs.len() == 0 {
        Seq::empty()
    } else {
        let init = inputs.drop_last();
        taken_chunks(s, init) + audio::chunks_of(
            session::taken(run(s, init).session, inputs.last()),
            session::FRAME_BYTES as nat,
        )
    }
}

/// The frames of a run that carry audio carry, in order, exactly the audio of
/// the requests taken: there is one for each chunk, and the chunks joined are
/// that audio. None is left out, added or sent twice.
pub proof fn law_audio_is_sent_in_order(s: SessionModel, inputs: Seq<InputModel>)
    ensures
        run(s, inputs).frames.filter(|f: Seq<char>| is_audio_frame(f)) == taken_chunks(
            s,
            inputs,
        ).map_values(|chunk: Seq<u8>| asr::audio_frame(chunk)),
        taken_chunks(s, inputs).flatten() == taken_audio(s, inputs),
    decreases inputs.len(),
{
    let carries = |f: Seq<char>| is_audio_frame(f);
    let framed = |chunk: Seq<u8>| asr::audio_frame(chunk);
    if inputs.len() == 0 {
        assert(run(s, inputs).frames.filter(carries) =~= Seq::empty()) by {
            reveal(Seq::filter);
        }
        assert(taken_chunks(s, inputs).map_values(framed) =~= Seq::empty());
        assert(taken_chunks(s, inputs).flatten() =~= Seq::empty());
    } else {
        let init = inputs.drop_last();
        let before = run(s, init);
        law_audio_is_sent_in_order(s, init);
        let sent = session::frames_of(next(before.session, inputs.last()).action);
        lemma_step_sends_taken_audio(before.session, inputs.last());
        Seq::filter_distributes_over_add(before.frames, sent, carries);
        let pcm = session::taken(before.session, inputs.last());
        let chunks = audio::chunks_of(pcm, session::FRAME_BYTES as nat);
        assert((taken_chunks(s, init) + chunks).map_values(framed) =~= taken_chunks(
            s,
            init,
        ).map_values(framed) + chunks.map_values(framed));
        audio::law_chunks_join_to_data(pcm, session::FRAME_BYTES as nat);
        vstd::seq_lib::lemma_flatten_concat(taken_chunks(s, init), chunks);
    }
}

proof fn lemma_step_sends_taken_audio(s: SessionModel, input: InputModel)
    ensures
        session::frames_of(next(s, input).action).filter(|f: Seq<char>| is_audio_frame(f))
            == session::audio_frames(session::taken(s, input)),
{
    reveal(next);
    let carries = |f: Seq<char>| is_audio_frame(f);
    let sent = session::frames_of(next(s, input).action);
    let pcm = session::taken(s, input);
    if pcm.len() > 0 {
        assert(sent == session::audio_frames(pcm));
        let chunks = audio::chunks_of(pcm, session::FRAME_BYTES as nat);
        assert forall|i: int| 0 <= i < sent.len() implies carries(#[trigger] sent[i]) by {
            assert(sent[i] == asr::audio_frame(chunks[i]));
        }
        lemma_filter_all(sent, carries);
    } else {
        assert(pcm =~= Seq::empty());
        assert(session::audio_frames(pcm) =~= Seq::empty());
        if sent.len() > 0 {
            let msg = if s.phase is AwaitingReady {
                ClientMessageModel::SessionUpdate { model: s.model }
            } else {
                ClientMessageModel::Commit { is_final: !(s.phase is SendingModel) }
            };
            assert(sent =~= seq![msg.frame()]);
            assert forall|chunk: Seq<u8>| msg.frame() != #[trigger] asr::audio_frame(chunk) by {
                asr::law_audio_frames_are_distinct(msg, chunk);
            }
            assert(!carries(sent[0]));
        }
        lemma_filter_none(sent, carries);
    }
}

proof fn lemma_filter_all(frames: Seq<Seq<char>>, keep: spec_fn(Seq<char>) -> bool)
    requires
        forall|i: int| 0 <= i < frames.len() ==> keep(#[trigger] frames[i]),
    ensures
        frames.filter(keep) == frames,
    decreases frames.len(),
{
    reveal(Seq::filter);
    if frames.len() > 0 {
        let init = frames.drop_last();
        assert forall|i: int| 0 <= i < init.len() implies keep(#[trigger] init[i]) by {
            assert(init[i] == frames[i]);
        }
        lemma_filter_all(init, keep);
        assert(keep(frames[frames.len() - 1]));
        assert(frames =~= init.push(frames.last()));
    } else {
        assert(frames.filter(keep) =~= frames);
    }
}

proof fn lemma_filter_none(frames: Seq<Seq<char>>, keep: spec_fn(Seq<char>) -> bool)
    requires
        forall|i: int| 0 <= i < frames.len() ==> !keep(#[trigger] frames[i]),
    ensures
        frames.filter(keep) == Seq::<Seq<char>>::empty(),
    decreases frames.len(),
{
    reveal(Seq::filter);
    if frames.len() > 0 {
        let init = frames.drop_last();
        assert forall|i: int| 0 <= i < init.len() implies !keep(#[trigger] init[i]) by {
            assert(init[i] == frames[i]);
        }
        lemma_filter_none(init, keep);
        assert(!keep(frames[frames.len() - 1]));
    }
}

/// Whether an input neither brings audio nor ends the input.
pub open spec fn brings_no_audio(input: InputModel) -> bool {
    match input {
        InputModel::Request(RequestModel::Audio { pcm, .. }) => pcm.len() == 0,
        InputModel::Request(RequestModel::EndOfInput) => false,
        _ => true,
    }
}

/// Whether nothing is left to be committed: the final commit is on its way, or
/// no audio has come since the last one.
spec fn nothing_to_commit(s: SessionModel) -> bool {
    match s.phase {
        Phase::SendingCommit { .. } => true,
        Phase::Closed => true,
        Phase::Polling { .. } => !s.pending_commit,
        Phase::Reading => !s.pending_commit,
        Phase::Draining => !s.pending_commit,
        _ => false,
    }
}

/// A session with nothing to commit sends nothing until there is audio again.
proof fn lemma_nothing_to_commit(s: SessionModel, inputs: Seq<InputModel>)
    requires
        nothing_to_commit(s),
        forall|i: int| 0 <= i < inputs.len() ==> brings_no_audio(#[trigger] inputs[i]),
    ensures
        run(s, inputs).frames == Seq::<Seq<char>>::empty(),
        nothing_to_commit(run(s, inputs).session),
    decreases inputs.len(),
{
    if inputs.len() > 0 {
        let init = inputs.drop_last();
        assert forall|i: int| 0 <= i < init.len() implies brings_no_audio(#[trigger] init[i]) by {
            assert(init[i] == inputs[i]);
        }
        lemma_nothing_to_commit(s, init);
        assert(brings_no_audio(inputs.last()));
        reveal(next);
        assert(run(s, inputs).frames =~= Seq::empty());
    }
}

/// A session that sends the last audio commits it at most once until there is
/// audio again.
proof fn lemma_one_commit(s: SessionModel, inputs: Seq<InputModel>)
    requires
        s.phase == (Phase::SendingAudio { commit: true }),
        forall|i: int| 0 <= i < inputs.len() ==> brings_no_audio(#[trigger] inputs[i]),
    ensures
        ({
            let end = run(s, inputs);
            ||| end.session.phase == s.phase && end.frames == Seq::<Seq<char>>::empty()
            ||| nothing_to_commit(end.session) && (end.frames == Seq::<Seq<char>>::empty()
                || end.frames == seq![session::commit_frame(true)])
        }),
    decreases inputs.len(),
{
    if inputs.len() > 0 {
        let init = inputs.drop_last();
        assert forall|i: int| 0 <= i < init.len() implies brings_no_audio(#[trigger] init[i]) by {
            assert(init[i] == inputs[i]);
        }
        lemma_one_commit(s, init);
        let before = run(s, init);
        let sent = session::frames_of(next(before.session, inputs.last()).action);
        assert(brings_no_audio(inputs.last()));
        reveal(next);
        if sent.len() == 0 {
            assert(before.frames + sent =~= before.frames);
        } else {
            assert(sent == seq![session::commit_frame(true)]);
            assert(before.frames + sent =~= sent);
        }
    }
}

/// A block that comes with `commit` is committed at most once: whatever
/// happens up to a `finish` that no other audio precedes, `finish` sends no
/// second commit. Audio that is sent is committed exactly once. A block
/// without audio commits what was pending before, once, and where nothing
/// was, no commit is sent at all.
pub proof fn law_no_second_commit_on_finish(
    s: SessionModel,
    pcm: Seq<u8>,
    between: Seq<InputModel>,
)
    requires
        s.phase is Reading,
        forall|i: int| 0 <= i < between.len() ==> brings_no_audio(#[trigger] between[i]),
    ensures
        ({
            let frames = run(
                s,
                seq![InputModel::Request(RequestModel::Audio { pcm, commit: true })] + between.push(
                    InputModel::Request(RequestModel::Finish),
                ),
            ).frames;
            let committed = session::audio_frames(pcm).push(session::commit_frame(true));
            &&& frames == session::audio_frames(pcm) || frames == committed
            &&& pcm.len() > 0 && between.len() > 0 && between[0] is Sent ==> frames == committed
            &&& pcm.len() == 0 ==> frames == if s.pending_commit {
                seq![session::commit_frame(true)]
            } else {
                Seq::empty()
            }
        }),
{
    let request = InputModel::Request(RequestModel::Audio { pcm, commit: true });
    let rest = between.push(InputModel::Request(RequestModel::Finish));
    let audio_sent = session::audio_frames(pcm);
    let committed = audio_sent.push(session::commit_frame(true));
    assert forall|i: int| 0 <= i < rest.len() implies brings_no_audio(#[trigger] rest[i]) by {
        if i < between.len() {
            assert(rest[i] == between[i]);
        }
    }
    let taken = run(s, seq![request]);
    lemma_run_one(s, request);
    lemma_run_add(s, seq![request], rest);
    let frames = run(s, seq![request] + rest).frames;
    let later = run(taken.session, rest).frames;
    assert(frames == taken.frames + later);
    if pcm.len() == 0 {
        assert(audio_sent =~= Seq::empty());
        assert(nothing_to_commit(taken.session) && taken.frames == if s.pending_commit {
            seq![session::commit_frame(true)]
        } else {
            Seq::empty()
        }) by {
            reveal(next);
        }
        lemma_nothing_to_commit(taken.session, rest);
        assert(frames =~= taken.frames);
        assert(committed =~= seq![session::commit_frame(true)]);
    } else {
        assert(taken.session == s.with_phase(Phase::SendingAudio { commit: true }) && taken.frames
            == audio_sent) by {
            reveal(next);
        }
        lemma_one_commit(taken.session, rest);
        if later.len() == 0 {
            assert(frames =~= audio_sent);
        } else {
            assert(frames =~= committed);
        }
        if between.len() > 0 && between[0] is Sent {
            lemma_sent_audio_is_committed(taken.session, rest);
            assert(frames =~= committed);
        }
    }
}

/// Once the last audio is sent, it is committed.
proof fn lemma_sent_audio_is_committed(s: SessionModel, inputs: Seq<InputModel>)
    requires
        s.phase == (Phase::SendingAudio { commit: true }),
        inputs.len() > 0,
        inputs[0] is Sent,
        forall|i: int| 0 <= i < inputs.len() ==> brings_no_audio(#[trigger] inputs[i]),
    ensures
        run(s, inputs).frames == seq![session::commit_frame(true)],
{
    let rest = inputs.drop_first();
    let first = run(s, seq![inputs[0]]);
    assert(first.session.phase == (Phase::SendingCommit { draining: false }) && first.frames
        == seq![session::commit_frame(true)]) by {
        lemma_run_one(s, inputs[0]);
        reveal(next);
    }
    assert forall|i: int| 0 <= i < rest.len() implies brings_no_audio(#[trigger] rest[i]) by {
        assert(rest[i] == inputs[i + 1]);
    }
    lemma_nothing_to_commit(first.session, rest);
    assert(inputs =~= seq![inputs[0]] + rest);
    lemma_run_add(s, seq![inputs[0]], rest);
    assert(run(s, inputs).frames =~= first.frames);
}

// ---------------------------------------------------------------------------
// What comes first
// ---------------------------------------------------------------------------

/// A request is waited for only when no event of the server is there, so that
/// events are never held up by input.
pub proof fn law_events_before_requests(s: SessionModel, input: InputModel)
    requires
        session::stepped(s, input).action is AwaitRequest,
    ensures
        s.phase is Polling,
        input is NoEvent,
{
}

/// Once all input has been taken no request is waited for any more.
pub proof fn law_no_requests_while_draining(s: SessionModel, inputs: Seq<InputModel>)
    requires
        draining(s.phase),
    ensures
        draining(run(s, inputs).session.phase),
    decreases inputs.len(),
{
    if inputs.len() > 0 {
        law_no_requests_while_draining(s, inputs.drop_last());
        reveal(next);
    }
}

/// Whether all input has been taken.
pub open spec fn draining(phase: Phase) -> bool {
    match phase {
        Phase::Polling { draining } => draining,
        Phase::SendingCommit { draining } => draining,
        Phase::Draining => true,
        Phase::Closed => true,
        _ => false,
    }
}

/// Whether an input answers what an action asks for.
pub open spec fn answers(action: ActionModel, input: InputModel) -> bool {
    match action {
        ActionModel::AwaitEvent => input is Event || input is EventsClosed,
        ActionModel::PollEvent => input is Event || input is NoEvent || input is EventsClosed,
        ActionModel::AwaitRequest => input is Request || input is RequestsClosed,
        ActionModel::AwaitDone => input is Event || input is EventsClosed || input is TimedOut,
        ActionModel::Send(_) => input is Sent || input is SendFailed,
        ActionModel::Stop { .. } => false,
        ActionModel::Continue => false,
    }
}

/// Whoever tells a new session how connecting went, and from then on answers
/// what each step asks for, is never told to continue: whatever the input
/// that a step took, an answer to what the step asks for is taken, too.
pub proof fn law_answers_are_taken(s: SessionModel, input: InputModel, answer: InputModel)
    ensures
        s.phase is Connecting && (input is Connected || input is ConnectFailed) ==> !(
        session::stepped(s, input).action is Continue),
        answers(session::stepped(s, input).action, answer) ==> !(session::stepped(
            session::stepped(s, input).session,
            answer,
        ).action is Continue),
{
}

/// What the input at index `i` makes a session ask for.
pub open spec fn action_at(s: SessionModel, inputs: Seq<InputModel>, i: int) -> ActionModel {
    session::stepped(run(s, inputs.take(i)).session, inputs[i]).action
}

/// Whether the inputs say how connecting went, and from then on each answers
/// what was asked for.
pub open spec fn answered(s: SessionModel, inputs: Seq<InputModel>) -> bool {
    forall|i: int|
        0 <= i < inputs.len() ==> if i == 0 {
            inputs[0] is Connected || inputs[0] is ConnectFailed
        } else {
            answers(action_at(s, inputs, i - 1), #[trigger] inputs[i])
        }
}

/// A session whose requests are answered, one by one, always has a next thing
/// to ask for until it stops: no input of it is passed over.
pub proof fn law_answered_session_goes_on(model: Seq<char>, inputs: Seq<InputModel>, i: int)
    requires
        answered(session::session_start(model), inputs),
        0 <= i < inputs.len(),
    ensures
        !(action_at(session::session_start(model), inputs, i) is Continue),
{
    let s = session::session_start(model);
    let before = run(s, inputs.take(i)).session;
    if i == 0 {
        assert(inputs.take(0) =~= Seq::empty());
        law_answers_are_taken(before, inputs[0], inputs[0]);
    } else {
        let earlier = run(s, inputs.take(i - 1)).session;
        assert(inputs.take(i).drop_last() =~= inputs.take(i - 1));
        assert(before == next(earlier, inputs[i - 1]).session);
        assert(before == session::stepped(earlier, inputs[i - 1]).session) by {
            reveal(next);
        }
        assert(answers(action_at(s, inputs, i - 1), inputs[i]));
        law_answers_are_taken(earlier, inputs[i - 1], inputs[i]);
    }
}

} // verus!
