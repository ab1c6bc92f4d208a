//! What a session does, step by step, whatever it has been through before.

use vstd::prelude::*;

use crate::asr::ClientMessageModel;
use crate::asr::ServerEvent;
use crate::asr::ServerEventModel;
use crate::audio;
use crate::codec;
use crate::protocol::OutputEvent;
use crate::protocol::OutputModel;
use crate::protocol::Request;
use crate::protocol::RequestModel;
use crate::session;
use crate::session::Action;
use crate::session::ActionModel;
use crate::session::Input;
use crate::session::InputModel;
use crate::session::Phase;
use crate::session::SessionModel;
use crate::session::StepModel;
use crate::text;

verus! {

/// Whether a step leaves all but the phase of a session as it was.
pub open spec fn only_moves(s: SessionModel, step: StepModel) -> bool {
    &&& step.session.model == s.model
    &&& step.session.raw == s.raw
    &&& step.session.pending_commit == s.pending_commit
}

/// Whether a step reports nothing and ends in the given phase.
pub open spec fn goes_to(step: StepModel, phase: Phase) -> bool {
    step.outputs.len() == 0 && step.session.phase == phase
}

/// Whether a step ends the session: it reports `events`, then `closed`.
pub open spec fn ends_with(step: StepModel, events: Seq<OutputModel>, close: bool) -> bool {
    &&& step.session.phase is Closed
    &&& step.outputs == events + seq![OutputModel::Closed]
    &&& step.action == (ActionModel::Stop { close })
}

/// Whether a step asks for one final commit and for nothing else.
pub open spec fn sends_commit(step: StepModel, is_final: bool) -> bool {
    step.action == ActionModel::Send(seq![(ClientMessageModel::Commit { is_final }).frame()])
}

// ---------------------------------------------------------------------------
// The start
// ---------------------------------------------------------------------------

/// A new session has received nothing and has nothing to commit.
pub proof fn law_new_session(model: Seq<char>)
    ensures
        session::session_start(model).model == model,
        session::session_start(model).raw.len() == 0,
        !session::session_start(model).pending_commit,
        session::session_start(model).phase is Connecting,
{
}

/// A connection is reported as `session_started`, and the server is waited
/// for; a failure is reported with its reason, and there is nothing to close.
pub proof fn law_connecting(s: SessionModel, message: Seq<char>)
    requires
        s.phase is Connecting,
    ensures
        ({
            let step = session::stepped(s, InputModel::Connected);
            &&& only_moves(s, step)
            &&& step.outputs == seq![OutputModel::SessionStarted]
            &&& step.session.phase is AwaitingReady
            &&& step.action == ActionModel::AwaitEvent
        }),
        ({
            let step = session::stepped(s, InputModel::ConnectFailed { message });
            &&& only_moves(s, step)
            &&& ends_with(step, seq![OutputModel::Error { message }], false)
        }),
{
    let step = session::stepped(s, InputModel::ConnectFailed { message });
    assert(step.outputs =~= seq![OutputModel::Error { message }] + seq![OutputModel::Closed]);
}

/// Whatever comes first from the server, but for an error, the model is named
/// next; so it is if nothing comes.
pub proof fn law_model_is_named_first(s: SessionModel, input: InputModel)
    requires
        s.phase is AwaitingReady,
        input is EventsClosed || input is Event && !(input->Event_0 is Error),
    ensures
        ({
            let step = session::stepped(s, input);
            &&& only_moves(s, step)
            &&& goes_to(step, Phase::SendingModel)
            &&& step.action == ActionModel::Send(
                seq![(ClientMessageModel::SessionUpdate { model: s.model }).frame()],
            )
        }),
{
}

/// An error in place of readiness is reported, and ends the session.
pub proof fn law_error_in_place_of_readiness(
    s: SessionModel,
    message: Seq<char>,
    code: Option<Seq<char>>,
)
    requires
        s.phase is AwaitingReady,
    ensures
        ({
            let step = session::stepped(
                s,
                InputModel::Event(ServerEventModel::Error { message, code }),
            );
            &&& only_moves(s, step)
            &&& ends_with(step, seq![OutputModel::Error { message }], true)
        }),
{
    let step = session::stepped(s, InputModel::Event(ServerEventModel::Error { message, code }));
    assert(step.outputs =~= seq![OutputModel::Error { message }] + seq![OutputModel::Closed]);
}

/// Generation is started next, whether or not the model name could be sent.
pub proof fn law_generation_is_started(s: SessionModel, outcome: InputModel)
    requires
        s.phase is SendingModel,
        outcome is Sent || outcome is SendFailed,
    ensures
        ({
            let step = session::stepped(s, outcome);
            &&& only_moves(s, step)
            &&& goes_to(step, Phase::SendingStart)
            &&& sends_commit(step, false)
        }),
{
}

/// Once generation is started events are looked for; a failure to start it is
/// reported with its reason, and the connection is left as it is.
pub proof fn law_start_of_generation(s: SessionModel, message: Seq<char>)
    requires
        s.phase is SendingStart,
    ensures
        ({
            let step = session::stepped(s, InputModel::Sent);
            &&& only_moves(s, step)
            &&& goes_to(step, Phase::Polling { draining: false })
            &&& step.action == ActionModel::PollEvent
        }),
        ({
            let step = session::stepped(s, InputModel::SendFailed { message });
            &&& only_moves(s, step)
            &&& ends_with(step, seq![OutputModel::Error { message }], false)
        }),
{
    let step = session::stepped(s, InputModel::SendFailed { message });
    assert(step.outputs =~= seq![OutputModel::Error { message }] + seq![OutputModel::Closed]);
}

// ---------------------------------------------------------------------------
// Events
// ---------------------------------------------------------------------------

/// Whether events of the server are taken, and which action asks for the next.
pub open spec fn takes_events(phase: Phase, action: ActionModel) -> bool {
    phase is Polling && action == ActionModel::PollEvent || phase is Draining && action
        == ActionModel::AwaitDone
}

/// A delta is appended as it is to the text so far; all of it, cleaned, is
/// reported unless it is empty, and the next event is asked for.
pub proof fn law_delta_is_appended(s: SessionModel, delta: Seq<char>, action: ActionModel)
    requires
        takes_events(s.phase, action),
    ensures
        ({
            let step = session::stepped(
                s,
                InputModel::Event(ServerEventModel::Delta { text: delta }),
            );
            let clean = text::cleaned(s.raw + delta);
            &&& step.session.raw == s.raw + delta
            &&& step.session.model == s.model
            &&& step.session.pending_commit == s.pending_commit
            &&& step.session.phase == s.phase
            &&& step.action == action
            &&& clean.len() > 0 ==> step.outputs == seq![OutputModel::Partial { text: clean }]
            &&& clean.len() == 0 ==> step.outputs.len() == 0
        }),
{
}

/// The end of the transcription ends the session. The final text is that of
/// the message, cleaned; where the message has no text, that of the deltas,
/// cleaned; where nothing is left of a message with text, that of the deltas
/// without the white space around it. An empty text is not reported.
pub proof fn law_done_ends_with_final_text(
    s: SessionModel,
    message: Seq<char>,
    usage: Option<crate::json::JsonModel>,
)
    requires
        s.phase is Polling || s.phase is Draining,
    ensures
        ({
            let step = session::stepped(
                s,
                InputModel::Event(ServerEventModel::Done { text: message, usage }),
            );
            let own = text::cleaned(message);
            let heard = text::cleaned(s.raw);
            let core = text::trimmed(heard);
            &&& only_moves(s, step)
            &&& message.len() > 0 && own.len() > 0 ==> ends_with(
                step,
                seq![OutputModel::Final { text: own }],
                true,
            )
            &&& message.len() == 0 && heard.len() > 0 ==> ends_with(
                step,
                seq![OutputModel::Final { text: heard }],
                true,
            )
            &&& message.len() > 0 && own.len() == 0 && core.len() > 0 ==> ends_with(
                step,
                seq![OutputModel::Final { text: core }],
                true,
            )
            &&& message.len() > 0 && own.len() == 0 && core.len() == 0 ==> ends_with(
                step,
                Seq::empty(),
                true,
            )
            &&& message.len() == 0 && heard.len() == 0 ==> ends_with(step, Seq::empty(), true)
        }),
{
    let step = session::stepped(
        s,
        InputModel::Event(ServerEventModel::Done { text: message, usage }),
    );
    let heard = text::cleaned(s.raw);
    let events = session::final_outputs(s.raw, message);
    assert(step.outputs =~= events + seq![OutputModel::Closed]);
    if heard.len() == 0 {
        assert(text::trimmed(heard) == heard);
    }
}

/// An error of the server is reported with its message, and ends the session.
pub proof fn law_error_ends_session(s: SessionModel, message: Seq<char>, code: Option<Seq<char>>)
    requires
        s.phase is Polling || s.phase is Draining,
    ensures
        ({
            let step = session::stepped(
                s,
                InputModel::Event(ServerEventModel::Error { message, code }),
            );
            &&& only_moves(s, step)
            &&& ends_with(step, seq![OutputModel::Error { message }], true)
        }),
{
    let step = session::stepped(s, InputModel::Event(ServerEventModel::Error { message, code }));
    assert(step.outputs =~= seq![OutputModel::Error { message }] + seq![OutputModel::Closed]);
}

/// Word that the session is ready changes nothing later on.
pub proof fn law_later_readiness_is_ignored(s: SessionModel, id: Seq<char>, action: ActionModel)
    requires
        takes_events(s.phase, action),
    ensures
        ({
            let step = session::stepped(s, InputModel::Event(ServerEventModel::Created { id }));
            &&& step.session == s
            &&& step.outputs.len() == 0
            &&& step.action == action
        }),
{
}

/// When no more can come from the server, or from vinput, or in time, the
/// session is closed without another word.
pub proof fn law_silent_end(s: SessionModel, input: InputModel)
    requires
        s.phase is Polling && input is EventsClosed || s.phase is Draining && (input is EventsClosed
            || input is TimedOut) || s.phase is Reading && input is RequestsClosed,
    ensures
        only_moves(s, session::stepped(s, input)),
        ends_with(session::stepped(s, input), Seq::empty(), true),
{
    assert(session::stepped(s, input).outputs =~= Seq::<OutputModel>::empty() + seq![
        OutputModel::Closed,
    ]);
}

/// When no event is there, a request is waited for, or the end of the
/// transcription once all input has been taken.
pub proof fn law_no_event(s: SessionModel, draining: bool)
    requires
        s.phase == (Phase::Polling { draining }),
    ensures
        ({
            let step = session::stepped(s, InputModel::NoEvent);
            &&& only_moves(s, step)
            &&& !draining ==> goes_to(step, Phase::Reading) && step.action
                == ActionModel::AwaitRequest
            &&& draining ==> goes_to(step, Phase::Draining) && step.action == ActionModel::AwaitDone
        }),
{
}

// ---------------------------------------------------------------------------
// Requests
// ---------------------------------------------------------------------------

/// Audio is sent, all of it, whatever the session has received so far.
pub proof fn law_audio_is_sent(s: SessionModel, pcm: Seq<u8>, commit: bool)
    requires
        s.phase is Reading,
        pcm.len() > 0,
    ensures
        ({
            let step = session::stepped(
                s,
                InputModel::Request(RequestModel::Audio { pcm, commit }),
            );
            &&& only_moves(s, step)
            &&& goes_to(step, Phase::SendingAudio { commit })
            &&& step.action == ActionModel::Send(session::audio_frames(pcm))
        }),
{
}

/// Audio that was sent is waiting for a commit, which is sent at once if the
/// audio came with it.
pub proof fn law_sent_audio_waits_for_commit(s: SessionModel, commit: bool)
    requires
        s.phase == (Phase::SendingAudio { commit }),
    ensures
        ({
            let step = session::stepped(s, InputModel::Sent);
            &&& step.session.model == s.model
            &&& step.session.raw == s.raw
            &&& step.session.pending_commit
            &&& commit ==> goes_to(step, Phase::SendingCommit { draining: false }) && sends_commit(
                step,
                true,
            )
            &&& !commit ==> goes_to(step, Phase::Polling { draining: false }) && step.action
                == ActionModel::PollEvent
        }),
{
}

/// A failure to send audio is reported with its reason, and ends the session.
pub proof fn law_unsent_audio_ends_session(s: SessionModel, message: Seq<char>)
    requires
        s.phase is SendingAudio,
    ensures
        ({
            let step = session::stepped(s, InputModel::SendFailed { message });
            &&& only_moves(s, step)
            &&& ends_with(step, seq![OutputModel::Error { message }], true)
        }),
{
    let step = session::stepped(s, InputModel::SendFailed { message });
    assert(step.outputs =~= seq![OutputModel::Error { message }] + seq![OutputModel::Closed]);
}

/// After a commit nothing waits for one, even if the commit could not be sent.
pub proof fn law_commit_is_done_with(s: SessionModel, outcome: InputModel, draining: bool)
    requires
        s.phase == (Phase::SendingCommit { draining }),
        outcome is Sent || outcome is SendFailed,
    ensures
        ({
            let step = session::stepped(s, outcome);
            &&& step.session.model == s.model
            &&& step.session.raw == s.raw
            &&& !step.session.pending_commit
            &&& goes_to(step, Phase::Polling { draining })
            &&& step.action == ActionModel::PollEvent
        }),
{
}

/// A `finish` sends the final commit exactly if audio waits for it, whatever
/// text has come so far, and no further input is taken.
pub proof fn law_finish_commits_what_is_pending(s: SessionModel)
    requires
        s.phase is Reading,
    ensures
        ({
            let step = session::stepped(s, InputModel::Request(RequestModel::Finish));
            &&& only_moves(s, step)
            &&& s.pending_commit ==> goes_to(step, Phase::SendingCommit { draining: true })
                && sends_commit(step, true)
            &&& !s.pending_commit ==> goes_to(step, Phase::Polling { draining: true })
                && step.action == ActionModel::PollEvent
        }),
{
}

/// So does a block without audio that asks for a commit, but input is taken further.
pub proof fn law_empty_block(s: SessionModel, commit: bool)
    requires
        s.phase is Reading,
    ensures
        ({
            let step = session::stepped(
                s,
                InputModel::Request(RequestModel::Audio { pcm: Seq::empty(), commit }),
            );
            &&& only_moves(s, step)
            &&& commit && s.pending_commit ==> goes_to(
                step,
                Phase::SendingCommit { draining: false },
            ) && sends_commit(step, true)
            &&& !(commit && s.pending_commit) ==> goes_to(step, Phase::Polling { draining: false })
                && step.action == ActionModel::PollEvent
        }),
{
}

/// The end of the input sends the final commit in any case.
pub proof fn law_end_of_input_commits(s: SessionModel)
    requires
        s.phase is Reading,
    ensures
        ({
            let step = session::stepped(s, InputModel::Request(RequestModel::EndOfInput));
            &&& only_moves(s, step)
            &&& goes_to(step, Phase::SendingCommit { draining: true })
            &&& sends_commit(step, true)
        }),
{
}

/// A `cancel` closes the session without a final text; a line that asks for
/// nothing is passed over.
pub proof fn law_cancel_and_other_lines(s: SessionModel)
    requires
        s.phase is Reading,
    ensures
        ({
            let step = session::stepped(s, InputModel::Request(RequestModel::Cancel));
            &&& only_moves(s, step)
            &&& ends_with(step, Seq::empty(), true)
        }),
        ({
            let step = session::stepped(s, InputModel::Request(RequestModel::Ignored));
            &&& only_moves(s, step)
            &&& goes_to(step, Phase::Polling { draining: false })
            &&& step.action == ActionModel::PollEvent
        }),
{
    let step = session::stepped(s, InputModel::Request(RequestModel::Cancel));
    assert(step.outputs =~= Seq::<OutputModel>::empty() + seq![OutputModel::Closed]);
}

// ---------------------------------------------------------------------------
// All else
// ---------------------------------------------------------------------------

/// Whether a session waits for an input of this kind.
pub open spec fn waits_for(phase: Phase, input: InputModel) -> bool {
    match input {
        InputModel::Connected => phase is Connecting,
        InputModel::ConnectFailed { .. } => phase is Connecting,
        InputModel::Event(_) => phase is AwaitingReady || phase is Polling || phase is Draining,
        InputModel::EventsClosed => phase is AwaitingReady || phase is Polling
            || phase is Draining,
        InputModel::NoEvent => phase is Polling,
        InputModel::Request(_) => phase is Reading,
        InputModel::RequestsClosed => phase is Reading,
        InputModel::Sent => phase is SendingModel || phase is SendingStart || phase is SendingAudio
            || phase is SendingCommit,
        InputModel::SendFailed { .. } => phase is SendingModel || phase is SendingStart
            || phase is SendingAudio || phase is SendingCommit,
        InputModel::TimedOut => phase is Draining,
    }
}

/// An input that a session does not wait for changes nothing, and what was
/// asked for before still stands.
pub proof fn law_unexpected_input_changes_nothing(s: SessionModel, input: InputModel)
    requires
        !waits_for(s.phase, input),
    ensures
        session::stepped(s, input).session == s,
        session::stepped(s, input).outputs.len() == 0,
        session::stepped(s, input).action == ActionModel::Continue,
{
}

/// The model of an input or an action says all that the value says.
pub proof fn law_step_models(text: String, ev: ServerEvent, request: Request, close: bool)
    ensures
        Input::Connected.model() == InputModel::Connected,
        (Input::ConnectFailed { message: text }).model() == (InputModel::ConnectFailed {
            message: text@,
        }),
        Input::Event(ev).model() == InputModel::Event(ev.model()),
        Input::NoEvent.model() == InputModel::NoEvent,
        Input::EventsClosed.model() == InputModel::EventsClosed,
        Input::Request(request).model() == InputModel::Request(request.model()),
        Input::RequestsClosed.model() == InputModel::RequestsClosed,
        Input::Sent.model() == InputModel::Sent,
        (Input::SendFailed { message: text }).model() == (InputModel::SendFailed {
            message: text@,
        }),
        Input::TimedOut.model() == InputModel::TimedOut,
        Action::AwaitEvent.model() == ActionModel::AwaitEvent,
        Action::PollEvent.model() == ActionModel::PollEvent,
        Action::AwaitRequest.model() == ActionModel::AwaitRequest,
        Action::AwaitDone.model() == ActionModel::AwaitDone,
        (Action::Stop { close }).model() == (ActionModel::Stop { close }),
        Action::Continue.model() == ActionModel::Continue,
{
}

/// The model of a list of frames or of events has the model of each, in order.
pub proof fn law_list_models(frames: Vec<String>, outputs: Seq<OutputEvent>, i: int)
    ensures
        Action::Send(frames).model() is Send,
        Action::Send(frames).model()->Send_0.len() == frames@.len(),
        0 <= i < frames@.len() ==> Action::Send(frames).model()->Send_0[i] == frames@[i]@,
        session::output_models(outputs).len() == outputs.len(),
        0 <= i < outputs.len() ==> session::output_models(outputs)[i] == outputs[i].model(),
{
}

/// Audio goes out in chunks of 8000 bytes, one message each, in order; only
/// the last chunk may be shorter.
pub proof fn law_audio_goes_out_in_chunks(pcm: Seq<u8>, i: int)
    requires
        0 <= i < audio::chunks_of(pcm, 8000).len(),
    ensures
        session::audio_frames(pcm).len() == audio::chunks_of(pcm, 8000).len(),
        session::audio_frames(pcm)[i] == (ClientMessageModel::AppendAudio {
            audio: codec::base64_encoded(audio::chunks_of(pcm, 8000)[i]),
        }).frame(),
{
}

} // verus!
