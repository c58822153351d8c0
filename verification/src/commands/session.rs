//! The recording loop: what is done next, and when the recording ends.
//!
//! The loop asks for one thing at a time. Whoever runs it does what the loop
//! asks for and reports what came of it.
use crate::commands::record::RecordingMode;
use crate::recording::ui::RecordingCommand;
use crate::remote::{RemoteOutputMode, RemoteSignal};
use vstd::prelude::*;

verus! {

/// What the loop asks for.
#[derive(Debug, Clone, Copy, PartialEq, Eq, Structural)]
pub enum LoopStep {
    /// See whether a remote request has come in.
    PollRemote,
    /// See whether the signal to transcribe has been received.
    CheckSignal,
    /// Read the user's input.
    PollInput,
    /// Draw the recording.
    Render,
    /// Pause or resume the recording, and draw it.
    TogglePause,
    /// Begin the animation that shows that the recording is called off.
    StartCancel,
    /// Read the user's input while the animation runs.
    PollCancelInput,
    /// Draw the animation, and see whether it is over.
    RenderCancel,
    /// Stop recording, and transcribe what was recorded.
    Transcribe,
    /// Stop recording, and only save what was recorded.
    SaveOnly,
    /// Give up because of an error.
    Fail,
}

/// What came of the step that the loop asked for.
#[derive(Debug, Clone, Copy, PartialEq, Eq, Structural)]
pub enum LoopEvent {
    /// No remote request has come in.
    RemoteIdle,
    /// A remote request to complete has come in, with the output it asks for.
    RemoteComplete(Option<RemoteOutputMode>),
    /// A remote request to cancel has come in.
    RemoteCancel,
    /// Whether the signal has been received.
    Signalled(bool),
    /// What the user's input asks for.
    Input(RecordingCommand),
    /// What was asked for has been done.
    Done,
    /// Whether the animation is over.
    Animated(bool),
    /// What was asked for has failed.
    Failed,
}

/// The event of a remote request.
pub fn remote_event(signal: Option<RemoteSignal>) -> (r: LoopEvent)
    ensures
        r == match signal {
            Some(RemoteSignal::Complete) => LoopEvent::RemoteComplete(None),
            Some(RemoteSignal::Cancel) => LoopEvent::RemoteCancel,
            None => LoopEvent::RemoteIdle,
        },
{
    match signal {
        Some(RemoteSignal::Complete) => LoopEvent::RemoteComplete(None),
        Some(RemoteSignal::Cancel) => LoopEvent::RemoteCancel,
        None => LoopEvent::RemoteIdle,
    }
}

/// The state of the recording loop.
#[derive(Debug, Clone, Copy, PartialEq, Eq, Structural)]
pub struct RecordingLoop {
    /// How the recorder is controlled.
    pub mode: RecordingMode,
    /// What is to be done next.
    pub step: LoopStep,
    /// The output that the remote request asked for.
    pub output_override: Option<RemoteOutputMode>,
}

/// The first step of a round: requests over the socket come before the signal.
pub open spec fn round_start(mode: RecordingMode) -> LoopStep {
    match mode {
        RecordingMode::Remote => LoopStep::PollRemote,
        RecordingMode::Interactive => LoopStep::CheckSignal,
    }
}

/// Whether an event is an answer to a step.
pub open spec fn answers(event: LoopEvent, step: LoopStep) -> bool {
    match step {
        LoopStep::PollRemote => event is RemoteIdle || event is RemoteComplete
            || event is RemoteCancel,
        LoopStep::CheckSignal => event is Signalled,
        LoopStep::PollInput => event is Input || event is Failed,
        LoopStep::Render => event is Done || event is Failed,
        LoopStep::TogglePause => event is Done || event is Failed,
        LoopStep::StartCancel => event is Done,
        LoopStep::PollCancelInput => event is Input || event is Failed,
        LoopStep::RenderCancel => event is Animated || event is Failed,
        LoopStep::Transcribe | LoopStep::SaveOnly | LoopStep::Fail => false,
    }
}

/// The step after a step that was answered by an event.
pub open spec fn next_step(mode: RecordingMode, step: LoopStep, event: LoopEvent) -> LoopStep {
    match (step, event) {
        (LoopStep::PollRemote, LoopEvent::RemoteIdle) => LoopStep::CheckSignal,
        (LoopStep::PollRemote, LoopEvent::RemoteComplete(_)) => LoopStep::Transcribe,
        (LoopStep::PollRemote, LoopEvent::RemoteCancel) => LoopStep::StartCancel,
        (LoopStep::CheckSignal, LoopEvent::Signalled(true)) => LoopStep::Transcribe,
        (LoopStep::CheckSignal, LoopEvent::Signalled(false)) => LoopStep::PollInput,
        (LoopStep::PollInput, LoopEvent::Input(RecordingCommand::Continue)) => LoopStep::Render,
        (LoopStep::PollInput, LoopEvent::Input(RecordingCommand::Transcribe)) => {
            LoopStep::Transcribe
        },
        (LoopStep::PollInput, LoopEvent::Input(RecordingCommand::Cancel)) => LoopStep::StartCancel,
        (LoopStep::PollInput, LoopEvent::Input(RecordingCommand::TogglePause)) => {
            LoopStep::TogglePause
        },
        (LoopStep::PollInput, _) => LoopStep::Fail,
        (LoopStep::Render | LoopStep::TogglePause, LoopEvent::Done) => round_start(mode),
        (LoopStep::Render | LoopStep::TogglePause, _) => LoopStep::Fail,
        (LoopStep::StartCancel, _) => LoopStep::PollCancelInput,
        // A second request to cancel skips the rest of the animation.
        (LoopStep::PollCancelInput, LoopEvent::Input(RecordingCommand::Cancel)) => {
            LoopStep::SaveOnly
        },
        (LoopStep::PollCancelInput, _) => LoopStep::RenderCancel,
        (LoopStep::RenderCancel, LoopEvent::Animated(true)) => LoopStep::SaveOnly,
        (LoopStep::RenderCancel, LoopEvent::Animated(false)) => LoopStep::PollCancelInput,
        (LoopStep::RenderCancel, _) => LoopStep::Fail,
        _ => step,
    }
}

/// The state after an event.
pub open spec fn advanced(state: RecordingLoop, event: LoopEvent) -> RecordingLoop {
    RecordingLoop {
        mode: state.mode,
        step: next_step(state.mode, state.step, event),
        output_override: match (state.step, event) {
            (LoopStep::PollRemote, LoopEvent::RemoteComplete(output)) => output,
            _ => state.output_override,
        },
    }
}

/// Whether the loop has come to an end.
pub open spec fn is_final(step: LoopStep) -> bool {
    step is Transcribe || step is SaveOnly || step is Fail
}

/// Whether the recording has been called off.
pub open spec fn is_cancelling(step: LoopStep) -> bool {
    step is StartCancel || step is PollCancelInput || step is RenderCancel || step is SaveOnly
}

impl RecordingLoop {
    /// A loop that has not begun.
    pub open spec fn initial(mode: RecordingMode) -> RecordingLoop {
        RecordingLoop { mode, step: round_start(mode), output_override: None }
    }

    /// What holds of the loop at all times: requests over the socket are looked
    /// for only under remote control, and an output is asked for only by one
    /// that ends the recording.
    pub open spec fn wf(self) -> bool {
        &&& self.step is PollRemote ==> self.mode is Remote
        &&& self.output_override is Some ==> self.mode is Remote && self.step is Transcribe
    }

    /// A loop that has not begun.
    pub fn new(mode: RecordingMode) -> (r: Self)
        ensures
            r == RecordingLoop::initial(mode),
            r.wf(),
    {
        let step = match mode {
            RecordingMode::Remote => LoopStep::PollRemote,
            RecordingMode::Interactive => LoopStep::CheckSignal,
        };
        RecordingLoop { mode, step, output_override: None }
    }

    /// Takes what came of the step that was asked for.
    pub fn advance(&mut self, event: LoopEvent)
        requires
            old(self).wf(),
            answers(event, old(self).step),
        ensures
            *final(self) == advanced(*old(self), event),
            final(self).wf(),
            (old(self).step == LoopStep::Render || old(self).step == LoopStep::TogglePause) && event
                == LoopEvent::Done ==> final(self).step == if old(self).mode
                == RecordingMode::Remote {
                LoopStep::PollRemote
            } else {
                LoopStep::CheckSignal
            },
    {
        let start = match self.mode {
            RecordingMode::Remote => LoopStep::PollRemote,
            RecordingMode::Interactive => LoopStep::CheckSignal,
        };
        match (self.step, event) {
            (LoopStep::PollRemote, LoopEvent::RemoteIdle) => {
                self.step = LoopStep::CheckSignal;
            },
            (LoopStep::PollRemote, LoopEvent::RemoteComplete(output)) => {
                self.output_override = output;
                self.step = LoopStep::Transcribe;
            },
            (LoopStep::PollRemote, LoopEvent::RemoteCancel) => {
                self.step = LoopStep::StartCancel;
            },
            (LoopStep::CheckSignal, LoopEvent::Signalled(received)) => {
                self.step = if received {
                    LoopStep::Transcribe
                } else {
                    LoopStep::PollInput
                };
            },
            (LoopStep::PollInput, LoopEvent::Input(command)) => {
                self.step = match command {
                    RecordingCommand::Continue => LoopStep::Render,
                    RecordingCommand::Transcribe => LoopStep::Transcribe,
                    RecordingCommand::Cancel => LoopStep::StartCancel,
                    RecordingCommand::TogglePause => LoopStep::TogglePause,
                };
            },
            (LoopStep::PollInput, _) => {
                self.step = LoopStep::Fail;
            },
            (LoopStep::Render, LoopEvent::Done) => {
                self.step = start;
            },
            (LoopStep::TogglePause, LoopEvent::Done) => {
                self.step = start;
            },
            (LoopStep::Render, _) => {
                self.step = LoopStep::Fail;
            },
            (LoopStep::TogglePause, _) => {
                self.step = LoopStep::Fail;
            },
            (LoopStep::StartCancel, _) => {
                self.step = LoopStep::PollCancelInput;
            },
            (LoopStep::PollCancelInput, LoopEvent::Input(RecordingCommand::Cancel)) => {
                self.step = LoopStep::SaveOnly;
            },
            (LoopStep::PollCancelInput, _) => {
                self.step = LoopStep::RenderCancel;
            },
            (LoopStep::RenderCancel, LoopEvent::Animated(over)) => {
                self.step = if over {
                    LoopStep::SaveOnly
                } else {
                    LoopStep::PollCancelInput
                };
            },
            (LoopStep::RenderCancel, _) => {
                self.step = LoopStep::Fail;
            },
            _ => {},
        }
    }
}

/// The state after a series of events.
pub open spec fn run(state: RecordingLoop, events: Seq<LoopEvent>) -> RecordingLoop
    decreases events.len(),
{
    if events.len() == 0 {
        state
    } else {
        advanced(run(state, events.drop_last()), events.last())
    }
}

/// A recording that has been called off is never transcribed, whatever happens
/// afterwards.
pub proof fn law_cancelled_is_not_transcribed(state: RecordingLoop, events: Seq<LoopEvent>)
    requires
        is_cancelling(state.step),
    ensures
        run(state, events).step is Fail || is_cancelling(run(state, events).step),
        !(run(state, events).step is Transcribe),
    decreases events.len(),
{
    if events.len() > 0 {
        law_cancelled_is_not_transcribed(state, events.drop_last());
    }
}

/// The end of the loop is final.
pub proof fn law_the_end_is_final(state: RecordingLoop, events: Seq<LoopEvent>)
    requires
        is_final(state.step),
    ensures
        run(state, events) == state,
    decreases events.len(),
{
    if events.len() > 0 {
        law_the_end_is_final(state, events.drop_last());
    }
}

/// In every state that a loop reaches, its invariant holds; in particular an
/// interactive recorder never takes an output from a remote request.
pub proof fn law_invariant(mode: RecordingMode, events: Seq<LoopEvent>)
    ensures
        run(RecordingLoop::initial(mode), events).wf(),
        run(RecordingLoop::initial(mode), events).mode == mode,
    decreases events.len(),
{
    if events.len() > 0 {
        law_invariant(mode, events.drop_last());
    }
}

/// A recording is transcribed only when someone asked for it: the step before
/// was answered by a remote request to complete, by the signal, or by the
/// user's input.
pub proof fn law_transcribed_on_request(state: RecordingLoop, event: LoopEvent)
    requires
        !(state.step is Transcribe),
        advanced(state, event).step is Transcribe,
    ensures
        event is RemoteComplete || event == LoopEvent::Signalled(true) || event
            == LoopEvent::Input(RecordingCommand::Transcribe),
{
}

/// The state after the first `i` events of a session.
pub open spec fn state_at(mode: RecordingMode, events: Seq<LoopEvent>, i: int) -> RecordingLoop {
    run(RecordingLoop::initial(mode), events.take(i))
}

proof fn lemma_state_at(mode: RecordingMode, events: Seq<LoopEvent>, i: int)
    requires
        0 <= i < events.len(),
    ensures
        state_at(mode, events, i + 1) == advanced(state_at(mode, events, i), events[i]),
        state_at(mode, events, i).mode == mode,
{
    assert(events.take(i + 1).drop_last() =~= events.take(i));
    assert(events.take(i + 1).last() == events[i]);
    law_invariant(mode, events.take(i));
}

/// Whether a step comes after the user's input was read, in the same round.
spec fn is_after_input(step: LoopStep) -> bool {
    step is Render || step is TogglePause || is_cancelling(step) || is_final(step)
}

proof fn lemma_no_input_before_remote(events: Seq<LoopEvent>, i: int, j: int)
    requires
        0 <= i < j <= events.len(),
        state_at(RecordingMode::Remote, events, i).step is PollInput,
        forall|k: int|
            i < k <= j ==> !((#[trigger] state_at(RecordingMode::Remote, events, k)).step
                is PollRemote),
    ensures
        is_after_input(state_at(RecordingMode::Remote, events, j).step),
    decreases j - i,
{
    lemma_state_at(RecordingMode::Remote, events, j - 1);
    assert(!(state_at(RecordingMode::Remote, events, j).step is PollRemote));
    if j > i + 1 {
        lemma_no_input_before_remote(events, i, j - 1);
    }
}

/// Under remote control a request is looked for in every round: between two
/// times that the user's input is read there is one at which the socket is.
pub proof fn law_remote_is_polled_every_round(events: Seq<LoopEvent>, i: int, j: int)
    requires
        0 <= i < j <= events.len(),
        state_at(RecordingMode::Remote, events, i).step == LoopStep::PollInput,
        state_at(RecordingMode::Remote, events, j).step == LoopStep::PollInput,
    ensures
        exists|k: int|
            i < k < j && (#[trigger] state_at(RecordingMode::Remote, events, k)).step
                == LoopStep::PollRemote,
{
    if !(exists|k: int|
        i < k < j && (#[trigger] state_at(RecordingMode::Remote, events, k)).step
            == LoopStep::PollRemote) {
        assert forall|k: int| i < k <= j implies !((#[trigger] state_at(
            RecordingMode::Remote,
            events,
            k,
        )).step is PollRemote) by {
            if k < j {
                assert(state_at(RecordingMode::Remote, events, k).step != LoopStep::PollRemote);
            }
        }
        lemma_no_input_before_remote(events, i, j);
    }
}

/// When a frame has been drawn, the next round begins: with the socket under
/// remote control, and otherwise with the signal. Under remote control the
/// signal is looked for only once the socket had nothing, and the user's input
/// is always read only once the signal had not come.
pub proof fn law_rounds(state: RecordingLoop, event: LoopEvent)
    ensures
        (state.step == LoopStep::Render || state.step == LoopStep::TogglePause) && event
            == LoopEvent::Done ==> advanced(state, event).step == if state.mode
            == RecordingMode::Remote {
            LoopStep::PollRemote
        } else {
            LoopStep::CheckSignal
        },
        state.mode == RecordingMode::Remote && advanced(state, event).step == LoopStep::CheckSignal
            ==> state.step == LoopStep::CheckSignal || (state.step == LoopStep::PollRemote && event
            == LoopEvent::RemoteIdle),
        advanced(state, event).step == LoopStep::PollInput ==> state.step == LoopStep::CheckSignal
            && event == LoopEvent::Signalled(false),
        state.step == LoopStep::PollRemote && event == LoopEvent::RemoteIdle ==> advanced(
            state,
            event,
        ).step == LoopStep::CheckSignal,
        state.step == LoopStep::CheckSignal && event == LoopEvent::Signalled(false) ==> advanced(
            state,
            event,
        ).step == LoopStep::PollInput,
{
}

/// Every request to end the recording is heeded at once: a remote request with
/// the output that it asks for, the signal, and the user's input. The other
/// input is done, and the recording goes on.
pub proof fn law_requests_are_heeded(state: RecordingLoop, output: Option<RemoteOutputMode>)
    ensures
        state.step == LoopStep::PollRemote ==> ({
            let done = advanced(state, LoopEvent::RemoteComplete(output));
            done.step == LoopStep::Transcribe && done.output_override == output
        }),
        state.step == LoopStep::PollRemote ==> advanced(state, LoopEvent::RemoteCancel).step
            == LoopStep::StartCancel,
        state.step == LoopStep::CheckSignal ==> advanced(state, LoopEvent::Signalled(true)).step
            == LoopStep::Transcribe,
        state.step == LoopStep::PollInput ==> ({
            &&& advanced(state, LoopEvent::Input(RecordingCommand::Transcribe)).step
                == LoopStep::Transcribe
            &&& advanced(state, LoopEvent::Input(RecordingCommand::Cancel)).step
                == LoopStep::StartCancel
            &&& advanced(state, LoopEvent::Input(RecordingCommand::TogglePause)).step
                == LoopStep::TogglePause
            &&& advanced(state, LoopEvent::Input(RecordingCommand::Continue)).step
                == LoopStep::Render
        }),
{
}

/// A recording that is called off fades until the animation is over or the user
/// cancels once more, and is then saved.
pub proof fn law_cancel_fades_then_saves(state: RecordingLoop, event: LoopEvent)
    requires
        answers(event, state.step),
    ensures
        state.step == LoopStep::StartCancel ==> advanced(state, event).step
            == LoopStep::PollCancelInput,
        state.step == LoopStep::PollCancelInput ==> advanced(state, event).step == if event
            == LoopEvent::Input(RecordingCommand::Cancel) {
            LoopStep::SaveOnly
        } else {
            LoopStep::RenderCancel
        },
        state.step == LoopStep::RenderCancel && event == LoopEvent::Animated(true) ==> advanced(
            state,
            event,
        ).step == LoopStep::SaveOnly,
        state.step == LoopStep::RenderCancel && event == LoopEvent::Animated(false) ==> advanced(
            state,
            event,
        ).step == LoopStep::PollCancelInput,
        advanced(state, event).step == LoopStep::SaveOnly ==> is_cancelling(state.step),
{
}

/// The recording is given up exactly where drawing it, or reading the user's
/// input while it runs, has failed. What fails while it fades out is passed
/// over, but for the drawing.
pub proof fn law_loop_failures(state: RecordingLoop, event: LoopEvent)
    requires
        answers(event, state.step),
    ensures
        advanced(state, event).step == LoopStep::Fail <==> (event == LoopEvent::Failed
            && state.step != LoopStep::PollCancelInput),
{
}

/// The output that was asked for stays, and comes from a remote request alone.
pub proof fn law_output_override(state: RecordingLoop, event: LoopEvent)
    ensures
        advanced(state, event).output_override != state.output_override ==> state.step
            == LoopStep::PollRemote && event == LoopEvent::RemoteComplete(
            advanced(state, event).output_override,
        ),
        advanced(state, event).mode == state.mode,
{
}

/// A session begins as every round does, with nothing asked for: under remote
/// control with the socket, and otherwise with the signal.
pub proof fn law_session_begins(mode: RecordingMode)
    ensures
        RecordingLoop::initial(mode).step == if mode == RecordingMode::Remote {
            LoopStep::PollRemote
        } else {
            LoopStep::CheckSignal
        },
        RecordingLoop::initial(mode).output_override is None,
        RecordingLoop::initial(mode).mode == mode,
{
}

} // verus!
