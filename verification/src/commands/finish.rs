//! From a finished recording to its transcription, step by step.
//!
//! Each step says what is to be done. Whoever does it reports what came of it.
use crate::commands::transcript::{
    after_history, finalize_report, law_reports, saving_report, transcribing_report,
    transcription_report, FailureModel, FailureReport, HistoryOutcome, SuccessModel, TaskResult,
};
use crate::text::{ends_with, opt_text};
use vstd::prelude::*;

verus! {

/// What is to be done next.
#[derive(Debug)]
pub enum FinishStep {
    /// Save the recording.
    Save,
    /// See that the recording is there, and begin its transcription.
    Start,
    /// Transcribe the recording.
    Transcribe,
    /// Note this transcription in the history.
    NoteHistory(String),
    /// Nothing: this is the transcription.
    Done(String),
    /// Nothing: there is no transcription, for this reason.
    Failed(String),
}

/// What came of a step.
#[derive(Debug)]
pub enum FinishEvent {
    /// What the task that saves the recording came to.
    Saved(TaskResult),
    /// Whether the transcription could begin.
    Started(Result<(), String>),
    /// What the task that transcribes the recording came to.
    Transcribed(TaskResult),
    /// What became of the entry in the history.
    Noted(HistoryOutcome),
}

/// A step, with its text as a sequence of characters.
pub enum FinishModel {
    Save,
    Start,
    Transcribe,
    NoteHistory(Seq<char>),
    Done(Seq<char>),
    Failed(Seq<char>),
}

impl View for FinishStep {
    type V = FinishModel;

    open spec fn view(&self) -> FinishModel {
        match self {
            FinishStep::Save => FinishModel::Save,
            FinishStep::Start => FinishModel::Start,
            FinishStep::Transcribe => FinishModel::Transcribe,
            FinishStep::NoteHistory(text) => FinishModel::NoteHistory(text@),
            FinishStep::Done(text) => FinishModel::Done(text@),
            FinishStep::Failed(error) => FinishModel::Failed(error@),
        }
    }
}

/// The next step, and what is told on the way to it.
#[derive(Debug)]
pub struct FinishMove {
    pub next: FinishStep,
    /// What the log notes.
    pub log: Option<String>,
    /// What the user is shown.
    pub screen: Option<String>,
}

/// A move, with its texts as sequences of characters.
pub struct MoveModel {
    pub next: FinishModel,
    pub log: Option<Seq<char>>,
    pub screen: Option<Seq<char>>,
}

impl View for FinishMove {
    type V = MoveModel;

    open spec fn view(&self) -> MoveModel {
        MoveModel {
            next: self.next@,
            log: opt_text(self.log),
            screen: opt_text(self.screen),
        }
    }
}

/// A move about which nothing is told.
pub open spec fn silent(next: FinishModel) -> MoveModel {
    MoveModel { next, log: None, screen: None }
}

/// The move after a task: on to the next step, or to the end where the task
/// has failed.
pub open spec fn task_move(
    report: Result<SuccessModel, FailureModel>,
    next: FinishModel,
) -> MoveModel {
    match report {
        Ok(success) => MoveModel { next, log: Some(success.log), screen: None },
        Err(failure) => MoveModel {
            next: FinishModel::Failed(failure.error),
            log: Some(failure.log),
            screen: Some(failure.screen),
        },
    }
}

/// The move after a step for which `event` is reported. A report on another
/// step changes nothing.
pub open spec fn finish_move(step: FinishModel, event: FinishEvent) -> MoveModel {
    match (step, event) {
        (FinishModel::Save, FinishEvent::Saved(task)) => task_move(
            saving_report(task),
            FinishModel::Start,
        ),
        (FinishModel::Start, FinishEvent::Started(Ok(_))) => silent(FinishModel::Transcribe),
        (FinishModel::Start, FinishEvent::Started(Err(error))) => silent(
            FinishModel::Failed(error@),
        ),
        (FinishModel::Transcribe, FinishEvent::Transcribed(task)) => task_move(
            transcribing_report(task),
            match task {
                TaskResult::Done(text) => FinishModel::NoteHistory(text@),
                _ => step,
            },
        ),
        (FinishModel::NoteHistory(text), FinishEvent::Noted(outcome)) => silent(
            match outcome {
                HistoryOutcome::NotOpened(error) => FinishModel::Failed(error@),
                _ => FinishModel::Done(text),
            },
        ),
        _ => silent(step),
    }
}

/// The move to the end after a task has failed.
fn failed(report: FailureReport) -> (r: FinishMove)
    ensures
        r@ == (MoveModel {
            next: FinishModel::Failed(report@.error),
            log: Some(report@.log),
            screen: Some(report@.screen),
        }),
{
    FinishMove {
        next: FinishStep::Failed(report.error),
        log: Some(report.log),
        screen: Some(report.screen),
    }
}

impl FinishStep {
    /// The move after this step, for which `event` is reported.
    pub fn advance(self, event: FinishEvent) -> (r: FinishMove)
        ensures
            r@ == finish_move(self@, event),
    {
        match (self, event) {
            (FinishStep::Save, FinishEvent::Saved(task)) => match finalize_report(task) {
                Ok(report) => FinishMove {
                    next: FinishStep::Start,
                    log: Some(report.log),
                    screen: None,
                },
                Err(report) => failed(report),
            },
            (FinishStep::Start, FinishEvent::Started(Ok(_))) => FinishMove {
                next: FinishStep::Transcribe,
                log: None,
                screen: None,
            },
            (FinishStep::Start, FinishEvent::Started(Err(error))) => FinishMove {
                next: FinishStep::Failed(error),
                log: None,
                screen: None,
            },
            (FinishStep::Transcribe, FinishEvent::Transcribed(task)) => match transcription_report(
                task,
            ) {
                Ok(report) => FinishMove {
                    next: FinishStep::NoteHistory(report.text),
                    log: Some(report.log),
                    screen: None,
                },
                Err(report) => failed(report),
            },
            (FinishStep::NoteHistory(text), FinishEvent::Noted(outcome)) => match after_history(
                text,
                outcome,
            ) {
                Ok(kept) => FinishMove { next: FinishStep::Done(kept), log: None, screen: None },
                Err(error) => FinishMove {
                    next: FinishStep::Failed(error),
                    log: None,
                    screen: None,
                },
            },
            (step, _) => FinishMove { next: step, log: None, screen: None },
        }
    }
}

/// The step reached after a series of reports.
pub open spec fn finish_run(step: FinishModel, events: Seq<FinishEvent>) -> FinishModel
    decreases events.len(),
{
    if events.len() == 0 {
        step
    } else {
        finish_move(finish_run(step, events.drop_last()), events.last()).next
    }
}

/// Whether it is reported that the recording has been saved.
pub open spec fn reports_saved(event: FinishEvent) -> bool {
    event matches FinishEvent::Saved(task) && task is Done
}

/// The transcription that is reported, where one is.
pub open spec fn reported_text(event: FinishEvent) -> Option<Seq<char>> {
    match event {
        FinishEvent::Transcribed(TaskResult::Done(text)) => Some(text@),
        _ => None,
    }
}

/// Whether it is reported that the history could be opened.
pub open spec fn reports_history(event: FinishEvent) -> bool {
    event matches FinishEvent::Noted(outcome) && !(outcome is NotOpened)
}

/// The end is final.
pub proof fn law_finish_is_final(step: FinishModel, events: Seq<FinishEvent>)
    requires
        step is Done || step is Failed,
    ensures
        finish_run(step, events) == step,
    decreases events.len(),
{
    if events.len() > 0 {
        law_finish_is_final(step, events.drop_last());
    }
}

/// A recording that could not be saved is never transcribed, nor noted in the
/// history, whatever is reported afterwards.
pub proof fn law_unsaved_is_not_transcribed(task: TaskResult, events: Seq<FinishEvent>)
    requires
        !(task is Done),
    ensures
        finish_run(finish_move(FinishModel::Save, FinishEvent::Saved(task)).next, events) is Failed,
{
    law_finish_is_final(finish_move(FinishModel::Save, FinishEvent::Saved(task)).next, events);
}

/// Nothing but the report that the recording has been saved leads beyond its
/// saving.
pub proof fn law_saved_before_transcribed(events: Seq<FinishEvent>)
    ensures
        ({
            let step = finish_run(FinishModel::Save, events);
            step is Save || step is Failed || exists|i: int|
                0 <= i < events.len() && reports_saved(#[trigger] events[i])
        }),
    decreases events.len(),
{
    if events.len() > 0 {
        let init = events.drop_last();
        law_saved_before_transcribed(init);
        let step = finish_run(FinishModel::Save, init);
        if step is Save || step is Failed {
            let last = events[events.len() - 1];
            assert(last == events.last());
        } else {
            let i = choose|i: int| 0 <= i < init.len() && reports_saved(#[trigger] init[i]);
            assert(events[i] == init[i]);
        }
    }
}

/// The history is given a text exactly where the transcription has succeeded,
/// and then that transcription; and what is handed on is what it was given.
pub proof fn law_history_gains_the_transcription(
    step: FinishModel,
    event: FinishEvent,
    text: Seq<char>,
)
    ensures
        !(step is NoteHistory) ==> (finish_move(step, event).next == FinishModel::NoteHistory(text)
            <==> (step is Transcribe && reported_text(event) == Some(text))),
        !(step is Done) ==> (finish_move(step, event).next == FinishModel::Done(text) <==> (step
            == FinishModel::NoteHistory(text) && reports_history(event))),
{
}

/// Reported in order, the four steps reach the history exactly where the
/// recording was saved, its transcription could begin and succeeded; and they
/// give the transcription exactly where moreover the history could be opened.
pub proof fn law_finish(
    saved: TaskResult,
    started: Result<(), String>,
    transcribed: TaskResult,
    noted: HistoryOutcome,
)
    ensures
        ({
            let a = finish_move(FinishModel::Save, FinishEvent::Saved(saved)).next;
            let b = finish_move(a, FinishEvent::Started(started)).next;
            let c = finish_move(b, FinishEvent::Transcribed(transcribed)).next;
            let d = finish_move(c, FinishEvent::Noted(noted)).next;
            &&& c is NoteHistory <==> (saved is Done && started is Ok && transcribed is Done)
            &&& c matches FinishModel::NoteHistory(text) ==> text == transcribed->Done_0@
            &&& d is Done <==> (c is NoteHistory && !(noted is NotOpened))
            &&& d matches FinishModel::Done(text) ==> text == transcribed->Done_0@
            &&& d is Done || d is Failed
        }),
{
}

/// A step that fails ends everything with its own error, which is shown and
/// logged with the reason.
pub proof fn law_finish_errors(error: String, step: FinishModel)
    requires
        step == FinishModel::Save || step == FinishModel::Transcribe,
    ensures
        ({
            let failed = TaskResult::Failed(error);
            let crashed = TaskResult::Crashed(error);
            let (a, b) = if step == FinishModel::Save {
                (
                    finish_move(step, FinishEvent::Saved(failed)),
                    finish_move(step, FinishEvent::Saved(crashed)),
                )
            } else {
                (
                    finish_move(step, FinishEvent::Transcribed(failed)),
                    finish_move(step, FinishEvent::Transcribed(crashed)),
                )
            };
            &&& a.next == FinishModel::Failed(error@)
            &&& a.screen matches Some(text) && ends_with(text, error@)
            &&& a.log matches Some(text) && ends_with(text, error@)
            &&& b.next matches FinishModel::Failed(text) && ends_with(text, error@)
            &&& b.screen matches Some(text) && ends_with(text, error@)
            &&& b.log matches Some(text) && ends_with(text, error@)
        }),
{
    law_reports(error);
}

/// A step answers its own event only: any other leaves it where it is.
pub proof fn law_finish_waits(step: FinishModel, event: FinishEvent)
    ensures
        step == FinishModel::Save && !(event is Saved) ==> finish_move(step, event).next == step,
        step == FinishModel::Start && !(event is Started) ==> finish_move(step, event).next == step,
        step == FinishModel::Transcribe && !(event is Transcribed) ==> finish_move(step, event).next
            == step,
        step is NoteHistory && !(event is Noted) ==> finish_move(step, event).next == step,
{
}

} // verus!
