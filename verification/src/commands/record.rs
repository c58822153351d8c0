//! Recording: how a recording is controlled, kept, and handed over.
use crate::commands::output::{output_mode, resolve_output_mode};
use crate::remote::RemoteOutputMode;
use crate::text::{contains, ends_with, law_contains, law_strip, opt_str};
use vstd::prelude::*;
use vstd::string::*;

verus! {

/// How the recorder is controlled.
#[derive(Debug, Clone, Copy, PartialEq, Eq, Structural)]
pub enum RecordingMode {
    /// From the terminal.
    Interactive,
    /// From the terminal and over a socket.
    Remote,
}

/// At what a recording can fail so that the user is shown why.
#[derive(Debug, Clone, Copy, PartialEq, Eq, Structural)]
pub enum FailedPart {
    /// Reading the configuration.
    Configuration,
    /// Listening for remote requests.
    RemoteListener,
    /// Opening the input device.
    Recording,
    /// Handing over the transcription.
    Output,
}

/// Whether the recorder listens for remote requests.
pub fn listens(mode: RecordingMode) -> (r: bool)
    ensures
        r == (mode == RecordingMode::Remote),
{
    match mode {
        RecordingMode::Remote => true,
        RecordingMode::Interactive => false,
    }
}

/// What the user is shown of a failure.
pub open spec fn screen_text(part: FailedPart, error: Seq<char>) -> Seq<char> {
    match part {
        FailedPart::Configuration => "Configuration Error:\n\n"@ + error
            + "\n\nPlease check your ~/.config/ostt/ostt.toml file and try again."@,
        FailedPart::RemoteListener => "Remote Control Error:\n\n"@ + error
            + "\n\nClose any running ostt remote instance and try again."@,
        FailedPart::Recording => "Recording Error:\n\n"@ + error
            + "\n\nPlease check your audio configuration and try again."@,
        FailedPart::Output => "Error: Failed to type transcription.\n\n"@ + error,
    }
}

/// What the user is shown of a failure.
pub fn error_screen(part: FailedPart, error: &str) -> (r: String)
    ensures
        r@ == screen_text(part, error@),
{
    let mut out = match part {
        FailedPart::Configuration => "Configuration Error:\n\n".to_string(),
        FailedPart::RemoteListener => "Remote Control Error:\n\n".to_string(),
        FailedPart::Recording => "Recording Error:\n\n".to_string(),
        FailedPart::Output => "Error: Failed to type transcription.\n\n".to_string(),
    };
    out.append(error);
    match part {
        FailedPart::Configuration => {
            out.append("\n\nPlease check your ~/.config/ostt/ostt.toml file and try again.");
        },
        FailedPart::RemoteListener => {
            out.append("\n\nClose any running ostt remote instance and try again.");
        },
        FailedPart::Recording => {
            out.append("\n\nPlease check your audio configuration and try again.");
        },
        FailedPart::Output => {},
    }
    out
}

/// The error with which the command ends after a failure.
pub open spec fn failure_text(part: FailedPart, error: Seq<char>) -> Seq<char> {
    match part {
        FailedPart::Configuration => "Configuration error: "@ + error,
        FailedPart::RemoteListener => "Remote listener error: "@ + error,
        FailedPart::Recording => error,
        FailedPart::Output => error,
    }
}

/// The error with which the command ends after a failure.
pub fn command_error(part: FailedPart, error: &str) -> (r: String)
    ensures
        r@ == failure_text(part, error@),
{
    match part {
        FailedPart::Configuration => {
            let mut out = "Configuration error: ".to_string();
            out.append(error);
            out
        },
        FailedPart::RemoteListener => {
            let mut out = "Remote listener error: ".to_string();
            out.append(error);
            out
        },
        FailedPart::Recording => error.to_string(),
        FailedPart::Output => error.to_string(),
    }
}

/// What is done with a transcription.
#[derive(Debug, Clone, Copy, PartialEq, Eq, Structural)]
pub enum Delivery {
    /// It is put on the clipboard. Where that fails, the recording has still
    /// succeeded.
    Clipboard,
    /// It is pasted into the focused window, and then shown.
    Paste,
    /// It is put on the clipboard, and typed into the focused window whether or
    /// not that succeeded.
    Type,
}

/// Where a transcription goes.
pub open spec fn delivery_of(
    mode: RecordingMode,
    override_mode: Option<RemoteOutputMode>,
    setting: Option<Seq<char>>,
) -> Delivery {
    match mode {
        RecordingMode::Interactive => Delivery::Clipboard,
        RecordingMode::Remote => match override_mode {
            Some(RemoteOutputMode::Paste) => Delivery::Paste,
            Some(RemoteOutputMode::Type) => Delivery::Type,
            None => match output_mode(setting) {
                RemoteOutputMode::Paste => Delivery::Paste,
                RemoteOutputMode::Type => Delivery::Type,
            },
        },
    }
}

/// What is done with the transcription: without remote control it goes to the
/// clipboard, and with it where the request or else the setting says.
pub fn delivery(
    mode: RecordingMode,
    override_mode: Option<RemoteOutputMode>,
    setting: Option<&str>,
) -> (r: Delivery)
    ensures
        r == delivery_of(mode, override_mode, opt_str(setting)),
{
    match mode {
        RecordingMode::Interactive => Delivery::Clipboard,
        RecordingMode::Remote => match resolve_output_mode(override_mode, setting) {
            RemoteOutputMode::Paste => Delivery::Paste,
            RemoteOutputMode::Type => Delivery::Type,
        },
    }
}

/// What became of a recording once it was over.
#[derive(Debug)]
pub enum RecordOutcome {
    /// It was called off, and saved.
    Saved,
    /// It was called off, and could not be saved, for this reason.
    NotSaved(String),
    /// There is no transcription, for this reason.
    NotTranscribed(String),
    /// The transcription was handed over.
    Delivered,
    /// The transcription could not be handed over, for this reason.
    NotDelivered(String),
}

/// What became of a recording, with its texts as sequences of characters.
pub enum OutcomeModel {
    Saved,
    NotSaved(Seq<char>),
    NotTranscribed(Seq<char>),
    Delivered,
    NotDelivered(Seq<char>),
}

impl View for RecordOutcome {
    type V = OutcomeModel;

    open spec fn view(&self) -> OutcomeModel {
        match self {
            RecordOutcome::Saved => OutcomeModel::Saved,
            RecordOutcome::NotSaved(error) => OutcomeModel::NotSaved(error@),
            RecordOutcome::NotTranscribed(error) => OutcomeModel::NotTranscribed(error@),
            RecordOutcome::Delivered => OutcomeModel::Delivered,
            RecordOutcome::NotDelivered(error) => OutcomeModel::NotDelivered(error@),
        }
    }
}

/// What a delivery comes to: a clipboard that cannot be reached does no harm.
pub fn delivery_outcome(delivery: Delivery, attempt: Result<(), String>) -> (r: RecordOutcome)
    ensures
        r@ == match (delivery, attempt) {
            (Delivery::Clipboard, _) => OutcomeModel::Delivered,
            (_, Ok(_)) => OutcomeModel::Delivered,
            (_, Err(error)) => OutcomeModel::NotDelivered(error@),
        },
{
    match (delivery, attempt) {
        (Delivery::Clipboard, _) => RecordOutcome::Delivered,
        (_, Ok(_)) => RecordOutcome::Delivered,
        (_, Err(error)) => RecordOutcome::NotDelivered(error),
    }
}

/// How the command ends.
#[derive(Debug)]
pub enum RecordEnding {
    /// It succeeds.
    Success,
    /// It succeeds, after this warning.
    Warning(String),
    /// It fails with this error.
    Error(String),
    /// It shows a screen, and fails with an error.
    Failure { screen: String, error: String },
}

/// How the command ends, with its texts as sequences of characters.
pub enum EndingModel {
    Success,
    Warning(Seq<char>),
    Error(Seq<char>),
    Failure { screen: Seq<char>, error: Seq<char> },
}

impl View for RecordEnding {
    type V = EndingModel;

    open spec fn view(&self) -> EndingModel {
        match self {
            RecordEnding::Success => EndingModel::Success,
            RecordEnding::Warning(text) => EndingModel::Warning(text@),
            RecordEnding::Error(error) => EndingModel::Error(error@),
            RecordEnding::Failure { screen, error } => EndingModel::Failure {
                screen: screen@,
                error: error@,
            },
        }
    }
}

/// How the command ends: a recording that could not be transcribed is only a
/// warning, one that could not be saved is an error, and a transcription that
/// could not be handed over is shown to the user as well.
pub open spec fn ending_of(outcome: OutcomeModel) -> EndingModel {
    match outcome {
        OutcomeModel::Saved => EndingModel::Success,
        OutcomeModel::Delivered => EndingModel::Success,
        OutcomeModel::NotSaved(error) => EndingModel::Error(error),
        OutcomeModel::NotTranscribed(error) => EndingModel::Warning(
            "Warning: Transcription failed: "@ + error,
        ),
        OutcomeModel::NotDelivered(error) => EndingModel::Failure {
            screen: screen_text(FailedPart::Output, error),
            error: failure_text(FailedPart::Output, error),
        },
    }
}

/// Decides how the command ends.
pub fn record_ending(outcome: &RecordOutcome) -> (r: RecordEnding)
    ensures
        r@ == ending_of(outcome@),
{
    match outcome {
        RecordOutcome::Saved => RecordEnding::Success,
        RecordOutcome::Delivered => RecordEnding::Success,
        RecordOutcome::NotSaved(error) => RecordEnding::Error(error.clone()),
        RecordOutcome::NotTranscribed(error) => {
            let mut text = "Warning: Transcription failed: ".to_string();
            text.append(error.as_str());
            RecordEnding::Warning(text)
        },
        RecordOutcome::NotDelivered(error) => RecordEnding::Failure {
            screen: error_screen(FailedPart::Output, error.as_str()),
            error: command_error(FailedPart::Output, error.as_str()),
        },
    }
}

/// The command fails exactly where the recording could not be saved or the
/// transcription could not be handed over.
pub proof fn law_record_fails(outcome: OutcomeModel)
    ensures
        (ending_of(outcome) is Error || ending_of(outcome) is Failure) <==> (outcome is NotSaved
            || outcome is NotDelivered),
{
}

/// A transcription goes to the clipboard exactly where the recording was made at
/// the terminal. Under remote control it goes where the request asks, whatever
/// is set, and otherwise where is set.
pub proof fn law_delivery(
    mode: RecordingMode,
    asked: Option<RemoteOutputMode>,
    setting: Option<Seq<char>>,
    other: Option<Seq<char>>,
)
    ensures
        delivery_of(mode, asked, setting) == Delivery::Clipboard <==> mode
            == RecordingMode::Interactive,
        asked is Some ==> delivery_of(mode, asked, setting) == delivery_of(mode, asked, other),
        mode == RecordingMode::Remote ==> (delivery_of(mode, asked, setting) == Delivery::Type <==> (
        asked == Some(RemoteOutputMode::Type) || (asked is None && output_mode(setting)
            == RemoteOutputMode::Type))),
{
}

/// Whatever fails, the user is told what was wrong: on the screen and in the
/// error of the command.
pub proof fn law_failures_tell_the_error(part: FailedPart, error: Seq<char>)
    ensures
        contains(screen_text(part, error), error),
        ends_with(failure_text(part, error), error),
        part == FailedPart::Recording || part == FailedPart::Output ==> failure_text(part, error)
            == error,
{
    let empty = Seq::<char>::empty();
    match part {
        FailedPart::Configuration => {
            let rest = "\n\nPlease check your ~/.config/ostt/ostt.toml file and try again."@;
            law_contains("Configuration Error:\n\n"@, error, rest, error);
            law_strip(failure_text(part, error), error, "Configuration error: "@);
        },
        FailedPart::RemoteListener => {
            let rest = "\n\nClose any running ostt remote instance and try again."@;
            law_contains("Remote Control Error:\n\n"@, error, rest, error);
            law_strip(failure_text(part, error), error, "Remote listener error: "@);
        },
        FailedPart::Recording => {
            let rest = "\n\nPlease check your audio configuration and try again."@;
            law_contains("Recording Error:\n\n"@, error, rest, error);
            assert(error =~= empty + error);
            law_strip(error, error, empty);
        },
        FailedPart::Output => {
            let head = "Error: Failed to type transcription.\n\n"@;
            law_contains(head, error, empty, error);
            assert(head + error + empty =~= head + error);
            assert(error =~= empty + error);
            law_strip(error, error, empty);
        },
    }
}

/// A recording that could not be saved, transcribed or handed over ends with the
/// reason.
pub proof fn law_ending_tells_the_error(error: Seq<char>)
    ensures
        ending_of(OutcomeModel::NotSaved(error)) == EndingModel::Error(error),
        ending_of(OutcomeModel::NotTranscribed(error)) matches EndingModel::Warning(text)
            && ends_with(text, error),
        ending_of(OutcomeModel::NotDelivered(error)) matches EndingModel::Failure {
            screen,
            error: told,
        } && contains(screen, error) && told == error,
{
    law_strip(
        "Warning: Transcription failed: "@ + error,
        error,
        "Warning: Transcription failed: "@,
    );
    law_failures_tell_the_error(FailedPart::Output, error);
}

} // verus!
