//! The transcription of a recording by a helper program.
use crate::outside::{
    from_utf8, from_utf8_lossy, rfc3339_utc, utc_rfc3339, utf8_error_text, utf8_lossy, UtcTime,
};
use crate::text::{
    contains, decimal, decimal_text, ends_with, is_whitespace, law_contains, law_strip, law_trim,
    matches_at, opt_str, starts_with, texts, trim, trimmed,
};
use vstd::prelude::*;
use vstd::string::*;
use vstd::utf8::{decode_utf8, valid_utf8};

verus! {

/// How long the helper program may use its own cache.
pub const CONTEXTUALIZE_CACHE_TTL: &'static str = "7d";

/// The arguments of the helper program for a recording.
pub open spec fn contextualize_args(audio: Seq<char>, keywords: Option<Seq<char>>) -> Seq<
    Seq<char>,
> {
    let head = seq!["--verbose"@, "cat"@, "-f"@, "raw"@, "--cache-ttl"@, CONTEXTUALIZE_CACHE_TTL@];
    let prompt = match keywords {
        Some(path) => seq!["--transcribe-prompt-file"@, path],
        None => Seq::empty(),
    };
    head + prompt + seq![audio]
}

/// Builds the arguments of the helper program, with the keywords file where
/// there is one.
pub fn build_contextualize_args(audio_path: &str, keywords_path: Option<&str>) -> (r: Vec<String>)
    ensures
        texts(r@) == contextualize_args(audio_path@, opt_str(keywords_path)),
{
    let mut args: Vec<String> = Vec::new();
    args.push("--verbose".to_string());
    args.push("cat".to_string());
    args.push("-f".to_string());
    args.push("raw".to_string());
    args.push("--cache-ttl".to_string());
    args.push(CONTEXTUALIZE_CACHE_TTL.to_string());
    if let Some(path) = keywords_path {
        args.push("--transcribe-prompt-file".to_string());
        args.push(path.to_string());
    }
    args.push(audio_path.to_string());
    assert(texts(args@) =~= contextualize_args(audio_path@, opt_str(keywords_path)));
    args
}

/// How a program ended.
#[derive(Debug)]
pub struct ExitState {
    pub success: bool,
    /// The system's words for the exit status.
    pub text: String,
}

/// What the output of the helper program amounts to: the transcript, or what
/// to tell the user.
///
/// `decoded` is the standard output as text, or why it is no text; `said` is
/// what the program reported on standard error.
pub open spec fn transcript_result(
    program: Seq<char>,
    decoded: Result<Seq<char>, Seq<char>>,
    said: Seq<char>,
    success: bool,
    status: Seq<char>,
) -> Result<Seq<char>, Seq<char>> {
    if !success {
        if said.len() == 0 {
            Err(program + " exited with status "@ + status)
        } else {
            Err(program + " failed: "@ + said)
        }
    } else {
        match decoded {
            Err(error) => Err(program + " returned invalid UTF-8 on stdout: "@ + error),
            Ok(text) => if trim(text).len() > 0 {
                Ok(trim(text))
            } else if said.len() == 0 {
                Err(program + " returned no transcript."@)
            } else {
                Err(program + " returned no transcript. "@ + said)
            },
        }
    }
}

/// A result, with its texts as sequences of characters.
pub open spec fn result_text(r: Result<String, String>) -> Result<Seq<char>, Seq<char>> {
    match r {
        Ok(t) => Ok(t@),
        Err(t) => Err(t@),
    }
}

/// Standard output as text, or why it is no text.
pub open spec fn decoded_output(bytes: Seq<u8>) -> Result<Seq<char>, Seq<char>> {
    if valid_utf8(bytes) {
        Ok(decode_utf8(bytes))
    } else {
        Err(utf8_error_text(bytes))
    }
}

/// Decides what the output of the helper program amounts to.
pub fn transcript_from(
    program: &str,
    decoded: &Result<String, String>,
    said: &str,
    status: &ExitState,
) -> (r: Result<String, String>)
    ensures
        result_text(r) == transcript_result(
            program@,
            result_text(*decoded),
            said@,
            status.success,
            status.text@,
        ),
        r is Ok ==> status.success && decoded is Ok,
        (r, *decoded) matches (Ok(t), Ok(text)) ==> exists|i: int, j: int|
            #![trigger text@.subrange(i, j)]
            {
                &&& 0 <= i < j <= text@.len()
                &&& t@ == text@.subrange(i, j)
                &&& forall|k: int| 0 <= k < i ==> is_whitespace(#[trigger] text@[k])
                &&& forall|k: int| j <= k < text@.len() ==> is_whitespace(#[trigger] text@[k])
            },
{
    let mut message = program.to_string();
    if !status.success {
        if said.is_empty() {
            message.append(" exited with status ");
            message.append(status.text.as_str());
        } else {
            message.append(" failed: ");
            message.append(said);
        }
        return Err(message);
    }
    match decoded {
        Err(error) => {
            message.append(" returned invalid UTF-8 on stdout: ");
            message.append(error.as_str());
            Err(message)
        },
        Ok(text) => {
            let transcript = trimmed(text.as_str());
            if !transcript.as_str().is_empty() {
                proof {
                    law_trim(text@);
                }
                return Ok(transcript);
            }
            if said.is_empty() {
                message.append(" returned no transcript.");
            } else {
                message.append(" returned no transcript. ");
                message.append(said);
            }
            Err(message)
        },
    }
}

/// What a program reported on standard error, without the white space around it.
pub fn stderr_text(stderr: &[u8]) -> (r: String)
    ensures
        r@ == trim(utf8_lossy(stderr@)),
        valid_utf8(stderr@) ==> r@ == trim(decode_utf8(stderr@)),
{
    let raw = from_utf8_lossy(stderr);
    trimmed(raw.as_str())
}

/// Reads the output of the helper program.
pub fn parse_transcription_output(
    program: &str,
    stdout: &[u8],
    stderr: &[u8],
    status: &ExitState,
) -> (r: Result<String, String>)
    ensures
        result_text(r) == transcript_result(
            program@,
            decoded_output(stdout@),
            trim(utf8_lossy(stderr@)),
            status.success,
            status.text@,
        ),
        valid_utf8(stderr@) ==> result_text(r) == transcript_result(
            program@,
            decoded_output(stdout@),
            trim(decode_utf8(stderr@)),
            status.success,
            status.text@,
        ),
{
    let said = stderr_text(stderr);
    let decoded = from_utf8(stdout);
    transcript_from(program, &decoded, said.as_str(), status)
}

/// What became of the helper program.
#[derive(Debug)]
pub enum CommandOutcome {
    /// It did not end in time.
    TimedOut,
    /// There is no such program; the system's error is given.
    NotFound(String),
    /// It could not be started; the system's error is given.
    NotStarted(String),
    /// It ended.
    Finished { stdout: Vec<u8>, stderr: Vec<u8>, status: ExitState },
}

/// A timeout as it is reported: at least one second.
pub open spec fn reported_timeout(seconds: nat) -> nat {
    if seconds < 1 {
        1
    } else {
        seconds
    }
}

/// The transcript that a run of the helper program gave, or what to tell the user.
pub open spec fn command_result(
    program: Seq<char>,
    timeout_seconds: nat,
    outcome: CommandOutcome,
) -> Result<Seq<char>, Seq<char>> {
    match outcome {
        CommandOutcome::TimedOut => Err(
            program + " timed out after "@ + decimal(reported_timeout(timeout_seconds))
                + "s. Set OSTT_CONTEXTUALIZE_TIMEOUT_SECONDS to allow longer transcriptions."@,
        ),
        CommandOutcome::NotFound(_) => Err(
            "Could not find '"@ + program
                + "' on PATH. Install contextualize before recording."@,
        ),
        CommandOutcome::NotStarted(error) => Err(
            "Failed to run '"@ + program + "': "@ + error@,
        ),
        CommandOutcome::Finished { stdout, stderr, status } => transcript_result(
            program,
            decoded_output(stdout@),
            trim(utf8_lossy(stderr@)),
            status.success,
            status.text@,
        ),
    }
}

/// Decides what a run of the helper program gave.
pub fn run_transcription_command(
    program: &str,
    timeout_seconds: u64,
    outcome: &CommandOutcome,
) -> (r: Result<String, String>)
    ensures
        result_text(r) == command_result(program@, timeout_seconds as nat, *outcome),
        outcome matches CommandOutcome::Finished { stdout, stderr, status } ==> (valid_utf8(
            stderr@,
        ) ==> result_text(r) == transcript_result(
            program@,
            decoded_output(stdout@),
            trim(decode_utf8(stderr@)),
            status.success,
            status.text@,
        )),
{
    match outcome {
        CommandOutcome::TimedOut => {
            let seconds: u64 = if timeout_seconds < 1 {
                1
            } else {
                timeout_seconds
            };
            let mut message = program.to_string();
            message.append(" timed out after ");
            let n = decimal_text(seconds as u128);
            message.append(n.as_str());
            message.append(
                "s. Set OSTT_CONTEXTUALIZE_TIMEOUT_SECONDS to allow longer transcriptions.",
            );
            Err(message)
        },
        CommandOutcome::NotFound(_) => {
            let mut message = "Could not find '".to_string();
            message.append(program);
            message.append("' on PATH. Install contextualize before recording.");
            Err(message)
        },
        CommandOutcome::NotStarted(error) => {
            let mut message = "Failed to run '".to_string();
            message.append(program);
            message.append("': ");
            message.append(error.as_str());
            Err(message)
        },
        CommandOutcome::Finished { stdout, stderr, status } => {
            parse_transcription_output(program, stdout, stderr, status)
        },
    }
}

/// A transcript is never empty, and has no white space around it.
pub proof fn law_transcript_is_trimmed(
    program: Seq<char>,
    timeout_seconds: nat,
    outcome: CommandOutcome,
)
    ensures
        command_result(program, timeout_seconds, outcome) matches Ok(t) ==> t.len() > 0 && trim(t)
            == t,
{
    if let CommandOutcome::Finished { stdout, .. } = outcome {
        crate::text::law_trim_idempotent(decode_utf8(stdout@));
    }
}

/// A transcript is given only by a program that ended successfully and printed
/// text.
pub proof fn law_transcript_needs_success(
    program: Seq<char>,
    timeout_seconds: nat,
    outcome: CommandOutcome,
)
    ensures
        command_result(program, timeout_seconds, outcome) is Ok <==> (outcome matches
            CommandOutcome::Finished { stdout, stderr, status } && status.success && valid_utf8(
            stdout@,
        ) && trim(decode_utf8(stdout@)).len() > 0),
{
}

/// The beginning of the log of a transcription.
pub open spec fn log_header(
    timestamp: Seq<char>,
    audio_path: Seq<char>,
    program: Seq<char>,
    timeout_seconds: nat,
    whisper_url: Seq<char>,
    whisper_api_base: Seq<char>,
    whisper_model: Seq<char>,
) -> Seq<char> {
    "timestamp="@ + timestamp + "\naudio_path="@ + audio_path + "\ncontextualize_bin="@ + program
        + "\ncontextualize_timeout_seconds="@ + decimal(timeout_seconds) + "\nwhisper_url="@
        + whisper_url + "\nwhisper_api_base="@ + whisper_api_base + "\nwhisper_model="@
        + whisper_model + "\n"@
}

/// The settings of the transcription service that the log mentions. Those that
/// are not set are empty.
#[derive(Debug)]
pub struct WhisperSettings {
    pub url: String,
    pub api_base: String,
    pub model: String,
}

/// Writes the beginning of the log of a transcription.
pub fn reset_transcription_debug_log(
    now: UtcTime,
    audio_path: &str,
    program: &str,
    timeout_seconds: u64,
    whisper: &WhisperSettings,
) -> (r: String)
    requires
        now.valid(),
    ensures
        r@ == log_header(
            utc_rfc3339(now.secs, now.nanos),
            audio_path@,
            program@,
            timeout_seconds as nat,
            whisper.url@,
            whisper.api_base@,
            whisper.model@,
        ),
{
    let timestamp = rfc3339_utc(now);
    log_header_text(timestamp.as_str(), audio_path, program, timeout_seconds, whisper)
}

/// Writes the beginning of the log of a transcription, given the time in words.
pub fn log_header_text(
    timestamp: &str,
    audio_path: &str,
    program: &str,
    timeout_seconds: u64,
    whisper: &WhisperSettings,
) -> (r: String)
    ensures
        r@ == log_header(
            timestamp@,
            audio_path@,
            program@,
            timeout_seconds as nat,
            whisper.url@,
            whisper.api_base@,
            whisper.model@,
        ),
{
    let mut out = "timestamp=".to_string();
    out.append(timestamp);
    out.append("\naudio_path=");
    out.append(audio_path);
    out.append("\ncontextualize_bin=");
    out.append(program);
    out.append("\ncontextualize_timeout_seconds=");
    let n = decimal_text(timeout_seconds as u128);
    out.append(n.as_str());
    out.append("\nwhisper_url=");
    out.append(whisper.url.as_str());
    out.append("\nwhisper_api_base=");
    out.append(whisper.api_base.as_str());
    out.append("\nwhisper_model=");
    out.append(whisper.model.as_str());
    out.append("\n");
    out
}

/// An entry of the log: the time, and what is noted.
pub open spec fn log_entry(timestamp: Seq<char>, message: Seq<char>) -> Seq<char> {
    timestamp + " "@ + message + "\n"@
}

/// Writes an entry of the log of a transcription.
pub fn append_transcription_debug_log(now: UtcTime, message: &str) -> (r: String)
    requires
        now.valid(),
    ensures
        r@ == log_entry(utc_rfc3339(now.secs, now.nanos), message@),
{
    let timestamp = rfc3339_utc(now);
    log_entry_text(timestamp.as_str(), message)
}

/// Writes an entry of the log of a transcription, given the time in words.
pub fn log_entry_text(timestamp: &str, message: &str) -> (r: String)
    ensures
        r@ == log_entry(timestamp@, message@),
{
    let mut out = timestamp.to_string();
    out.append(" ");
    out.append(message);
    out.append("\n");
    out
}

/// Yes or no, in the words of the log.
pub open spec fn truth_word(b: bool) -> Seq<char> {
    if b {
        "true"@
    } else {
        "false"@
    }
}

/// What the log notes of a run of the helper program.
pub open spec fn outcome_entries(
    program: Seq<char>,
    timeout_seconds: nat,
    outcome: CommandOutcome,
    said: Seq<char>,
) -> Seq<Seq<char>> {
    match outcome {
        CommandOutcome::TimedOut => seq![
            "phase=subprocess-timeout program="@ + program + " timeout_seconds="@ + decimal(
                reported_timeout(timeout_seconds),
            ),
        ],
        CommandOutcome::NotFound(error) | CommandOutcome::NotStarted(error) => seq![
            "phase=subprocess-spawn-error program="@ + program + " error="@ + error@,
        ],
        CommandOutcome::Finished { stdout, stderr, status } => {
            let exit = "phase=subprocess-exit success="@ + truth_word(status.success) + " status="@
                + status.text@ + " stdout_bytes="@ + decimal(stdout@.len()) + " stderr_bytes="@
                + decimal(stderr@.len());
            if said.len() == 0 {
                seq![exit]
            } else {
                seq![exit, "stderr="@ + said]
            }
        },
    }
}

/// Writes what the log notes of a run of the helper program.
pub fn outcome_log(program: &str, timeout_seconds: u64, outcome: &CommandOutcome) -> (r: Vec<String>)
    ensures
        texts(r@) == outcome_entries(
            program@,
            timeout_seconds as nat,
            *outcome,
            match outcome {
                CommandOutcome::Finished { stderr, .. } => trim(utf8_lossy(stderr@)),
                _ => Seq::empty(),
            },
        ),
        outcome matches CommandOutcome::Finished { stderr, .. } ==> (valid_utf8(stderr@) ==> texts(r@)
            == outcome_entries(
            program@,
            timeout_seconds as nat,
            *outcome,
            trim(decode_utf8(stderr@)),
        )),
{
    let said = match outcome {
        CommandOutcome::Finished { stderr, .. } => stderr_text(stderr),
        _ => String::new(),
    };
    outcome_lines(program, timeout_seconds, outcome, said.as_str())
}

/// Writes what the log notes of a run of the helper program, given what it
/// reported on standard error.
pub fn outcome_lines(
    program: &str,
    timeout_seconds: u64,
    outcome: &CommandOutcome,
    said: &str,
) -> (r: Vec<String>)
    ensures
        texts(r@) == outcome_entries(program@, timeout_seconds as nat, *outcome, said@),
{
    let mut out: Vec<String> = Vec::new();
    match outcome {
        CommandOutcome::TimedOut => {
            let seconds: u64 = if timeout_seconds < 1 {
                1
            } else {
                timeout_seconds
            };
            let mut line = joined("phase=subprocess-timeout program=", program);
            line.append(" timeout_seconds=");
            let n = decimal_text(seconds as u128);
            line.append(n.as_str());
            out.push(line);
        },
        CommandOutcome::NotFound(error) => {
            let mut line = joined("phase=subprocess-spawn-error program=", program);
            line.append(" error=");
            line.append(error.as_str());
            out.push(line);
        },
        CommandOutcome::NotStarted(error) => {
            let mut line = joined("phase=subprocess-spawn-error program=", program);
            line.append(" error=");
            line.append(error.as_str());
            out.push(line);
        },
        CommandOutcome::Finished { stdout, stderr, status } => {
            let mut line = if status.success {
                joined("phase=subprocess-exit success=", "true")
            } else {
                joined("phase=subprocess-exit success=", "false")
            };
            line.append(" status=");
            line.append(status.text.as_str());
            line.append(" stdout_bytes=");
            let n = decimal_text(stdout.len() as u128);
            line.append(n.as_str());
            line.append(" stderr_bytes=");
            let m = decimal_text(stderr.len() as u128);
            line.append(m.as_str());
            out.push(line);
            if !said.is_empty() {
                out.push(joined("stderr=", said));
            }
        },
    }
    assert(texts(out@) =~= outcome_entries(program@, timeout_seconds as nat, *outcome, said@));
    out
}

/// Begins a transcription: what the log notes, or an error where there is no
/// recording.
pub fn transcription_start(audio_exists: bool, audio_path: &str, timeout_seconds: u64) -> (r:
    Result<String, String>)
    ensures
        match r {
            Ok(log) => audio_exists && log@ == "phase=transcribe-start audio_path="@ + audio_path@
                + " timeout_seconds="@ + decimal(timeout_seconds as nat),
            Err(error) => !audio_exists && error@ == "No audio was captured."@,
        },
{
    if !audio_exists {
        return Err("No audio was captured.".to_string());
    }
    let mut log = joined("phase=transcribe-start audio_path=", audio_path);
    log.append(" timeout_seconds=");
    let n = decimal_text(timeout_seconds as u128);
    log.append(n.as_str());
    Ok(log)
}

/// What a background task came to.
#[derive(Debug)]
pub enum TaskResult {
    /// It gave this text.
    Done(String),
    /// It failed with this error.
    Failed(String),
    /// It did not run to its end, for this reason.
    Crashed(String),
}

/// What is done with the failure of a background task.
#[derive(Debug)]
pub struct FailureReport {
    /// What the log notes.
    pub log: String,
    /// What the screen shows.
    pub screen: String,
    /// The error that is handed on.
    pub error: String,
}

/// A report, with its texts as sequences of characters.
pub struct FailureModel {
    pub log: Seq<char>,
    pub screen: Seq<char>,
    pub error: Seq<char>,
}

impl View for FailureReport {
    type V = FailureModel;

    open spec fn view(&self) -> FailureModel {
        FailureModel { log: self.log@, screen: self.screen@, error: self.error@ }
    }
}

/// What is done with a background task that gave a text.
#[derive(Debug)]
pub struct SuccessReport {
    /// What the log notes.
    pub log: String,
    /// The text.
    pub text: String,
}

/// A report, with its texts as sequences of characters.
pub struct SuccessModel {
    pub log: Seq<char>,
    pub text: Seq<char>,
}

impl View for SuccessReport {
    type V = SuccessModel;

    open spec fn view(&self) -> SuccessModel {
        SuccessModel { log: self.log@, text: self.text@ }
    }
}

/// Joins two texts.
fn joined(a: &str, b: &str) -> (r: String)
    ensures
        r@ == a@ + b@,
{
    let mut out = a.to_string();
    out.append(b);
    out
}

/// A report, with its texts as sequences of characters.
pub open spec fn report_model(r: Result<SuccessReport, FailureReport>) -> Result<
    SuccessModel,
    FailureModel,
> {
    match r {
        Ok(report) => Ok(report@),
        Err(report) => Err(report@),
    }
}

/// The report on a task that transcribes a recording, whose text is the
/// transcription.
pub open spec fn transcribing_report(task: TaskResult) -> Result<SuccessModel, FailureModel> {
    match task {
        TaskResult::Done(text) => Ok(
            SuccessModel {
                log: "phase=transcribe-finished transcript_chars="@ + decimal(text@.len()),
                text: text@,
            },
        ),
        TaskResult::Failed(error) => Err(
            FailureModel {
                log: "phase=transcribe-error error="@ + error@,
                screen: "Error: Transcription failed - "@ + error@,
                error: error@,
            },
        ),
        TaskResult::Crashed(error) => Err(
            FailureModel {
                log: "phase=transcribe-task-error error="@ + error@,
                screen: "Error: Transcription task failed - "@ + error@,
                error: "Transcription task failed: "@ + error@,
            },
        ),
    }
}

/// Reports on the task that transcribes a recording.
pub fn transcription_report(task: TaskResult) -> (r: Result<SuccessReport, FailureReport>)
    ensures
        report_model(r) == transcribing_report(task),
{
    match task {
        TaskResult::Done(text) => {
            let n: usize = text.as_str().unicode_len();
            let count = decimal_text(n as u128);
            let log = joined("phase=transcribe-finished transcript_chars=", count.as_str());
            Ok(SuccessReport { log, text })
        },
        TaskResult::Failed(error) => Err(
            FailureReport {
                log: joined("phase=transcribe-error error=", error.as_str()),
                screen: joined("Error: Transcription failed - ", error.as_str()),
                error,
            },
        ),
        TaskResult::Crashed(error) => Err(
            FailureReport {
                log: joined("phase=transcribe-task-error error=", error.as_str()),
                screen: joined("Error: Transcription task failed - ", error.as_str()),
                error: joined("Transcription task failed: ", error.as_str()),
            },
        ),
    }
}

/// What became of a transcription's entry in the history.
#[derive(Debug)]
pub enum HistoryOutcome {
    /// It was made.
    Saved,
    /// The history is there, but the entry could not be made, for this reason.
    NotSaved(String),
    /// There is no history to be had, for this reason.
    NotOpened(String),
}

/// Hands a transcription on after it was to be noted in the history: an entry
/// that could not be made does no harm, but a history that could not be opened
/// is an error.
pub fn after_history(text: String, history: HistoryOutcome) -> (r: Result<String, String>)
    ensures
        result_text(r) == match history {
            HistoryOutcome::Saved => Ok(text@),
            HistoryOutcome::NotSaved(_) => Ok(text@),
            HistoryOutcome::NotOpened(error) => Err(error@),
        },
{
    match history {
        HistoryOutcome::Saved => Ok(text),
        HistoryOutcome::NotSaved(_) => Ok(text),
        HistoryOutcome::NotOpened(error) => Err(error),
    }
}

/// The report on a task that saves a recording, whose text is the path of the
/// saved recording.
pub open spec fn saving_report(task: TaskResult) -> Result<SuccessModel, FailureModel> {
    match task {
        TaskResult::Done(path) => Ok(
            SuccessModel { log: "phase=finalize-finished audio_path="@ + path@, text: path@ },
        ),
        TaskResult::Failed(error) => Err(
            FailureModel {
                log: "phase=finalize-error error="@ + error@,
                screen: "Error: Failed to save recording - "@ + error@,
                error: error@,
            },
        ),
        TaskResult::Crashed(error) => Err(
            FailureModel {
                log: "phase=finalize-task-error error="@ + error@,
                screen: "Error: Recording save task failed - "@ + error@,
                error: "Recording save task failed: "@ + error@,
            },
        ),
    }
}

/// Reports on the task that saves a recording.
pub fn finalize_report(task: TaskResult) -> (r: Result<SuccessReport, FailureReport>)
    ensures
        report_model(r) == saving_report(task),
{
    match task {
        TaskResult::Done(path) => {
            let log = joined("phase=finalize-finished audio_path=", path.as_str());
            Ok(SuccessReport { log, text: path })
        },
        TaskResult::Failed(error) => Err(
            FailureReport {
                log: joined("phase=finalize-error error=", error.as_str()),
                screen: joined("Error: Failed to save recording - ", error.as_str()),
                error,
            },
        ),
        TaskResult::Crashed(error) => Err(
            FailureReport {
                log: joined("phase=finalize-task-error error=", error.as_str()),
                screen: joined("Error: Recording save task failed - ", error.as_str()),
                error: joined("Recording save task failed: ", error.as_str()),
            },
        ),
    }
}

/// Where a program succeeded with text that is not blank, the transcript is the
/// whole of that text without the white space around it: nothing but white space
/// is left out.
pub proof fn law_transcript_is_the_whole_text(
    program: Seq<char>,
    text: Seq<char>,
    said: Seq<char>,
    status: Seq<char>,
    p: int,
)
    requires
        0 <= p < text.len(),
        !is_whitespace(text[p]),
    ensures
        exists|i: int, j: int|
            #![trigger text.subrange(i, j)]
            {
                &&& 0 <= i <= p < j <= text.len()
                &&& transcript_result(program, Ok(text), said, true, status) == Ok::<
                    Seq<char>,
                    Seq<char>,
                >(text.subrange(i, j))
                &&& forall|k: int| 0 <= k < i ==> is_whitespace(#[trigger] text[k])
                &&& forall|k: int| j <= k < text.len() ==> is_whitespace(#[trigger] text[k])
                &&& !is_whitespace(text[i]) && !is_whitespace(text[j - 1])
            },
{
    law_trim(text);
    let (i, j) = choose|i: int, j: int|
        #![trigger text.subrange(i, j)]
        {
            &&& 0 <= i <= j <= text.len()
            &&& trim(text) == text.subrange(i, j)
            &&& forall|k: int| 0 <= k < i ==> is_whitespace(#[trigger] text[k])
            &&& forall|k: int| j <= k < text.len() ==> is_whitespace(#[trigger] text[k])
            &&& i < j ==> !is_whitespace(text[i]) && !is_whitespace(text[j - 1])
        };
    assert(i <= p < j);
    assert(text.subrange(i, j).len() == j - i);
}

/// The same holds of what the program printed.
pub proof fn law_transcript_is_the_whole_output(
    program: Seq<char>,
    timeout_seconds: nat,
    stdout: Vec<u8>,
    stderr: Vec<u8>,
    status: ExitState,
    p: int,
)
    requires
        status.success,
        valid_utf8(stdout@),
        0 <= p < decode_utf8(stdout@).len(),
        !is_whitespace(decode_utf8(stdout@)[p]),
    ensures
        ({
            let printed = decode_utf8(stdout@);
            let r = command_result(
                program,
                timeout_seconds,
                CommandOutcome::Finished { stdout, stderr, status },
            );
            exists|i: int, j: int|
                #![trigger printed.subrange(i, j)]
                {
                    &&& 0 <= i <= p < j <= printed.len()
                    &&& r == Ok::<Seq<char>, Seq<char>>(printed.subrange(i, j))
                    &&& forall|k: int| 0 <= k < i ==> is_whitespace(#[trigger] printed[k])
                    &&& forall|k: int|
                        j <= k < printed.len() ==> is_whitespace(#[trigger] printed[k])
                }
        }),
{
    law_transcript_is_the_whole_text(
        program,
        decode_utf8(stdout@),
        trim(utf8_lossy(stderr@)),
        status.text@,
        p,
    );
}

/// Where there is no transcript, the user is told why: the error names the
/// program; where the program failed it ends with what the program reported, or
/// else with its exit status; where it printed nothing it ends with what the
/// program reported, if anything; where it did not end in time it names the
/// time that it had, and where it could not be started the system's reason.
pub proof fn law_errors_say_why(
    program: Seq<char>,
    timeout_seconds: nat,
    outcome: CommandOutcome,
)
    ensures
        command_result(program, timeout_seconds, outcome) matches Err(e) ==> {
            &&& contains(e, program)
            &&& match outcome {
                CommandOutcome::TimedOut => contains(
                    e,
                    if timeout_seconds == 0 {
                        decimal(1)
                    } else {
                        decimal(timeout_seconds)
                    },
                ),
                CommandOutcome::NotFound(_) => true,
                CommandOutcome::NotStarted(error) => ends_with(e, error@),
                CommandOutcome::Finished { stdout, stderr, status } => {
                    let said = trim(utf8_lossy(stderr@));
                    if !status.success {
                        if said.len() > 0 {
                            e == program + " failed: "@ + said
                        } else {
                            e == program + " exited with status "@ + status.text@
                        }
                    } else if !valid_utf8(stdout@) {
                        ends_with(e, utf8_error_text(stdout@))
                    } else {
                        ends_with(e, said)
                    }
                },
            }
        },
        outcome is TimedOut || outcome is NotFound || outcome is NotStarted ==> command_result(
            program,
            timeout_seconds,
            outcome,
        ) is Err,
{
    if let Err(e) = command_result(program, timeout_seconds, outcome) {
        match outcome {
            CommandOutcome::TimedOut => {
                let n = decimal(reported_timeout(timeout_seconds));
                assert(e.subrange(0, program.len() as int) =~= program);
                assert(matches_at(e, 0, program));
                let at = (program + " timed out after "@).len() as int;
                assert(e.subrange(at, at + n.len()) =~= n);
                assert(matches_at(e, at, n));
            },
            CommandOutcome::NotFound(_) => {
                let at = "Could not find '"@.len() as int;
                assert(e.subrange(at, at + program.len()) =~= program);
                assert(matches_at(e, at, program));
            },
            CommandOutcome::NotStarted(error) => {
                let at = "Failed to run '"@.len() as int;
                assert(e.subrange(at, at + program.len()) =~= program);
                assert(matches_at(e, at, program));
                let end = e.len() - error@.len();
                assert(e.subrange(end, end + error@.len()) =~= error@);
            },
            CommandOutcome::Finished { stdout, stderr, status } => {
                assert(e.subrange(0, program.len() as int) =~= program);
                assert(matches_at(e, 0, program));
                let said = trim(utf8_lossy(stderr@));
                if status.success && valid_utf8(stdout@) {
                    let end = e.len() - said.len();
                    assert(e.subrange(end, end + said.len()) =~= said);
                } else if status.success {
                    let why = utf8_error_text(stdout@);
                    let end = e.len() - why.len();
                    assert(e.subrange(end, end + why.len()) =~= why);
                }
            },
        }
    }
}

/// The program is asked for the recording, which is its last argument, and for
/// the keywords exactly where there are some.
pub proof fn law_contextualize_args(audio: Seq<char>, keywords: Option<Seq<char>>)
    ensures
        ({
            let args = contextualize_args(audio, keywords);
            &&& args.last() == audio
            &&& args.take(6) == seq![
                "--verbose"@,
                "cat"@,
                "-f"@,
                "raw"@,
                "--cache-ttl"@,
                "7d"@,
            ]
            &&& keywords matches Some(path) ==> args.len() == 9 && args[6]
                == "--transcribe-prompt-file"@ && args[7] == path
            &&& keywords is None ==> args.len() == 7
        }),
{
    let args = contextualize_args(audio, keywords);
    assert(args.take(6) =~= seq![
        "--verbose"@,
        "cat"@,
        "-f"@,
        "raw"@,
        "--cache-ttl"@,
        "7d"@,
    ]);
}

/// The log tells how the program ended: in one entry, which names the program
/// where it did not run to its end, and in a second exactly where the program
/// reported something.
pub proof fn law_outcome_entries(
    program: Seq<char>,
    timeout_seconds: nat,
    outcome: CommandOutcome,
    said: Seq<char>,
)
    ensures
        ({
            let entries = outcome_entries(program, timeout_seconds, outcome, said);
            &&& entries.len() == if outcome is Finished && said.len() > 0 {
                2nat
            } else {
                1
            }
            &&& match outcome {
                CommandOutcome::TimedOut => contains(entries[0], program) && ends_with(
                    entries[0],
                    decimal(
                        if timeout_seconds == 0 {
                            1
                        } else {
                            timeout_seconds
                        },
                    ),
                ),
                CommandOutcome::NotFound(error) => contains(entries[0], program) && ends_with(
                    entries[0],
                    error@,
                ),
                CommandOutcome::NotStarted(error) => contains(entries[0], program) && ends_with(
                    entries[0],
                    error@,
                ),
                CommandOutcome::Finished { stdout, stderr, status } => {
                    &&& contains(entries[0], truth_word(status.success))
                    &&& contains(entries[0], status.text@)
                    &&& contains(entries[0], decimal(stdout@.len()))
                    &&& ends_with(entries[0], decimal(stderr@.len()))
                    &&& said.len() > 0 ==> ends_with(entries[1], said)
                },
            }
        }),
{
    let entries = outcome_entries(program, timeout_seconds, outcome, said);
    let first = entries[0];
    match outcome {
        CommandOutcome::TimedOut => {
            let n = decimal(reported_timeout(timeout_seconds));
            let head = "phase=subprocess-timeout program="@;
            let middle = " timeout_seconds="@;
            law_strip(first, n, head + program + middle);
            law_contains(head, program, middle + n, first);
            assert(first =~= head + program + (middle + n));
        },
        CommandOutcome::NotFound(error) => {
            let head = "phase=subprocess-spawn-error program="@;
            law_strip(first, error@, head + program + " error="@);
            law_contains(head, program, " error="@ + error@, first);
            assert(first =~= head + program + (" error="@ + error@));
        },
        CommandOutcome::NotStarted(error) => {
            let head = "phase=subprocess-spawn-error program="@;
            law_strip(first, error@, head + program + " error="@);
            law_contains(head, program, " error="@ + error@, first);
            assert(first =~= head + program + (" error="@ + error@));
        },
        CommandOutcome::Finished { stdout, stderr, status } => {
            let head = "phase=subprocess-exit success="@;
            let success = truth_word(status.success);
            let out = decimal(stdout@.len());
            let err = decimal(stderr@.len());
            let after_out = " stderr_bytes="@ + err;
            let after_status = " stdout_bytes="@ + out + after_out;
            let after_success = " status="@ + status.text@ + after_status;
            law_contains(head, success, after_success, first);
            assert(first =~= head + success + after_success);
            law_contains(head + success + " status="@, status.text@, after_status, first);
            assert(first =~= head + success + " status="@ + status.text@ + after_status);
            let before_out = head + success + " status="@ + status.text@ + " stdout_bytes="@;
            law_contains(before_out, out, after_out, first);
            assert(first =~= before_out + out + after_out);
            law_strip(first, err, before_out + out + " stderr_bytes="@);
            if said.len() > 0 {
                law_strip(entries[1], said, "stderr="@);
            }
        },
    }
}

/// A task that is done hands its text on as it is. One that failed or crashed is
/// told on the screen and in the log, each with the reason, and a failure's
/// reason is the error.
pub proof fn law_reports(text: String)
    ensures
        transcribing_report(TaskResult::Done(text)) matches Ok(report) && report.text == text@
            && ends_with(report.log, decimal(text@.len())),
        saving_report(TaskResult::Done(text)) matches Ok(report) && report.text == text@
            && ends_with(report.log, text@),
        transcribing_report(TaskResult::Failed(text)) matches Err(report) && report.error == text@
            && ends_with(report.log, text@) && ends_with(report.screen, text@),
        saving_report(TaskResult::Failed(text)) matches Err(report) && report.error == text@
            && ends_with(report.log, text@) && ends_with(report.screen, text@),
        transcribing_report(TaskResult::Crashed(text)) matches Err(report) && ends_with(
            report.error,
            text@,
        ) && ends_with(report.log, text@) && ends_with(report.screen, text@),
        saving_report(TaskResult::Crashed(text)) matches Err(report) && ends_with(
            report.error,
            text@,
        ) && ends_with(report.log, text@) && ends_with(report.screen, text@),
{
    let t = text@;
    let n = decimal(t.len());
    let finished = "phase=transcribe-finished transcript_chars="@;
    law_strip(finished + n, n, finished);
    lemma_ends("phase=finalize-finished audio_path="@, t);
    lemma_ends("phase=transcribe-error error="@, t);
    lemma_ends("Error: Transcription failed - "@, t);
    lemma_ends("phase=transcribe-task-error error="@, t);
    lemma_ends("Error: Transcription task failed - "@, t);
    lemma_ends("Transcription task failed: "@, t);
    lemma_ends("phase=finalize-error error="@, t);
    lemma_ends("Error: Failed to save recording - "@, t);
    lemma_ends("phase=finalize-task-error error="@, t);
    lemma_ends("Error: Recording save task failed - "@, t);
    lemma_ends("Recording save task failed: "@, t);
}

proof fn lemma_ends(head: Seq<char>, tail: Seq<char>)
    ensures
        ends_with(head + tail, tail),
{
    law_strip(head + tail, tail, head);
}

/// An entry of the log is one line with its time before and its message after.
pub proof fn law_log_entry(timestamp: Seq<char>, message: Seq<char>)
    ensures
        starts_with(log_entry(timestamp, message), timestamp + " "@),
        ends_with(log_entry(timestamp, message), message + "\n"@),
{
    let entry = log_entry(timestamp, message);
    assert(entry =~= (timestamp + " "@) + (message + "\n"@));
    law_strip(entry, timestamp + " "@, message + "\n"@);
    law_strip(entry, message + "\n"@, timestamp + " "@);
}

} // verus!
