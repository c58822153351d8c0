//! Remote control over a local socket: one line of text for each request.
use crate::text::{
    ascii_lower, ascii_lower_char, ascii_lowered, is_whitespace, law_trim_padding, lemma_trim_fixed,
    same_text, trim, trimmed,
};
use vstd::prelude::*;
use vstd::string::*;

verus! {

/// What a remote request asks of the running recorder.
#[derive(Debug, Clone, Copy, PartialEq, Eq, Structural)]
pub enum RemoteSignal {
    Complete,
    Cancel,
}

/// A request to the running recorder.
#[derive(Debug, Clone, Copy, PartialEq, Eq, Structural)]
pub enum RemoteCommand {
    Complete,
    Cancel,
    Ping,
}

/// How a remotely controlled recorder hands over the transcription.
#[derive(Debug, Clone, Copy, PartialEq, Eq, Structural)]
pub enum RemoteOutputMode {
    Paste,
    Type,
}

impl RemoteCommand {
    /// The word for a request.
    pub open spec fn word(self) -> Seq<char> {
        match self {
            RemoteCommand::Complete => "complete"@,
            RemoteCommand::Cancel => "cancel"@,
            RemoteCommand::Ping => "ping"@,
        }
    }

    /// What a request asks of the recorder; a ping asks nothing.
    pub open spec fn signal(self) -> Option<RemoteSignal> {
        match self {
            RemoteCommand::Complete => Some(RemoteSignal::Complete),
            RemoteCommand::Cancel => Some(RemoteSignal::Cancel),
            RemoteCommand::Ping => None,
        }
    }

    /// The word for a request.
    pub fn as_str(self) -> (r: &'static str)
        ensures
            r@ == self.word(),
    {
        match self {
            RemoteCommand::Complete => "complete",
            RemoteCommand::Cancel => "cancel",
            RemoteCommand::Ping => "ping",
        }
    }
}

/// The line that makes a request.
pub open spec fn request_line(command: RemoteCommand) -> Seq<char> {
    command.word().push('\n')
}

/// The line that makes a request.
pub fn send_command(command: RemoteCommand) -> (r: String)
    ensures
        r@ == request_line(command),
{
    let mut line = command.as_str().to_string();
    line.push('\n');
    line
}

/// What a line asks of the recorder.
pub open spec fn requested_signal(line: Seq<char>) -> Option<RemoteSignal> {
    let word = ascii_lower(trim(line));
    if word == "complete"@ {
        Some(RemoteSignal::Complete)
    } else if word == "cancel"@ {
        Some(RemoteSignal::Cancel)
    } else {
        None
    }
}

/// Reads a request. A line that is no request for the recorder is ignored, as
/// is the empty line of a client that says nothing.
pub fn handle_client(line: &str) -> (r: Option<RemoteSignal>)
    ensures
        r == requested_signal(line@),
{
    let text = trimmed(line);
    let word = ascii_lowered(text.as_str());
    if same_text(word.as_str(), "complete") {
        Some(RemoteSignal::Complete)
    } else if same_text(word.as_str(), "cancel") {
        Some(RemoteSignal::Cancel)
    } else {
        None
    }
}

proof fn lemma_word(command: RemoteCommand)
    ensures
        trim(command.word()) == command.word(),
        ascii_lower(command.word()) == command.word(),
        requested_signal(command.word()) == command.signal(),
{
    reveal_strlit("complete");
    reveal_strlit("cancel");
    reveal_strlit("ping");
    lemma_trim_fixed(command.word());
    assert(ascii_lower(command.word()) =~= command.word());
    assert("complete"@.len() != "cancel"@.len());
    assert("ping"@.len() == 4);
}

/// A request arrives as it was made: the line that makes a request is read as
/// what the request asks.
pub proof fn law_request_round_trip(command: RemoteCommand)
    ensures
        requested_signal(request_line(command)) == command.signal(),
{
    lemma_word(command);
    let none = Seq::<char>::empty();
    let end = seq!['\n'];
    law_trim_padding(none, command.word(), end);
    assert(none + command.word() + end =~= request_line(command));
}

/// White space around a request and the case of its letters make no difference.
pub proof fn law_request_is_lenient(before: Seq<char>, line: Seq<char>, after: Seq<char>)
    requires
        forall|k: int| 0 <= k < before.len() ==> is_whitespace(#[trigger] before[k]),
        forall|k: int| 0 <= k < after.len() ==> is_whitespace(#[trigger] after[k]),
    ensures
        requested_signal(before + line + after) == requested_signal(line),
        forall|other: Seq<char>|
            ascii_lower(trim(other)) == ascii_lower(trim(line)) ==> requested_signal(other)
                == requested_signal(line),
{
    law_trim_padding(before, line, after);
}

/// What has to be done before the socket can be bound.
#[derive(Debug, Clone, Copy, PartialEq, Eq, Structural)]
pub enum SocketPreparation {
    /// There is no socket in the way.
    Ready,
    /// A socket that nobody listens on has to be removed.
    RemoveStale,
}

/// Decides how to prepare the socket: one that another instance listens on is
/// left alone.
pub fn prepare_socket(exists: bool, answers: bool, path: &str) -> (r: Result<
    SocketPreparation,
    String,
>)
    ensures
        match r {
            Ok(SocketPreparation::Ready) => !exists,
            Ok(SocketPreparation::RemoveStale) => exists && !answers,
            Err(message) => exists && answers && message@ == "Remote socket already in use at "@
                + path@,
        },
{
    if !exists {
        Ok(SocketPreparation::Ready)
    } else if answers {
        let mut message = "Remote socket already in use at ".to_string();
        message.append(path);
        Err(message)
    } else {
        Ok(SocketPreparation::RemoveStale)
    }
}

/// Two requests for the same signal are the same word, up to case and white
/// space: nothing else makes that request.
pub proof fn law_requests_are_words(line: Seq<char>, command: RemoteCommand)
    ensures
        command.signal() is Some && requested_signal(line) == command.signal() ==> ascii_lower(
            trim(line),
        ) == command.word(),
        command.signal() is None ==> requested_signal(request_line(command)) is None,
        requested_signal(line) is Some ==> trim(line).len() == 8 || trim(line).len() == 6,
{
    law_request_round_trip(command);
    reveal_strlit("complete");
    reveal_strlit("cancel");
    assert(ascii_lower(trim(line)).len() == trim(line).len());
}

/// A request is one line: its word, and the end of the line.
pub proof fn law_request_line(command: RemoteCommand)
    ensures
        request_line(command).last() == '\n',
        request_line(command).drop_last() == command.word(),
        !command.word().contains('\n'),
{
    reveal_strlit("complete");
    reveal_strlit("cancel");
    reveal_strlit("ping");
    assert(request_line(command).drop_last() =~= command.word());
}

} // verus!
