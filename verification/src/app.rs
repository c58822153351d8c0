//! The command line: which command was given, and what it leads to.
use crate::commands::record::RecordingMode;
use crate::remote::RemoteCommand;
use crate::text::{contains, law_contains, same_text, text_contains, texts};
use vstd::prelude::*;
use vstd::string::*;

verus! {

/// What can be asked of a running recorder, or of a new one.
#[derive(Debug, Clone, Copy, PartialEq, Eq, Structural)]
pub enum RemoteAction {
    Listen,
    Complete,
    Cancel,
    Ping,
}

/// A command of the application.
#[derive(Debug)]
pub enum Command {
    /// Record and optionally transcribe.
    Record,
    /// Record under remote control, or control a recorder.
    Remote(RemoteAction),
    /// Authenticate with a provider and select a model.
    Auth,
    /// View the transcription history.
    History,
    /// Manage the keywords.
    Keywords,
    /// Edit the configuration file.
    Config,
    /// Show the help text.
    Help,
    /// Show the version.
    Version,
    /// List the input devices.
    ListDevices,
    /// Show the latest log entries.
    Logs,
    /// No command of the application.
    Invalid(String),
}

/// A command, with its text as a sequence of characters.
pub enum CommandModel {
    Record,
    Remote(RemoteAction),
    Auth,
    History,
    Keywords,
    Config,
    Help,
    Version,
    ListDevices,
    Logs,
    Invalid(Seq<char>),
}

impl View for Command {
    type V = CommandModel;

    open spec fn view(&self) -> CommandModel {
        match self {
            Command::Record => CommandModel::Record,
            Command::Remote(action) => CommandModel::Remote(*action),
            Command::Auth => CommandModel::Auth,
            Command::History => CommandModel::History,
            Command::Keywords => CommandModel::Keywords,
            Command::Config => CommandModel::Config,
            Command::Help => CommandModel::Help,
            Command::Version => CommandModel::Version,
            Command::ListDevices => CommandModel::ListDevices,
            Command::Logs => CommandModel::Logs,
            Command::Invalid(text) => CommandModel::Invalid(text@),
        }
    }
}

/// The remote action that a word stands for.
pub open spec fn remote_action(word: Seq<char>) -> Option<RemoteAction> {
    if word == "listen"@ {
        Some(RemoteAction::Listen)
    } else if word == "complete"@ {
        Some(RemoteAction::Complete)
    } else if word == "cancel"@ {
        Some(RemoteAction::Cancel)
    } else if word == "ping"@ {
        Some(RemoteAction::Ping)
    } else {
        None
    }
}

/// The command that a word other than `remote` stands for.
pub open spec fn plain_command(word: Seq<char>) -> CommandModel {
    if word == "record"@ {
        CommandModel::Record
    } else if word == "auth"@ {
        CommandModel::Auth
    } else if word == "history"@ {
        CommandModel::History
    } else if word == "keywords"@ {
        CommandModel::Keywords
    } else if word == "config"@ {
        CommandModel::Config
    } else if word == "help"@ || word == "-h"@ || word == "--help"@ {
        CommandModel::Help
    } else if word == "version"@ || word == "-V"@ || word == "--version"@ {
        CommandModel::Version
    } else if word == "list-devices"@ {
        CommandModel::ListDevices
    } else if word == "logs"@ {
        CommandModel::Logs
    } else {
        CommandModel::Invalid(word)
    }
}

/// The command that the arguments of the program give; the first argument is
/// the program itself.
pub open spec fn parsed_command(args: Seq<Seq<char>>) -> CommandModel {
    if args.len() < 2 {
        CommandModel::Record
    } else if args[1] == "remote"@ {
        if args.len() < 3 {
            CommandModel::Remote(RemoteAction::Listen)
        } else {
            match remote_action(args[2]) {
                Some(action) => CommandModel::Remote(action),
                None => CommandModel::Invalid("remote "@ + args[2]),
            }
        }
    } else {
        plain_command(args[1])
    }
}

impl Command {
    /// Reads the command from the arguments of the program.
    pub fn from_args(args: &Vec<String>) -> (r: Command)
        ensures
            r@ == parsed_command(texts(args@)),
    {
        assert(texts(args@).len() == args@.len());
        if args.len() < 2 {
            return Command::Record;
        }
        assert(texts(args@)[1] == args@[1]@);
        let word = args[1].as_str();
        if same_text(word, "remote") {
            if args.len() < 3 {
                return Command::Remote(RemoteAction::Listen);
            }
            assert(texts(args@)[2] == args@[2]@);
            let action = args[2].as_str();
            if same_text(action, "listen") {
                return Command::Remote(RemoteAction::Listen);
            }
            if same_text(action, "complete") {
                return Command::Remote(RemoteAction::Complete);
            }
            if same_text(action, "cancel") {
                return Command::Remote(RemoteAction::Cancel);
            }
            if same_text(action, "ping") {
                return Command::Remote(RemoteAction::Ping);
            }
            let mut text = "remote ".to_string();
            text.append(action);
            return Command::Invalid(text);
        }
        if same_text(word, "record") {
            Command::Record
        } else if same_text(word, "auth") {
            Command::Auth
        } else if same_text(word, "history") {
            Command::History
        } else if same_text(word, "keywords") {
            Command::Keywords
        } else if same_text(word, "config") {
            Command::Config
        } else if same_text(word, "help") || same_text(word, "-h") || same_text(word, "--help") {
            Command::Help
        } else if same_text(word, "version") || same_text(word, "-V") || same_text(
            word,
            "--version",
        ) {
            Command::Version
        } else if same_text(word, "list-devices") {
            Command::ListDevices
        } else if same_text(word, "logs") {
            Command::Logs
        } else {
            Command::Invalid(word.to_string())
        }
    }
}

/// A part of the application that needs logging and a configuration file.
#[derive(Debug, Clone, Copy, PartialEq, Eq, Structural)]
pub enum Handler {
    Auth,
    Record(RecordingMode),
    History,
    Keywords,
    Config,
}

/// What a command leads to.
#[derive(Debug)]
pub enum Route {
    PrintHelp,
    PrintVersion,
    ListDevices,
    ShowLogs,
    /// Send a request to the running recorder.
    Send(RemoteCommand),
    /// Report that there is no such command.
    Usage(String),
    /// Start logging, set up the configuration where it is missing, and run.
    Run(Handler),
}

/// What a command leads to, with its text as a sequence of characters.
pub enum RouteModel {
    PrintHelp,
    PrintVersion,
    ListDevices,
    ShowLogs,
    Send(RemoteCommand),
    Usage(Seq<char>),
    Run(Handler),
}

impl View for Route {
    type V = RouteModel;

    open spec fn view(&self) -> RouteModel {
        match self {
            Route::PrintHelp => RouteModel::PrintHelp,
            Route::PrintVersion => RouteModel::PrintVersion,
            Route::ListDevices => RouteModel::ListDevices,
            Route::ShowLogs => RouteModel::ShowLogs,
            Route::Send(command) => RouteModel::Send(*command),
            Route::Usage(text) => RouteModel::Usage(text@),
            Route::Run(handler) => RouteModel::Run(*handler),
        }
    }
}

/// What the user is told of a command that does not exist.
pub open spec fn usage_text(command: Seq<char>) -> Seq<char> {
    "Error: unknown command '"@ + command + "'\nRun 'ostt help' to see available commands."@
}

/// Where a command leads.
pub open spec fn route_of(command: CommandModel) -> RouteModel {
    match command {
        CommandModel::Help => RouteModel::PrintHelp,
        CommandModel::Version => RouteModel::PrintVersion,
        CommandModel::ListDevices => RouteModel::ListDevices,
        CommandModel::Logs => RouteModel::ShowLogs,
        CommandModel::Remote(RemoteAction::Complete) => RouteModel::Send(RemoteCommand::Complete),
        CommandModel::Remote(RemoteAction::Cancel) => RouteModel::Send(RemoteCommand::Cancel),
        CommandModel::Remote(RemoteAction::Ping) => RouteModel::Send(RemoteCommand::Ping),
        CommandModel::Remote(RemoteAction::Listen) => RouteModel::Run(
            Handler::Record(RecordingMode::Remote),
        ),
        CommandModel::Invalid(text) => RouteModel::Usage(usage_text(text)),
        CommandModel::Record => RouteModel::Run(Handler::Record(RecordingMode::Interactive)),
        CommandModel::Auth => RouteModel::Run(Handler::Auth),
        CommandModel::History => RouteModel::Run(Handler::History),
        CommandModel::Keywords => RouteModel::Run(Handler::Keywords),
        CommandModel::Config => RouteModel::Run(Handler::Config),
    }
}

/// Decides what a command leads to.
pub fn route(command: &Command) -> (r: Route)
    ensures
        r@ == route_of(command@),
{
    match command {
        Command::Help => Route::PrintHelp,
        Command::Version => Route::PrintVersion,
        Command::ListDevices => Route::ListDevices,
        Command::Logs => Route::ShowLogs,
        Command::Remote(RemoteAction::Complete) => Route::Send(RemoteCommand::Complete),
        Command::Remote(RemoteAction::Cancel) => Route::Send(RemoteCommand::Cancel),
        Command::Remote(RemoteAction::Ping) => Route::Send(RemoteCommand::Ping),
        Command::Remote(RemoteAction::Listen) => Route::Run(
            Handler::Record(RecordingMode::Remote),
        ),
        Command::Invalid(text) => {
            let mut out = "Error: unknown command '".to_string();
            out.append(text.as_str());
            out.append("'\nRun 'ostt help' to see available commands.");
            Route::Usage(out)
        },
        Command::Record => Route::Run(Handler::Record(RecordingMode::Interactive)),
        Command::Auth => Route::Run(Handler::Auth),
        Command::History => Route::Run(Handler::History),
        Command::Keywords => Route::Run(Handler::Keywords),
        Command::Config => Route::Run(Handler::Config),
    }
}

/// How the program ends.
#[derive(Debug, Clone, Copy, PartialEq, Eq, Structural)]
pub enum Ending {
    /// End with this exit code, after the error has been printed where it is not 0.
    Exit(i32),
    /// Hand the error to the caller.
    Propagate,
}

/// Whether the message of an error says that the user called the dialogue off.
pub open spec fn is_cancellation(message: Seq<char>) -> bool {
    contains(message, "cancelled"@) || contains(message, "interrupted"@)
}

/// How the program ends when what a command led to has failed.
pub open spec fn ending_of(route: RouteModel, message: Seq<char>) -> Ending {
    match route {
        RouteModel::ListDevices | RouteModel::ShowLogs | RouteModel::Send(_) => Ending::Exit(1),
        RouteModel::Usage(_) => Ending::Exit(2),
        RouteModel::Run(Handler::Auth) if is_cancellation(message) => Ending::Exit(0),
        _ => Ending::Propagate,
    }
}

/// Decides how the program ends when what a command led to has failed.
pub fn failure_ending(route: &Route, message: &str) -> (r: Ending)
    ensures
        r == ending_of(route@, message@),
{
    match route {
        Route::ListDevices => Ending::Exit(1),
        Route::ShowLogs => Ending::Exit(1),
        Route::Send(_) => Ending::Exit(1),
        Route::Usage(_) => Ending::Exit(2),
        Route::Run(Handler::Auth) => if text_contains(message, "cancelled") || text_contains(
            message,
            "interrupted",
        ) {
            Ending::Exit(0)
        } else {
            Ending::Propagate
        },
        _ => Ending::Propagate,
    }
}

/// Whether the setup has to run first.
pub fn needs_setup(route: &Route, config_exists: bool) -> (r: bool)
    ensures
        r == (route@ is Run && !config_exists),
{
    match route {
        Route::Run(_) => !config_exists,
        _ => false,
    }
}

/// The exit code 2 is for usage errors: it is given for a command line that
/// names no command of the application, and for no other.
pub proof fn law_usage_errors(args: Seq<Seq<char>>, message: Seq<char>)
    ensures
        ending_of(route_of(parsed_command(args)), message) == Ending::Exit(2) <==> parsed_command(
            args,
        ) is Invalid,
{
}

/// Without arguments the recorder records, as with `record`.
pub proof fn law_record_is_the_default(args: Seq<Seq<char>>)
    requires
        args.len() < 2 || args[1] == "record"@,
    ensures
        parsed_command(args) == CommandModel::Record,
{
    reveal_strlit("record");
    reveal_strlit("remote");
    assert("record"@[2] != "remote"@[2]);
}

/// A word that is no command is refused, and the user is told which it was.
pub proof fn law_unknown_commands(args: Seq<Seq<char>>)
    requires
        args.len() >= 2,
        !seq![
            "record"@,
            "auth"@,
            "history"@,
            "keywords"@,
            "config"@,
            "help"@,
            "-h"@,
            "--help"@,
            "version"@,
            "-V"@,
            "--version"@,
            "list-devices"@,
            "logs"@,
            "remote"@,
        ].contains(args[1]),
    ensures
        parsed_command(args) == CommandModel::Invalid(args[1]),
        route_of(parsed_command(args)) matches RouteModel::Usage(text) && contains(text, args[1]),
{
    let known = seq![
        "record"@,
        "auth"@,
        "history"@,
        "keywords"@,
        "config"@,
        "help"@,
        "-h"@,
        "--help"@,
        "version"@,
        "-V"@,
        "--version"@,
        "list-devices"@,
        "logs"@,
        "remote"@,
    ];
    assert(known[0] == "record"@ && known[1] == "auth"@ && known[2] == "history"@);
    assert(known[3] == "keywords"@ && known[4] == "config"@ && known[5] == "help"@);
    assert(known[6] == "-h"@ && known[7] == "--help"@ && known[8] == "version"@);
    assert(known[9] == "-V"@ && known[10] == "--version"@ && known[11] == "list-devices"@);
    assert(known[12] == "logs"@ && known[13] == "remote"@);
    law_contains(
        "Error: unknown command '"@,
        args[1],
        "'\nRun 'ostt help' to see available commands."@,
        args[1],
    );
}

/// A word after `remote` that is no action is refused, and the user is told
/// which it was.
pub proof fn law_unknown_remote_actions(args: Seq<Seq<char>>)
    requires
        args.len() >= 3,
        args[1] == "remote"@,
        !seq!["listen"@, "complete"@, "cancel"@, "ping"@].contains(args[2]),
    ensures
        parsed_command(args) == CommandModel::Invalid("remote "@ + args[2]),
        route_of(parsed_command(args)) matches RouteModel::Usage(text) && contains(text, args[2]),
{
    let known = seq!["listen"@, "complete"@, "cancel"@, "ping"@];
    assert(known[0] == "listen"@ && known[1] == "complete"@);
    assert(known[2] == "cancel"@ && known[3] == "ping"@);
    let head = "Error: unknown command '"@ + "remote "@;
    let rest = "'\nRun 'ostt help' to see available commands."@;
    law_contains(head, args[2], rest, args[2]);
    assert(usage_text("remote "@ + args[2]) =~= head + args[2] + rest);
}

/// Only the command itself counts, and after `remote` its action: what else is
/// given makes no difference.
pub proof fn law_further_arguments_are_ignored(args: Seq<Seq<char>>, more: Seq<Seq<char>>)
    requires
        args.len() >= 2,
        args.len() >= 3 || args[1] != "remote"@,
    ensures
        parsed_command(args + more) == parsed_command(args),
{
}

/// Without an action, `remote` listens, and only there and with `record` does a
/// recording begin.
pub proof fn law_recording_commands(args: Seq<Seq<char>>)
    ensures
        args.len() == 2 && args[1] == "remote"@ ==> parsed_command(args) == CommandModel::Remote(
            RemoteAction::Listen,
        ),
        route_of(parsed_command(args)) == RouteModel::Run(Handler::Record(RecordingMode::Interactive))
            ==> args.len() < 2 || args[1] == "record"@,
        route_of(parsed_command(args)) == RouteModel::Run(Handler::Record(RecordingMode::Remote))
            ==> args.len() >= 2 && args[1] == "remote"@ && (args.len() == 2 || args[2]
            == "listen"@),
{
}

/// To call off or interrupt the setup of a provider is no failure, wherever the
/// message says so; any other command that fails keeps its error.
pub proof fn law_cancellation(route: RouteModel, before: Seq<char>, after: Seq<char>)
    ensures
        route == RouteModel::Run(Handler::Auth) ==> {
            &&& ending_of(route, before + "cancelled"@ + after) == Ending::Exit(0)
            &&& ending_of(route, before + "interrupted"@ + after) == Ending::Exit(0)
            &&& !contains(before, "cancelled"@) && !contains(before, "interrupted"@) ==> ending_of(
                route,
                before,
            ) == Ending::Propagate
        },
        route is Run && route != RouteModel::Run(Handler::Auth) ==> ending_of(route, before)
            == Ending::Propagate,
        route is Send || route == RouteModel::ListDevices || route == RouteModel::ShowLogs
            ==> ending_of(route, before) == Ending::Exit(1),
{
    law_contains(before, "cancelled"@, after, before);
    law_contains(before, "interrupted"@, after, before);
}

} // verus!
