use ostt::app::{
    failure_ending, needs_setup, route, Command, Ending, Handler, RemoteAction, Route,
};
use ostt::commands::record::RecordingMode;
use ostt::config::file::{
    default_output_format, default_peak_volume_threshold, default_reference_level_db,
};
use ostt::config::{
    env_optional, load_transcription_overrides, AudioConfig, OsttConfig, TranscriptionEnv,
    TranscriptionOverrideConfig, TranscriptionOverrides, VisualizationType,
};
use ostt::paths::{
    create_temp_wav_path, get_config_path, keywords_file, ostt_data_dir, ostt_state_dir,
    recordings_cache_dir, socket_path, transcription_debug_log_path, Base, Location,
    NoHomeDirectory,
};
use ostt::remote::{
    handle_client, prepare_socket, send_command, RemoteCommand, RemoteSignal, SocketPreparation,
};
use ostt::transcription::{
    TranscriptionConfig, TranscriptionModel, TranscriptionProvider, TranscriptionResponse,
};

fn parse(words: &[&str]) -> Command {
    let args: Vec<String> = words.iter().map(|w| w.to_string()).collect();
    Command::from_args(&args)
}

#[test]
fn each_word_has_its_command() {
    assert!(matches!(parse(&[]), Command::Record));
    assert!(matches!(parse(&["ostt"]), Command::Record));
    assert!(matches!(parse(&["ostt", "record"]), Command::Record));
    assert!(matches!(parse(&["ostt", "record", "x"]), Command::Record));
    assert!(matches!(parse(&["ostt", "auth"]), Command::Auth));
    assert!(matches!(parse(&["ostt", "history"]), Command::History));
    assert!(matches!(parse(&["ostt", "keywords"]), Command::Keywords));
    assert!(matches!(parse(&["ostt", "config"]), Command::Config));
    for word in ["help", "-h", "--help"] {
        assert!(matches!(parse(&["ostt", word]), Command::Help));
    }
    for word in ["version", "-V", "--version"] {
        assert!(matches!(parse(&["ostt", word]), Command::Version));
    }
    assert!(matches!(parse(&["ostt", "list-devices"]), Command::ListDevices));
    assert!(matches!(parse(&["ostt", "logs"]), Command::Logs));
    match parse(&["ostt", "Record"]) {
        Command::Invalid(text) => assert_eq!(text, "Record"),
        other => panic!("{:?}", other),
    }
}

#[test]
fn remote_has_its_own_words() {
    let cases = [
        (vec!["ostt", "remote"], RemoteAction::Listen),
        (vec!["ostt", "remote", "listen"], RemoteAction::Listen),
        (vec!["ostt", "remote", "complete"], RemoteAction::Complete),
        (vec!["ostt", "remote", "cancel"], RemoteAction::Cancel),
        (vec!["ostt", "remote", "ping"], RemoteAction::Ping),
    ];
    for (words, expected) in cases {
        match parse(&words) {
            Command::Remote(action) => assert_eq!(action, expected),
            other => panic!("{:?}", other),
        }
    }
    match parse(&["ostt", "remote", "stop"]) {
        Command::Invalid(text) => assert_eq!(text, "remote stop"),
        other => panic!("{:?}", other),
    }
}

#[test]
fn commands_lead_where_they_should() {
    assert!(matches!(route(&Command::Help), Route::PrintHelp));
    assert!(matches!(route(&Command::Version), Route::PrintVersion));
    assert!(matches!(route(&Command::ListDevices), Route::ListDevices));
    assert!(matches!(route(&Command::Logs), Route::ShowLogs));
    assert!(matches!(
        route(&Command::Remote(RemoteAction::Ping)),
        Route::Send(RemoteCommand::Ping)
    ));
    assert!(matches!(
        route(&Command::Remote(RemoteAction::Complete)),
        Route::Send(RemoteCommand::Complete)
    ));
    assert!(matches!(
        route(&Command::Remote(RemoteAction::Cancel)),
        Route::Send(RemoteCommand::Cancel)
    ));
    assert!(matches!(
        route(&Command::Remote(RemoteAction::Listen)),
        Route::Run(Handler::Record(RecordingMode::Remote))
    ));
    assert!(matches!(
        route(&Command::Record),
        Route::Run(Handler::Record(RecordingMode::Interactive))
    ));
    assert!(matches!(route(&Command::Auth), Route::Run(Handler::Auth)));
    assert!(matches!(route(&Command::History), Route::Run(Handler::History)));
    assert!(matches!(route(&Command::Keywords), Route::Run(Handler::Keywords)));
    assert!(matches!(route(&Command::Config), Route::Run(Handler::Config)));
    match route(&Command::Invalid("dance".to_string())) {
        Route::Usage(text) => assert_eq!(
            text,
            "Error: unknown command 'dance'\nRun 'ostt help' to see available commands."
        ),
        other => panic!("{:?}", other),
    }
}

#[test]
fn endings_have_their_exit_codes() {
    assert_eq!(failure_ending(&Route::ListDevices, ""), Ending::Exit(1));
    assert_eq!(failure_ending(&Route::ShowLogs, ""), Ending::Exit(1));
    assert_eq!(
        failure_ending(&Route::Send(RemoteCommand::Ping), ""),
        Ending::Exit(1)
    );
    assert_eq!(
        failure_ending(&Route::Usage(String::new()), ""),
        Ending::Exit(2)
    );
    let auth = Route::Run(Handler::Auth);
    assert_eq!(failure_ending(&auth, "Operation cancelled"), Ending::Exit(0));
    assert_eq!(failure_ending(&auth, "was interrupted"), Ending::Exit(0));
    assert_eq!(failure_ending(&auth, "Cancelled"), Ending::Propagate);
    assert_eq!(
        failure_ending(&Route::Run(Handler::Config), "cancelled"),
        Ending::Propagate
    );
    assert!(needs_setup(&auth, false));
    assert!(!needs_setup(&auth, true));
    assert!(!needs_setup(&Route::PrintHelp, false));
}

#[test]
fn requests_arrive_as_they_were_made() {
    assert_eq!(send_command(RemoteCommand::Complete), "complete\n");
    assert_eq!(send_command(RemoteCommand::Cancel), "cancel\n");
    assert_eq!(send_command(RemoteCommand::Ping), "ping\n");
    assert_eq!(RemoteCommand::Ping.as_str(), "ping");
    assert_eq!(
        handle_client(&send_command(RemoteCommand::Complete)),
        Some(RemoteSignal::Complete)
    );
    assert_eq!(
        handle_client(&send_command(RemoteCommand::Cancel)),
        Some(RemoteSignal::Cancel)
    );
    assert_eq!(handle_client(&send_command(RemoteCommand::Ping)), None);
    assert_eq!(handle_client(" \tCoMplete \r\n"), Some(RemoteSignal::Complete));
    assert_eq!(handle_client("completed\n"), None);
    assert_eq!(handle_client(""), None);
}

#[test]
fn a_socket_in_use_is_left_alone() {
    assert_eq!(prepare_socket(false, false, "/s"), Ok(SocketPreparation::Ready));
    assert_eq!(
        prepare_socket(true, false, "/s"),
        Ok(SocketPreparation::RemoveStale)
    );
    assert_eq!(
        prepare_socket(true, true, "/s"),
        Err("Remote socket already in use at /s".to_string())
    );
}

fn shown(location: &Location) -> String {
    let base = match &location.base {
        Base::Home => "~".to_string(),
        Base::Temp => "<temp>".to_string(),
        Base::Given(path) => path.clone(),
    };
    let mut out = base;
    for component in &location.components {
        out.push('/');
        out.push_str(component);
    }
    out
}

#[test]
fn everything_has_its_place() {
    assert_eq!(shown(&ostt_data_dir(true).unwrap()), "~/.local/share/ostt");
    assert_eq!(
        shown(&ostt_state_dir(None, true).unwrap()),
        "~/.local/state/ostt"
    );
    assert_eq!(shown(&ostt_state_dir(Some("/st"), false).unwrap()), "/st/ostt");
    assert_eq!(
        shown(&transcription_debug_log_path(Some("/st"), true).unwrap()),
        "/st/ostt/transcription-latest.log"
    );
    assert_eq!(
        shown(&keywords_file(true).unwrap()),
        "~/.config/ostt/keywords.txt"
    );
    assert_eq!(
        shown(&get_config_path(true).unwrap()),
        "~/.config/ostt/ostt.toml"
    );
    assert_eq!(
        shown(&recordings_cache_dir(true).unwrap()),
        "~/.local/share/ostt/cache/recordings"
    );
    assert_eq!(shown(&create_temp_wav_path(77)), "<temp>/ostt_77.wav");
    assert_eq!(ostt_data_dir(false).unwrap_err(), NoHomeDirectory);
    assert_eq!(ostt_state_dir(None, false).unwrap_err(), NoHomeDirectory);
    assert_eq!(
        transcription_debug_log_path(None, false).unwrap_err(),
        NoHomeDirectory
    );
    assert_eq!(keywords_file(false).unwrap_err(), NoHomeDirectory);
    assert_eq!(get_config_path(false).unwrap_err(), NoHomeDirectory);
    assert_eq!(recordings_cache_dir(false).unwrap_err(), NoHomeDirectory);
    assert_eq!(NoHomeDirectory.message(), "Could not determine home directory");
    assert_eq!(
        NoHomeDirectory.config_message(),
        "Could not find home directory"
    );
}

#[test]
fn the_socket_can_be_chosen() {
    assert_eq!(shown(&socket_path(Some(" /s "), Some("/run"))), " /s ");
    assert_eq!(shown(&socket_path(Some("  "), Some("/run"))), "/run/ostt.sock");
    assert_eq!(shown(&socket_path(None, Some(""))), "<temp>/ostt.sock");
    assert_eq!(shown(&socket_path(None, None)), "<temp>/ostt.sock");
}

fn configured(provider: Option<&str>, api_key: Option<&str>) -> OsttConfig {
    OsttConfig {
        audio: AudioConfig {
            device: "default".to_string(),
            sample_rate: 16000,
            peak_volume_threshold: default_peak_volume_threshold(),
            reference_level_db: default_reference_level_db(),
            output_format: default_output_format(),
            visualization: VisualizationType::default(),
        },
        transcription: TranscriptionOverrideConfig {
            provider: provider.map(str::to_string),
            model: None,
            endpoint: None,
            api_key: api_key.map(str::to_string),
        },
    }
}

#[test]
fn the_configuration_has_defaults() {
    let config = configured(None, None);
    assert_eq!(config.audio.peak_volume_threshold, 90);
    assert_eq!(config.audio.reference_level_db, -20);
    assert_eq!(config.audio.output_format, "mp3 -ab 16k -ar 12000");
    assert_eq!(config.audio.visualization, VisualizationType::Spectrum);
    assert_eq!(VisualizationType::Spectrum.as_str(), "spectrum");
    assert_eq!(VisualizationType::Waveform.as_str(), "waveform");
}

#[test]
fn the_environment_overrides_the_configuration() {
    let env = TranscriptionEnv {
        provider: Some(" groq ".to_string()),
        model: Some("whisper".to_string()),
        endpoint: Some("  ".to_string()),
        api_key: None,
    };
    let overrides = load_transcription_overrides(&configured(Some("openai"), Some("key")), &env);
    assert_eq!(overrides.provider.as_deref(), Some("groq"));
    assert_eq!(overrides.model.as_deref(), Some("whisper"));
    assert_eq!(overrides.endpoint, None);
    assert_eq!(overrides.api_key.as_deref(), Some("key"));
    assert!(overrides.is_configured());
    assert!(!TranscriptionOverrides::default().is_configured());
    assert_eq!(env_optional(&Some(" a b ".to_string())).as_deref(), Some("a b"));
    assert_eq!(env_optional(&Some("\n".to_string())), None);
    assert_eq!(env_optional(&None), None);
}

fn model() -> TranscriptionModel {
    TranscriptionModel {
        id: "openai-whisper".to_string(),
        provider: TranscriptionProvider::OpenAI,
        api_model_name: "whisper-1".to_string(),
        endpoint: "https://api.example/v1".to_string(),
    }
}

#[test]
fn overrides_replace_what_the_model_says() {
    let plain = TranscriptionConfig::new(model(), "key".to_string(), vec!["k".to_string()], ());
    assert_eq!(plain.api_model_name(), "whisper-1");
    assert_eq!(plain.endpoint(), "https://api.example/v1");
    assert_eq!(plain.model_label(), "openai-whisper");
    assert_eq!(
        plain.auth_hint(),
        "Please run 'ostt auth' to update your API key."
    );
    assert_eq!(plain.provider(), TranscriptionProvider::OpenAI);
    assert_eq!(plain.keywords, vec!["k"]);
    let other = TranscriptionConfig::new_with_overrides(
        model(),
        String::new(),
        Vec::new(),
        7,
        Some("large".to_string()),
        Some("http://localhost".to_string()),
        true,
    );
    assert_eq!(other.api_model_name(), "large");
    assert_eq!(other.endpoint(), "http://localhost");
    assert_eq!(other.model_label(), "large");
    assert_eq!(
        other.auth_hint(),
        "Set OSTT_TRANSCRIPTION_API_KEY if your endpoint requires auth."
    );
    assert_eq!(other.providers, 7);
    let response = TranscriptionResponse { text: "hi".to_string() };
    assert_eq!(response.text, "hi");
}
