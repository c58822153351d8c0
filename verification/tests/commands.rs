use ostt::commands::cache::{
    prune_recording_cache, recording_cache_filename, recording_extension, stamped_filename,
    CacheEntry, RECORDING_CACHE_RETENTION,
};
use ostt::commands::finish::{FinishEvent, FinishMove, FinishStep};
use ostt::commands::output::{
    after_helper, allow_ydotool_fallback, contextualize_bin, helper_failure, key_sender_outcome,
    paste_header_label, paste_transcription, paste_transcription_with_wrapctl, read_output_mode,
    read_stream_duration_ms, read_transcription_timeout, read_type_delay_ms,
    read_type_start_delay_ms, resolve_output_mode, send_macos_paste_shortcut,
    send_ydotool_paste_shortcut, stream_transcription_preview, type_header_label, wrapctl_bin,
    ydotool_bin, PasteNext, PasteRoute, Typing,
};
use ostt::commands::record::{
    command_error, delivery, delivery_outcome, error_screen, listens, record_ending, Delivery,
    FailedPart, RecordEnding, RecordOutcome, RecordingMode,
};
use ostt::commands::session::{remote_event, LoopEvent, LoopStep, RecordingLoop};
use ostt::commands::transcript::{
    after_history, append_transcription_debug_log, build_contextualize_args, finalize_report, outcome_lines, outcome_log,
    parse_transcription_output, reset_transcription_debug_log, run_transcription_command,
    stderr_text, transcript_from, transcription_report, transcription_start, CommandOutcome,
    ExitState, HistoryOutcome, TaskResult, WhisperSettings, CONTEXTUALIZE_CACHE_TTL,
};
use ostt::outside::UtcTime;
use ostt::platform::Platform;
use ostt::recording::RecordingCommand;
use ostt::remote::{RemoteOutputMode, RemoteSignal};

fn exited(success: bool, text: &str) -> ExitState {
    ExitState {
        success,
        text: text.to_string(),
    }
}

fn finished(stdout: &[u8], stderr: &[u8], success: bool, status: &str) -> CommandOutcome {
    CommandOutcome::Finished {
        stdout: stdout.to_vec(),
        stderr: stderr.to_vec(),
        status: exited(success, status),
    }
}

#[test]
fn build_contextualize_args_includes_keywords_file() {
    let args = build_contextualize_args("/tmp/audio.mp3", Some("/tmp/keywords.txt"));

    assert_eq!(
        args,
        vec![
            "--verbose",
            "cat",
            "-f",
            "raw",
            "--cache-ttl",
            CONTEXTUALIZE_CACHE_TTL,
            "--transcribe-prompt-file",
            "/tmp/keywords.txt",
            "/tmp/audio.mp3",
        ]
    );
}

#[test]
fn build_contextualize_args_omits_keywords_file() {
    let args = build_contextualize_args("/tmp/audio.mp3", None);

    assert_eq!(
        args,
        vec![
            "--verbose",
            "cat",
            "-f",
            "raw",
            "--cache-ttl",
            CONTEXTUALIZE_CACHE_TTL,
            "/tmp/audio.mp3",
        ]
    );
    assert_eq!(CONTEXTUALIZE_CACHE_TTL, "7d");
}

#[test]
fn prune_recording_cache_removes_only_expired_files() {
    let stale_modified: i128 = 1_700_000_000_000_000_000;
    let spacing: i128 = 20_000_000;
    let stale = CacheEntry {
        is_file: true,
        modified: Some(stale_modified),
    };
    let fresh = CacheEntry {
        is_file: true,
        modified: Some(stale_modified + spacing),
    };
    let now = stale_modified + RECORDING_CACHE_RETENTION + spacing / 2;

    let removed = prune_recording_cache(&vec![stale, fresh], now, RECORDING_CACHE_RETENTION);

    assert!(removed.contains(&0));
    assert!(!removed.contains(&1));
}

#[test]
fn prune_leaves_what_is_no_old_file() {
    let day: i128 = 24 * 60 * 60 * 1_000_000_000;
    assert_eq!(RECORDING_CACHE_RETENTION, 7 * day);
    let entries = vec![
        CacheEntry { is_file: false, modified: Some(0) },
        CacheEntry { is_file: true, modified: None },
        CacheEntry { is_file: true, modified: Some(100 * day) },
        CacheEntry { is_file: true, modified: Some(93 * day) },
        CacheEntry { is_file: true, modified: Some(93 * day - 1) },
        CacheEntry { is_file: true, modified: Some(101 * day) },
        CacheEntry { is_file: true, modified: Some(-5) },
    ];
    assert_eq!(
        prune_recording_cache(&entries, 100 * day, RECORDING_CACHE_RETENTION),
        vec![4, 6]
    );
    assert_eq!(
        prune_recording_cache(&entries, 101 * day, RECORDING_CACHE_RETENTION),
        vec![3, 4, 6]
    );
    let extremes = vec![CacheEntry { is_file: true, modified: Some(i128::MIN) }];
    assert_eq!(prune_recording_cache(&extremes, i128::MAX, 0), vec![0]);
}

#[test]
fn run_transcription_command_returns_trimmed_stdout() {
    let outcome = finished(b" hello world \n", b"", true, "exit status: 0");
    let transcript = run_transcription_command("sh", 1, &outcome).unwrap();
    assert_eq!(transcript, "hello world");
}

#[test]
fn run_transcription_command_rejects_empty_stdout() {
    let outcome = finished(b"", b"", true, "exit status: 0");
    let err = run_transcription_command("sh", 1, &outcome).unwrap_err();
    assert!(err.contains("returned no transcript"));
    assert_eq!(err, "sh returned no transcript.");
    let outcome = finished(b" \n", b" quiet \n", true, "exit status: 0");
    let err = run_transcription_command("sh", 1, &outcome).unwrap_err();
    assert_eq!(err, "sh returned no transcript. quiet");
}

#[test]
fn run_transcription_command_uses_stderr_on_failure() {
    let outcome = finished(b"", b"boom", false, "exit status: 3");
    let err = run_transcription_command("sh", 1, &outcome).unwrap_err();
    assert!(err.contains("boom"));
    assert_eq!(err, "sh failed: boom");
    let outcome = finished(b"text", b" ", false, "exit status: 3");
    let err = run_transcription_command("sh", 1, &outcome).unwrap_err();
    assert_eq!(err, "sh exited with status exit status: 3");
}

#[test]
fn run_transcription_command_times_out_for_stalled_process() {
    let err = run_transcription_command("sh", 0, &CommandOutcome::TimedOut).unwrap_err();
    assert!(err.contains("timed out"));
    assert_eq!(
        err,
        "sh timed out after 1s. Set OSTT_CONTEXTUALIZE_TIMEOUT_SECONDS to allow longer transcriptions."
    );
    let err = run_transcription_command("sh", 120, &CommandOutcome::TimedOut).unwrap_err();
    assert!(err.contains("after 120s."));
}

#[test]
fn run_transcription_command_reports_missing_binary() {
    let outcome = CommandOutcome::NotFound("No such file".to_string());
    let err =
        run_transcription_command("ostt-binary-that-does-not-exist", 1, &outcome).unwrap_err();
    assert!(err.contains("Could not find"));
    assert_eq!(
        err,
        "Could not find 'ostt-binary-that-does-not-exist' on PATH. Install contextualize before recording."
    );
    let outcome = CommandOutcome::NotStarted("Permission denied".to_string());
    let err = run_transcription_command("sh", 1, &outcome).unwrap_err();
    assert_eq!(err, "Failed to run 'sh': Permission denied");
}

#[test]
fn output_that_is_no_text_is_refused() {
    let bytes = [0x66, 0xff, 0x6f];
    let err =
        parse_transcription_output("sh", &bytes, b"", &exited(true, "exit status: 0")).unwrap_err();
    let reason = String::from_utf8(bytes.to_vec()).unwrap_err().to_string();
    assert_eq!(err, format!("sh returned invalid UTF-8 on stdout: {}", reason));
    let text = "  été 日本 \u{3000}".as_bytes();
    assert_eq!(
        parse_transcription_output("sh", text, b"", &exited(true, "")),
        Ok("été 日本".to_string())
    );
}

#[test]
fn errors_that_are_no_text_are_shown_as_far_as_they_are() {
    assert_eq!(stderr_text(&[0x20, 0x66, 0xff, 0x6f, 0x0a]), "f\u{fffd}o");
    assert_eq!(stderr_text("né\n".as_bytes()), "né");
    let err = parse_transcription_output("sh", b"", &[0xff], &exited(false, "x")).unwrap_err();
    assert_eq!(err, "sh failed: \u{fffd}");
}

#[test]
fn the_decoded_output_decides() {
    let ok = exited(true, "");
    assert_eq!(
        transcript_from("p", &Ok(" t ".to_string()), "said", &ok),
        Ok("t".to_string())
    );
    assert_eq!(
        transcript_from("p", &Err("bad".to_string()), "said", &ok),
        Err("p returned invalid UTF-8 on stdout: bad".to_string())
    );
}

#[test]
fn the_log_begins_with_the_settings() {
    let now = UtcTime { secs: 1_700_000_000, nanos: 5_000_000 };
    let whisper = WhisperSettings {
        url: "http://w".to_string(),
        api_base: String::new(),
        model: "large".to_string(),
    };
    assert_eq!(
        reset_transcription_debug_log(now, "/a.mp3", "contextualize", 120, &whisper),
        "timestamp=2023-11-14T22:13:20.005+00:00\naudio_path=/a.mp3\ncontextualize_bin=contextualize\ncontextualize_timeout_seconds=120\nwhisper_url=http://w\nwhisper_api_base=\nwhisper_model=large\n"
    );
    assert_eq!(
        append_transcription_debug_log(now, "phase=finalize-start"),
        "2023-11-14T22:13:20.005+00:00 phase=finalize-start\n"
    );
    let whole = UtcTime { secs: 0, nanos: 0 };
    assert_eq!(
        append_transcription_debug_log(whole, "x"),
        "1970-01-01T00:00:00+00:00 x\n"
    );
}

#[test]
fn the_log_notes_how_the_program_ended() {
    assert_eq!(
        outcome_log("sh", 0, &CommandOutcome::TimedOut),
        vec!["phase=subprocess-timeout program=sh timeout_seconds=1"]
    );
    assert_eq!(
        outcome_log("sh", 9, &CommandOutcome::NotFound("gone".to_string())),
        vec!["phase=subprocess-spawn-error program=sh error=gone"]
    );
    assert_eq!(
        outcome_log("sh", 9, &CommandOutcome::NotStarted("denied".to_string())),
        vec!["phase=subprocess-spawn-error program=sh error=denied"]
    );
    assert_eq!(
        outcome_log("sh", 9, &finished(b"abc", b"no", false, "exit status: 3")),
        vec![
            "phase=subprocess-exit success=false status=exit status: 3 stdout_bytes=3 stderr_bytes=2",
            "stderr=no"
        ]
    );
    assert_eq!(
        outcome_log("sh", 9, &finished(b"abc", b" ", true, "exit status: 0")).len(),
        1
    );
    assert_eq!(
        outcome_log("sh", 9, &finished(b"", &[0x20, 0xff, 0x0a], true, "s"))[1],
        "stderr=\u{fffd}"
    );
    assert_eq!(
        outcome_lines("sh", 9, &finished(b"", b"x", true, "s"), "said")[1],
        "stderr=said"
    );
}

#[test]
fn a_transcription_needs_a_recording() {
    assert_eq!(
        transcription_start(true, "/a.mp3", 120),
        Ok("phase=transcribe-start audio_path=/a.mp3 timeout_seconds=120".to_string())
    );
    assert_eq!(
        transcription_start(false, "/a.mp3", 120),
        Err("No audio was captured.".to_string())
    );
}

#[test]
fn tasks_are_reported() {
    let done = transcription_report(TaskResult::Done("été".to_string())).unwrap();
    assert_eq!(done.text, "été");
    assert_eq!(done.log, "phase=transcribe-finished transcript_chars=3");
    let failed = transcription_report(TaskResult::Failed("no".to_string())).unwrap_err();
    assert_eq!(failed.log, "phase=transcribe-error error=no");
    assert_eq!(failed.screen, "Error: Transcription failed - no");
    assert_eq!(failed.error, "no");
    let crashed = transcription_report(TaskResult::Crashed("panic".to_string())).unwrap_err();
    assert_eq!(crashed.log, "phase=transcribe-task-error error=panic");
    assert_eq!(crashed.screen, "Error: Transcription task failed - panic");
    assert_eq!(crashed.error, "Transcription task failed: panic");
    let saved = finalize_report(TaskResult::Done("/a.mp3".to_string())).unwrap();
    assert_eq!(saved.text, "/a.mp3");
    assert_eq!(saved.log, "phase=finalize-finished audio_path=/a.mp3");
    let failed = finalize_report(TaskResult::Failed("no".to_string())).unwrap_err();
    assert_eq!(failed.screen, "Error: Failed to save recording - no");
    assert_eq!(failed.error, "no");
    let crashed = finalize_report(TaskResult::Crashed("panic".to_string())).unwrap_err();
    assert_eq!(crashed.log, "phase=finalize-task-error error=panic");
    assert_eq!(crashed.screen, "Error: Recording save task failed - panic");
    assert_eq!(crashed.error, "Recording save task failed: panic");
}

#[test]
fn extensions_follow_the_codec() {
    assert_eq!(recording_extension("mp3 -ab 16k -ar 12000"), "mp3");
    assert_eq!(recording_extension("libopus -b:a 24k"), "ogg");
    assert_eq!(recording_extension("libvorbis"), "ogg");
    assert_eq!(recording_extension(" flac "), "flac");
    assert_eq!(recording_extension("aac"), "m4a");
    assert_eq!(recording_extension("pcm_s16le"), "wav");
    assert_eq!(recording_extension(""), "mp3");
    assert_eq!(recording_extension("  "), "mp3");
}

#[test]
fn recordings_are_named_by_time_and_process() {
    let now = UtcTime { secs: 1_700_000_000, nanos: 7_999_999 };
    assert_eq!(
        recording_cache_filename(now, 42, "mp3"),
        "20231114T221320Z-42-007.mp3"
    );
    assert_eq!(stamped_filename("S", 1, 999, "ogg"), "S-1-999.ogg");
}

#[test]
fn output_settings_have_defaults() {
    assert_eq!(read_output_mode(None), RemoteOutputMode::Paste);
    for word in ["type", "typed", "manual", " TYPE\n", "Manual"] {
        assert_eq!(read_output_mode(Some(word)), RemoteOutputMode::Type);
    }
    assert_eq!(read_output_mode(Some("typing")), RemoteOutputMode::Paste);
    assert_eq!(
        resolve_output_mode(Some(RemoteOutputMode::Paste), Some("type")),
        RemoteOutputMode::Paste
    );
    assert_eq!(resolve_output_mode(None, Some("type")), RemoteOutputMode::Type);
    assert_eq!(read_type_delay_ms(None), 8);
    assert_eq!(read_type_delay_ms(Some(" 25 ")), 25);
    assert_eq!(read_type_delay_ms(Some("-1")), 8);
    assert_eq!(read_type_start_delay_ms(None), 120);
    assert_eq!(read_type_start_delay_ms(Some("0")), 0);
    assert_eq!(read_stream_duration_ms(None), 300);
    assert_eq!(read_stream_duration_ms(Some("x")), 300);
    assert_eq!(read_stream_duration_ms(Some("1")), 50);
    assert_eq!(read_stream_duration_ms(Some("6000")), 5000);
    assert_eq!(read_stream_duration_ms(Some("400")), 400);
    assert_eq!(read_transcription_timeout(None), 120);
    assert_eq!(read_transcription_timeout(Some("0")), 120);
    assert_eq!(read_transcription_timeout(Some("600")), 600);
    assert_eq!(ydotool_bin(None), "ydotool");
    assert_eq!(ydotool_bin(Some(" /bin/y ")), "/bin/y");
    assert_eq!(wrapctl_bin(Some("  ")), "wrapctl");
    assert_eq!(contextualize_bin(None), "contextualize");
    assert_eq!(contextualize_bin(Some("ctx")), "ctx");
    assert!(allow_ydotool_fallback(Some(" On ")));
    assert!(allow_ydotool_fallback(Some("1")));
    assert!(!allow_ydotool_fallback(Some("2")));
    assert!(!allow_ydotool_fallback(None));
    assert_eq!(paste_header_label(Platform::Linux), "pasted via wrapd");
    assert_eq!(paste_header_label(Platform::MacOs), "pasted via cmd+v");
    assert_eq!(paste_header_label(Platform::Windows), "pasted");
    assert_eq!(type_header_label(), "typing via ydotool");
}

#[test]
fn a_preview_begins_with_nothing_and_ends_with_everything() {
    assert_eq!(stream_transcription_preview(10, 64), vec![0, 3, 6, 9, 10]);
    assert_eq!(stream_transcription_preview(3, 5), vec![0, 3]);
    assert_eq!(stream_transcription_preview(0, 300), vec![0]);
    let counts = stream_transcription_preview(5, 300);
    assert_eq!(counts.len(), 19);
    assert_eq!(counts[4], 4);
    assert_eq!(counts[18], 5);
}

#[test]
fn typing_hands_out_each_character_once() {
    let mut typing = Typing::new("aé");
    let first = typing.next().unwrap();
    assert_eq!((first.ch, first.typed), ('a', 1));
    let second = typing.next().unwrap();
    assert_eq!((second.ch, second.typed), ('é', 2));
    assert!(typing.next().is_none());
    assert!(typing.next().is_none());
    assert!(Typing::new("").next().is_none());
}

#[test]
fn pasting_falls_back_only_when_allowed() {
    assert_eq!(paste_transcription(Platform::Linux), PasteRoute::Helper);
    assert_eq!(paste_transcription(Platform::MacOs), PasteRoute::Shortcut);
    assert_eq!(paste_transcription(Platform::Other), PasteRoute::Unsupported);
    assert!(matches!(after_helper(Ok(()), false), PasteNext::Done));
    assert!(matches!(
        after_helper(Err("no".to_string()), true),
        PasteNext::FallBack
    ));
    match after_helper(Err("no".to_string()), false) {
        PasteNext::Fail(error) => assert_eq!(error, "no"),
        other => panic!("{:?}", other),
    }
    assert_eq!(paste_transcription_with_wrapctl(true, "s", b"noise"), Ok(()));
    assert_eq!(
        paste_transcription_with_wrapctl(false, "exit status: 1", b" \n"),
        Err("wrapctl paste-stdin exited with status exit status: 1".to_string())
    );
    assert_eq!(
        paste_transcription_with_wrapctl(false, "exit status: 1", &[0x20, 0xff]),
        Err("wrapctl paste-stdin failed: \u{fffd}".to_string())
    );
    assert_eq!(
        helper_failure("s", "said"),
        Err("wrapctl paste-stdin failed: said".to_string())
    );
    assert_eq!(key_sender_outcome("ydotool", true, "s"), Ok(()));
    assert_eq!(
        key_sender_outcome("ydotool", false, "s"),
        Err("ydotool exited with status s".to_string())
    );
    assert_eq!(
        send_ydotool_paste_shortcut(),
        vec!["key", "29:1", "42:1", "47:1", "47:0", "42:0", "29:0"]
    );
    assert_eq!(send_macos_paste_shortcut()[0], "-e");
}

#[test]
fn failures_are_explained() {
    assert_eq!(
        error_screen(FailedPart::Configuration, "bad key"),
        "Configuration Error:\n\nbad key\n\nPlease check your ~/.config/ostt/ostt.toml file and try again."
    );
    assert_eq!(
        error_screen(FailedPart::RemoteListener, "busy"),
        "Remote Control Error:\n\nbusy\n\nClose any running ostt remote instance and try again."
    );
    assert_eq!(
        error_screen(FailedPart::Recording, "no device"),
        "Recording Error:\n\nno device\n\nPlease check your audio configuration and try again."
    );
    assert_eq!(
        error_screen(FailedPart::Output, "no"),
        "Error: Failed to type transcription.\n\nno"
    );
    assert_eq!(
        command_error(FailedPart::Configuration, "x"),
        "Configuration error: x"
    );
    assert_eq!(
        command_error(FailedPart::RemoteListener, "x"),
        "Remote listener error: x"
    );
    assert_eq!(command_error(FailedPart::Recording, "x"), "x");
    assert_eq!(command_error(FailedPart::Output, "x"), "x");
}

#[test]
fn transcriptions_go_where_they_are_wanted() {
    assert!(listens(RecordingMode::Remote));
    assert!(!listens(RecordingMode::Interactive));
    assert_eq!(
        delivery(RecordingMode::Interactive, None, Some("type")),
        Delivery::Clipboard
    );
    assert_eq!(delivery(RecordingMode::Remote, None, Some("type")), Delivery::Type);
    assert_eq!(delivery(RecordingMode::Remote, None, None), Delivery::Paste);
    assert_eq!(
        delivery(RecordingMode::Remote, Some(RemoteOutputMode::Type), None),
        Delivery::Type
    );
    assert_eq!(
        delivery(RecordingMode::Remote, Some(RemoteOutputMode::Paste), Some("type")),
        Delivery::Paste
    );
}

#[test]
fn the_command_ends_as_the_recording_did() {
    assert!(matches!(record_ending(&RecordOutcome::Saved), RecordEnding::Success));
    assert!(matches!(record_ending(&RecordOutcome::Delivered), RecordEnding::Success));
    match record_ending(&RecordOutcome::NotSaved("full".to_string())) {
        RecordEnding::Error(error) => assert_eq!(error, "full"),
        other => panic!("{:?}", other),
    }
    match record_ending(&RecordOutcome::NotTranscribed("no".to_string())) {
        RecordEnding::Warning(text) => assert_eq!(text, "Warning: Transcription failed: no"),
        other => panic!("{:?}", other),
    }
    match record_ending(&RecordOutcome::NotDelivered("no".to_string())) {
        RecordEnding::Failure { screen, error } => {
            assert_eq!(screen, "Error: Failed to type transcription.\n\nno");
            assert_eq!(error, "no");
        }
        other => panic!("{:?}", other),
    }
}

#[test]
fn only_pasting_and_typing_can_fail_to_deliver() {
    let failed = || Err("no".to_string());
    assert!(matches!(
        delivery_outcome(Delivery::Clipboard, failed()),
        RecordOutcome::Delivered
    ));
    for target in [Delivery::Paste, Delivery::Type] {
        assert!(matches!(delivery_outcome(target, Ok(())), RecordOutcome::Delivered));
        match delivery_outcome(target, failed()) {
            RecordOutcome::NotDelivered(error) => assert_eq!(error, "no"),
            other => panic!("{:?}", other),
        }
    }
}

#[test]
fn the_history_may_fail_to_note() {
    let text = || "t".to_string();
    assert_eq!(after_history(text(), HistoryOutcome::Saved), Ok(text()));
    assert_eq!(
        after_history(text(), HistoryOutcome::NotSaved("full".to_string())),
        Ok(text())
    );
    assert_eq!(
        after_history(text(), HistoryOutcome::NotOpened("gone".to_string())),
        Err("gone".to_string())
    );
}

fn done(text: &str) -> TaskResult {
    TaskResult::Done(text.to_string())
}

#[test]
fn a_recording_is_saved_transcribed_and_noted() {
    let moved = FinishStep::Save.advance(FinishEvent::Saved(done("/a.mp3")));
    assert_eq!(
        moved.log.as_deref(),
        Some("phase=finalize-finished audio_path=/a.mp3")
    );
    assert_eq!(moved.screen, None);
    assert!(matches!(moved.next, FinishStep::Start));
    let moved = moved.next.advance(FinishEvent::Started(Ok(())));
    assert!(matches!(moved.next, FinishStep::Transcribe));
    let moved = moved.next.advance(FinishEvent::Transcribed(done("hi")));
    assert_eq!(
        moved.log.as_deref(),
        Some("phase=transcribe-finished transcript_chars=2")
    );
    match &moved.next {
        FinishStep::NoteHistory(text) => assert_eq!(text, "hi"),
        other => panic!("{:?}", other),
    }
    let full = HistoryOutcome::NotSaved("full".to_string());
    match moved.next.advance(FinishEvent::Noted(full)).next {
        FinishStep::Done(text) => assert_eq!(text, "hi"),
        other => panic!("{:?}", other),
    }
}

fn failure(moved: FinishMove) -> String {
    match moved.next {
        FinishStep::Failed(error) => error,
        other => panic!("{:?}", other),
    }
}

#[test]
fn a_recording_that_is_not_saved_is_not_transcribed() {
    let failed = || TaskResult::Failed("full".to_string());
    let moved = FinishStep::Save.advance(FinishEvent::Saved(failed()));
    assert_eq!(
        moved.screen.as_deref(),
        Some("Error: Failed to save recording - full")
    );
    let moved = moved.next.advance(FinishEvent::Started(Ok(())));
    let moved = moved.next.advance(FinishEvent::Transcribed(done("hi")));
    assert_eq!(failure(moved), "full");
    let crashed = TaskResult::Crashed("panic".to_string());
    assert_eq!(
        failure(FinishStep::Save.advance(FinishEvent::Saved(crashed))),
        "Recording save task failed: panic"
    );
    let gone = FinishEvent::Started(Err("No audio was captured.".to_string()));
    assert_eq!(failure(FinishStep::Start.advance(gone)), "No audio was captured.");
    assert_eq!(
        failure(FinishStep::Transcribe.advance(FinishEvent::Transcribed(failed()))),
        "full"
    );
    let closed = FinishEvent::Noted(HistoryOutcome::NotOpened("no home".to_string()));
    assert_eq!(
        failure(FinishStep::NoteHistory("hi".to_string()).advance(closed)),
        "no home"
    );
}

fn steps(mode: RecordingMode, events: &[LoopEvent]) -> Vec<LoopStep> {
    let mut session = RecordingLoop::new(mode);
    let mut out = vec![session.step];
    for event in events {
        session.advance(*event);
        out.push(session.step);
    }
    out
}

#[test]
fn a_recording_runs_until_it_is_to_be_transcribed() {
    let input = LoopEvent::Input;
    assert_eq!(
        steps(
            RecordingMode::Interactive,
            &[
                LoopEvent::Signalled(false),
                input(RecordingCommand::Continue),
                LoopEvent::Done,
                LoopEvent::Signalled(false),
                input(RecordingCommand::TogglePause),
                LoopEvent::Done,
                LoopEvent::Signalled(false),
                input(RecordingCommand::Transcribe),
            ]
        ),
        vec![
            LoopStep::CheckSignal,
            LoopStep::PollInput,
            LoopStep::Render,
            LoopStep::CheckSignal,
            LoopStep::PollInput,
            LoopStep::TogglePause,
            LoopStep::CheckSignal,
            LoopStep::PollInput,
            LoopStep::Transcribe,
        ]
    );
    assert_eq!(
        steps(RecordingMode::Interactive, &[LoopEvent::Signalled(true)]),
        vec![LoopStep::CheckSignal, LoopStep::Transcribe]
    );
}

#[test]
fn a_cancelled_recording_is_only_saved() {
    let input = LoopEvent::Input;
    assert_eq!(
        steps(
            RecordingMode::Remote,
            &[
                LoopEvent::RemoteIdle,
                LoopEvent::Signalled(false),
                input(RecordingCommand::Cancel),
                LoopEvent::Done,
                input(RecordingCommand::Transcribe),
                LoopEvent::Animated(false),
                LoopEvent::Failed,
                LoopEvent::Animated(true),
            ]
        ),
        vec![
            LoopStep::PollRemote,
            LoopStep::CheckSignal,
            LoopStep::PollInput,
            LoopStep::StartCancel,
            LoopStep::PollCancelInput,
            LoopStep::RenderCancel,
            LoopStep::PollCancelInput,
            LoopStep::RenderCancel,
            LoopStep::SaveOnly,
        ]
    );
    assert_eq!(
        steps(
            RecordingMode::Remote,
            &[
                LoopEvent::RemoteCancel,
                LoopEvent::Done,
                input(RecordingCommand::Cancel)
            ]
        ),
        vec![
            LoopStep::PollRemote,
            LoopStep::StartCancel,
            LoopStep::PollCancelInput,
            LoopStep::SaveOnly,
        ]
    );
}

#[test]
fn a_remote_request_completes_a_recording() {
    let mut session = RecordingLoop::new(RecordingMode::Remote);
    session.advance(LoopEvent::RemoteComplete(Some(RemoteOutputMode::Type)));
    assert_eq!(session.step, LoopStep::Transcribe);
    assert_eq!(session.output_override, Some(RemoteOutputMode::Type));
    assert_eq!(
        remote_event(Some(RemoteSignal::Complete)),
        LoopEvent::RemoteComplete(None)
    );
    assert_eq!(remote_event(Some(RemoteSignal::Cancel)), LoopEvent::RemoteCancel);
    assert_eq!(remote_event(None), LoopEvent::RemoteIdle);
}

#[test]
fn errors_end_the_recording() {
    assert_eq!(
        steps(
            RecordingMode::Interactive,
            &[LoopEvent::Signalled(false), LoopEvent::Failed]
        )[2],
        LoopStep::Fail
    );
    assert_eq!(
        steps(
            RecordingMode::Interactive,
            &[
                LoopEvent::Signalled(false),
                LoopEvent::Input(RecordingCommand::Continue),
                LoopEvent::Failed
            ]
        )[3],
        LoopStep::Fail
    );
}
