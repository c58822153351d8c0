use ostt::platform::Platform;
use ostt::recording::audio::{handle_audio_callback, NoSamplesRecorded};
use ostt::recording::devices::{
    best_match, default_order, device_log, find_device_by_name, find_device_by_partial_name, hints,
    resolve_default_input_devices, resolve_linux_session_default_input_device, score,
    DeviceChoice, DeviceSearch, InputDevice, NoInputDevice,
};
use ostt::recording::ffmpeg::{
    candidates, conversion_outcome, convert_with_ffmpeg, ffmpeg_from_env, ffmpeg_probes,
    find_in_path, path_from_text, search_command, EmptyFormat, FfmpegNotFound, SearchOutput,
};
use ostt::recording::find_ffmpeg;
use ostt::recording::pulse::{
    command_stdout, linux_default_source_from_pactl, linux_default_source_name_from_wpctl,
    node_name_to_hint, pactl_default_source, pactl_source_description,
    strip_pulse_profile_suffix,
};
use ostt::recording::saving::{after_save, before_save, SaveStep, WavFormat};
use ostt::recording::{AudioRecorder, RecordedAudio};

fn strings(words: &[&str]) -> Vec<String> {
    words.iter().map(|w| w.to_string()).collect()
}

fn names(words: &[Option<&str>]) -> Vec<Option<String>> {
    words.iter().map(|w| w.map(str::to_string)).collect()
}

#[test]
fn test_find_ffmpeg() {
    match find_ffmpeg(Platform::Linux, None, &Vec::new(), &None) {
        Ok(path) => println!("Found ffmpeg at: {}", path),
        Err(e) => println!("ffmpeg not found (expected on CI): {}", e.message()),
    }
}

#[test]
fn ffmpeg_is_looked_for_in_order() {
    let found = Some(SearchOutput {
        success: true,
        stdout: b"/home/u/bin/ffmpeg\n".to_vec(),
    });
    let all = strings(&["/usr/local/bin/ffmpeg", "/usr/bin/ffmpeg", "/my ffmpeg"]);
    assert_eq!(
        find_ffmpeg(Platform::Linux, Some(" /my ffmpeg "), &all, &found).unwrap(),
        "/my ffmpeg"
    );
    assert_eq!(
        find_ffmpeg(Platform::Linux, Some("/gone"), &all, &found).unwrap(),
        "/usr/bin/ffmpeg"
    );
    assert_eq!(
        find_ffmpeg(Platform::MacOs, None, &all, &found).unwrap(),
        "/usr/local/bin/ffmpeg"
    );
    assert_eq!(
        find_ffmpeg(Platform::Linux, Some("  "), &Vec::new(), &found).unwrap(),
        "/home/u/bin/ffmpeg"
    );
    assert_eq!(
        find_ffmpeg(Platform::Linux, None, &Vec::new(), &None).unwrap_err(),
        FfmpegNotFound
    );
    assert!(FfmpegNotFound.message().starts_with("ffmpeg not found. Please install ffmpeg:\n"));
}

#[test]
fn the_search_of_the_path_is_read() {
    let failed = Some(SearchOutput { success: false, stdout: b"/x\n".to_vec() });
    assert_eq!(find_in_path(&failed), None);
    let blank = Some(SearchOutput { success: true, stdout: b" \n".to_vec() });
    assert_eq!(find_in_path(&blank), None);
    let odd = Some(SearchOutput { success: true, stdout: vec![0x2f, 0xff, 0x0a] });
    assert_eq!(find_in_path(&odd).as_deref(), Some("/\u{fffd}"));
    assert_eq!(path_from_text(" /x \n").as_deref(), Some("/x"));
    assert_eq!(search_command(Platform::Windows), "where");
    assert_eq!(search_command(Platform::Linux), "which");
    assert_eq!(
        ffmpeg_from_env(Some("/a "), &strings(&["/a"])).as_deref(),
        Some("/a")
    );
    assert_eq!(ffmpeg_from_env(None, &strings(&["/a"])), None);
    assert!(ffmpeg_probes(Platform::Linux, Some("/a")).contains(&"/a".to_string()));
    for place in candidates(Platform::MacOs) {
        assert!(ffmpeg_probes(Platform::MacOs, None).contains(&place));
    }
}

#[test]
fn conversion_arguments_follow_the_format() {
    assert_eq!(
        convert_with_ffmpeg("/t.wav", "/o.mp3", "mp3 -ab  16k -ar 12000").unwrap(),
        vec![
            "-loglevel", "error", "-i", "/t.wav", "-acodec", "mp3", "-ac", "1", "-y", "-ab",
            "16k", "-ar", "12000", "/o.mp3",
        ]
    );
    assert_eq!(
        convert_with_ffmpeg("/t.wav", "/o.mp3", " \t").unwrap_err(),
        EmptyFormat
    );
    assert_eq!(EmptyFormat.message(), "Invalid format string: empty");
    assert_eq!(conversion_outcome(true, b"noise"), Ok(()));
    assert_eq!(
        conversion_outcome(false, b"bad codec\n"),
        Err("Audio encoding failed: bad codec\n".to_string())
    );
    assert_eq!(
        conversion_outcome(false, &[0xff]),
        Err("Audio encoding failed: \u{fffd}".to_string())
    );
}

#[test]
fn channels_are_mixed_to_mono() {
    let mut samples = vec![9];
    handle_audio_callback(&[1, -2, 3], &mut samples, 1);
    assert_eq!(samples, vec![9, 1, -2, 3]);
    let mut samples = Vec::new();
    handle_audio_callback(&[10, 20, -3, 0, i16::MAX, i16::MAX, i16::MIN, i16::MIN, 5], &mut samples, 2);
    assert_eq!(samples, vec![15, -1, i16::MAX, i16::MIN]);
    let mut samples = Vec::new();
    handle_audio_callback(&[1, 2, 6, -1, -2, -5, 7, 7], &mut samples, 3);
    assert_eq!(samples, vec![3, -2]);
}

#[test]
fn a_paused_recorder_takes_nothing() {
    let mut recorder = AudioRecorder::new(16000, "default".to_string());
    assert_eq!(recorder.sample_rate(), 16000);
    recorder.activate_device(48000, 2);
    assert_eq!(recorder.get_sample_rate(), 48000);
    recorder.receive(&[2, 4]);
    recorder.pause();
    assert!(recorder.is_paused());
    recorder.receive(&[100, 100]);
    recorder.resume();
    recorder.receive(&[6, 8]);
    recorder.toggle_pause();
    recorder.receive(&[100, 100]);
    recorder.toggle_pause();
    assert!(!recorder.is_paused());
    assert_eq!(recorder.samples(), vec![3, 7]);
    assert_eq!(recorder.get_samples(), vec![3, 7]);
    assert_eq!(recorder.sample_count(), 2);
    let audio = recorder.stop_recording().unwrap();
    assert_eq!(audio.sample_rate, 48000);
    assert_eq!(audio.samples, vec![3, 7]);
    assert_eq!(
        recorder.finish_recording().finish_log().as_deref(),
        Some("phase=finish-recording-done sample_rate=48000 sample_count=2")
    );
}

#[test]
fn an_empty_recording_cannot_be_stopped_into_a_file() {
    let recorder = AudioRecorder::new(16000, "default".to_string());
    assert_eq!(recorder.stop_recording().unwrap_err(), NoSamplesRecorded);
    assert_eq!(NoSamplesRecorded.message(), "No samples were recorded");
    assert!(recorder.uses_default_device());
    assert!(!AudioRecorder::new(16000, "Default".to_string()).uses_default_device());
    let audio = recorder.finish_recording();
    assert!(audio.samples.is_empty());
    assert_eq!(audio.finish_log(), None);
}

fn saved(wav: bool, converted: bool, removed: bool, checked: bool) -> Vec<SaveStep> {
    let audio = RecordedAudio { sample_rate: 8000, samples: vec![1] };
    let mut step = audio.save(Some("/o.mp3"));
    let mut out = vec![step];
    while step != SaveStep::Done && step != SaveStep::Failed {
        let succeeded = match step {
            SaveStep::WriteWav => wav,
            SaveStep::Convert => converted,
            SaveStep::RemoveTemp { .. } => removed,
            _ => checked,
        };
        step = step.next(succeeded);
        out.push(step);
    }
    out
}

#[test]
fn the_temporary_file_is_always_removed() {
    assert_eq!(
        saved(true, true, false, true),
        vec![
            SaveStep::WriteWav,
            SaveStep::Convert,
            SaveStep::RemoveTemp { converted: true },
            SaveStep::CheckOutput,
            SaveStep::Done,
        ]
    );
    assert_eq!(
        saved(true, false, true, true),
        vec![
            SaveStep::WriteWav,
            SaveStep::Convert,
            SaveStep::RemoveTemp { converted: false },
            SaveStep::Failed,
        ]
    );
    assert_eq!(
        saved(false, true, true, true),
        vec![
            SaveStep::WriteWav,
            SaveStep::RemoveTemp { converted: false },
            SaveStep::Failed,
        ]
    );
    assert_eq!(saved(true, true, true, false)[4], SaveStep::Failed);
}

#[test]
fn saving_is_logged() {
    let audio = RecordedAudio { sample_rate: 8000, samples: vec![1] };
    assert_eq!(audio.save(None), SaveStep::Done);
    assert_eq!(
        audio.save_wav(),
        WavFormat { channels: 1, sample_rate: 8000, bits_per_sample: 16 }
    );
    assert_eq!(
        before_save(SaveStep::WriteWav, "/t.wav", 12, "/o", "mp3 x").as_deref(),
        Some("phase=save-wav-start temp_wav=/t.wav samples=12")
    );
    assert_eq!(
        before_save(SaveStep::Convert, "/t.wav", 12, "/o", "mp3 x").as_deref(),
        Some("phase=ffmpeg-start output=/o format=mp3 x")
    );
    assert_eq!(before_save(SaveStep::CheckOutput, "/t.wav", 12, "/o", "mp3"), None);
    assert_eq!(
        after_save(SaveStep::WriteWav, "/t.wav", "/o").as_deref(),
        Some("phase=save-wav-done temp_wav=/t.wav")
    );
    assert_eq!(
        after_save(SaveStep::Convert, "/t.wav", "/o").as_deref(),
        Some("phase=ffmpeg-done output=/o")
    );
    assert_eq!(after_save(SaveStep::Done, "/t.wav", "/o"), None);
}

#[test]
fn a_device_is_found_by_position_or_name() {
    let list = names(&[Some("Mic"), None, Some("7"), Some("default")]);
    assert_eq!(find_device_by_name("2", &list).unwrap(), DeviceChoice::Index(2));
    assert_eq!(find_device_by_name("+1", &list).unwrap(), DeviceChoice::Index(1));
    assert_eq!(find_device_by_name("Mic", &list).unwrap(), DeviceChoice::Index(0));
    assert_eq!(find_device_by_name("default", &list).unwrap(), DeviceChoice::Default);
    assert_eq!(
        find_device_by_name("7", &list).unwrap_err().message(),
        "Device index 7 is out of range (0-3)"
    );
    assert_eq!(
        find_device_by_name("0", &Vec::new()).unwrap_err().message(),
        "Device index 0 is out of range (0-0)"
    );
    assert_eq!(
        find_device_by_name("mic", &list).unwrap_err().message(),
        "Audio input device 'mic' not found. Use 'ostt list-devices' to see available devices."
    );
}

#[test]
fn each_device_is_tried_once() {
    let list = names(&[Some("a"), Some("b"), Some("a"), None, None, Some("b"), Some("c")]);
    assert_eq!(resolve_default_input_devices(&list).unwrap(), vec![0, 1, 3, 4, 6]);
    assert_eq!(
        resolve_default_input_devices(&Vec::new()).unwrap_err(),
        NoInputDevice
    );
    assert_eq!(NoInputDevice.message(), "No audio input device available");
    let clash = names(&[Some("a"), Some("unknown-2"), None]);
    assert_eq!(resolve_default_input_devices(&clash).unwrap(), vec![0, 1]);
}

#[test]
fn the_best_name_wins() {
    assert_eq!(score("mic", "mic"), 4);
    assert_eq!(score("mic one", "mic"), 3);
    assert_eq!(score("mic", "mic one"), 3);
    assert_eq!(score("my mic", "mic"), 2);
    assert_eq!(score("speaker", "mic"), 0);
    let list = names(&[None, Some("My MIC"), Some("Mic Two"), Some("mic three")]);
    assert_eq!(find_device_by_partial_name("Mic", &list), Some(2));
    assert_eq!(find_device_by_partial_name("mic THREE", &list), Some(3));
    assert_eq!(find_device_by_partial_name("", &list), None);
    assert_eq!(find_device_by_partial_name("piano", &list), None);
    assert_eq!(find_device_by_partial_name("MIC", &names(&[Some("mic")])), Some(0));
    let foreign = names(&[Some("ÉCOUTE")]);
    assert_eq!(find_device_by_partial_name("écoute", &foreign), Some(0));
    assert_eq!(best_match(&list, "My"), Some(1));
}

#[test]
fn the_session_hints_at_its_default() {
    let list = names(&[Some("Webcam"), Some("Blue Yeti")]);
    let source = Some((
        "alsa_input.usb-Blue_Microphones_Yeti-00.analog-stereo".to_string(),
        Some("Blue Yeti Analog Stereo".to_string()),
    ));
    assert_eq!(
        hints(&Some("Cam".to_string()), &source),
        vec!["Cam", "Blue Yeti", "Blue Microphones Yeti 00"]
    );
    assert_eq!(
        resolve_linux_session_default_input_device(&None, &source, &list),
        Some(1)
    );
    assert_eq!(
        resolve_linux_session_default_input_device(&Some("webcam".to_string()), &source, &list),
        Some(0)
    );
    assert_eq!(
        resolve_linux_session_default_input_device(&Some("piano".to_string()), &None, &list),
        None
    );
}

#[test]
fn failed_devices_are_counted_up() {
    let mut search = DeviceSearch::new(vec![4, 2]);
    assert_eq!(search.candidate(), Some(4));
    search.reject(Some("Mic"), "busy");
    assert_eq!(search.candidate(), Some(2));
    search.reject(None, "gone");
    assert_eq!(search.candidate(), None);
    assert_eq!(
        search.failure(),
        "Failed to open any default input device. Tried: Mic: busy | Unknown device: gone"
    );
    assert_eq!(
        device_log(Some("Mic"), None),
        "phase=device-opened device=Mic"
    );
    assert_eq!(
        device_log(None, Some("busy")),
        "phase=device-open-failed device=Unknown device error=busy"
    );
}

#[test]
fn defaults_come_before_the_list() {
    assert_eq!(
        default_order(Some(1), true, 2),
        vec![
            InputDevice::Listed(1),
            InputDevice::HostDefault,
            InputDevice::Listed(0),
            InputDevice::Listed(1),
        ]
    );
    assert_eq!(default_order(None, false, 1), vec![InputDevice::Listed(0)]);
    assert!(default_order(None, false, 0).is_empty());
}

#[test]
fn tools_are_heard_only_when_they_succeed() {
    assert_eq!(command_stdout(true, "né\n".as_bytes()).as_deref(), Some("né\n"));
    assert_eq!(command_stdout(false, b"x"), None);
    assert_eq!(command_stdout(true, &[0xff]), None);
}

#[test]
fn wpctl_names_the_source() {
    assert_eq!(
        linux_default_source_name_from_wpctl("id 50\n  * node.nick = \"Yeti\"\n").as_deref(),
        Some("Yeti")
    );
    assert_eq!(
        linux_default_source_name_from_wpctl(
            "    node.description = \"Yeti Analog Stereo\"\n    node.nick = \"Y\"\n"
        )
        .as_deref(),
        Some("Yeti")
    );
    assert_eq!(
        linux_default_source_name_from_wpctl("node.nick = \"Yeti\nnode.nick = \"Y\""),
        None
    );
    assert_eq!(linux_default_source_name_from_wpctl("nothing"), None);
}

#[test]
fn pactl_describes_the_source() {
    let info = "Server Name: x\nDefault Source:  mic.2 \nDefault Source: other\n";
    let sources = "Source #1\n\tName: mic.1\n\tDescription: First\nSource #2\n\tName: mic.2\n\tDescription: Second \nSource #3\n\tName: mic.3\n\tDescription: Third\n";
    assert_eq!(pactl_default_source(info).as_deref(), Some("mic.2"));
    assert_eq!(
        pactl_source_description("mic.2", sources).as_deref(),
        Some("Second")
    );
    assert_eq!(pactl_source_description("mic.9", sources), None);
    assert_eq!(
        linux_default_source_from_pactl(Some(info), Some(sources)),
        Some(("mic.2".to_string(), Some("Second".to_string())))
    );
    assert_eq!(linux_default_source_from_pactl(Some(info), None), None);
    assert_eq!(linux_default_source_from_pactl(None, Some(sources)), None);
    assert_eq!(linux_default_source_from_pactl(Some("x"), Some(sources)), None);
}

#[test]
fn labels_and_nodes_are_stripped() {
    assert_eq!(strip_pulse_profile_suffix(" Yeti Analog Mono "), "Yeti");
    assert_eq!(strip_pulse_profile_suffix("Yeti Digital Stereo"), "Yeti");
    assert_eq!(strip_pulse_profile_suffix("Yeti  Stereo"), "Yeti");
    assert_eq!(strip_pulse_profile_suffix("Yeti Mono"), "Yeti");
    assert_eq!(strip_pulse_profile_suffix("Yeti"), "Yeti");
    assert_eq!(
        node_name_to_hint("alsa_input.usb-Generic_Blue_Yeti_1234-5ab.analog-stereo"),
        "Generic Blue Yeti"
    );
    assert_eq!(node_name_to_hint("alsa_input.pci-0000_00_1f.3.stereo"), "pci 0000 00");
    assert_eq!(node_name_to_hint("webcam"), "webcam");
    assert_eq!(node_name_to_hint("cafe"), "");
}
