use ostt::config::VisualizationType;
use ostt::recording::clock::RecordingClock;
use ostt::recording::layout::{
    cancel_bars, footer_layout, inverted, typing_layout, typing_status, waveform_layout, Area,
    BarHeight,
};
use ostt::recording::meter::{power, VolumeMeter};
use ostt::recording::palette::{RgbColor, WaveformColors};
use ostt::recording::transcription_animation::letter;
use ostt::recording::typing::{
    build_line, build_typing_lines, wrap_text_ranges, SpanStyle, TypingLine,
};
use ostt::recording::ui::{
    duration_text, typing_counts, FooterStyle, Indicator, KeyCode, KeyInput, PeakStyle,
};
use ostt::recording::{OsttTui, RecordingCommand, TranscriptionAnimation};

const MS: u128 = 1_000_000;
const SECOND: u128 = 1_000_000_000;

fn area(x: u16, y: u16, width: u16, height: u16) -> Area {
    Area { x, y, width, height }
}

fn tui(now: u128) -> OsttTui {
    OsttTui::new(16000, 90, -20, VisualizationType::Waveform, 4, now)
}

fn key(code: KeyCode) -> Option<KeyInput> {
    Some(KeyInput { code, control: false })
}

#[test]
fn pauses_are_not_recorded() {
    let mut clock = RecordingClock::new(10 * SECOND);
    assert_eq!(clock.get_recording_duration(13 * SECOND), 3 * SECOND);
    clock.toggle_pause_state(13 * SECOND);
    assert!(clock.is_paused());
    assert_eq!(clock.get_recording_duration(20 * SECOND), 3 * SECOND);
    clock.toggle_pause_state(20 * SECOND);
    assert!(!clock.is_paused());
    assert_eq!(clock.get_recording_duration(22 * SECOND), 5 * SECOND);
}

#[test]
fn the_latest_samples_are_measured() {
    assert_eq!(power(&[], 16000), None);
    assert_eq!(power(&[3, -4], 16000), Some(12));
    assert_eq!(power(&[1000, 1000, 3, 4], 40), Some(12));
    assert_eq!(power(&[1000, 5], 20), Some(25));
    assert_eq!(power(&[i16::MIN; 10], 100), Some(1 << 30));
}

#[test]
fn the_peak_is_that_of_three_seconds() {
    let mut meter = VolumeMeter::new();
    assert_eq!(meter.peak(), 0);
    meter.record(80, 0);
    meter.record(50, SECOND);
    meter.record(10, 2 * SECOND);
    assert_eq!(meter.last, 10);
    assert_eq!(meter.peak(), 80);
    meter.record(20, 3 * SECOND - 1);
    assert_eq!(meter.peak(), 80);
    meter.record(20, 3 * SECOND);
    assert_eq!(meter.peak(), 50);
    meter.record(5, 10 * SECOND);
    assert_eq!(meter.peak(), 5);
    assert_eq!(meter.readings.len(), 1);
}

#[test]
fn the_recording_screen_has_three_parts() {
    let layout = waveform_layout(area(2, 3, 40, 21));
    assert_eq!(layout.content, area(2, 3, 40, 20));
    assert_eq!(layout.top, area(2, 3, 40, 12));
    assert_eq!(layout.bottom, area(2, 15, 40, 8));
    assert_eq!(layout.footer, area(2, 23, 40, 1));
    let none = waveform_layout(area(0, 0, 40, 0));
    assert_eq!(none.top.height, 0);
    assert_eq!(none.footer, area(0, 0, 40, 1));
}

#[test]
fn the_parts_of_the_screens_cover_them() {
    for height in 0..12u16 {
        let whole = area(1, 2, 9, height);
        let typing = typing_layout(whole);
        let rows = typing.header.map_or(0, |a| a.height)
            + typing.text.height
            + typing.footer.map_or(0, |a| a.height);
        assert_eq!(rows, height);
        if height > 0 {
            let wave = waveform_layout(whole);
            assert_eq!(wave.top.height + wave.bottom.height + wave.footer.height, height);
        }
    }
}

#[test]
fn bars_stay_in_the_waveform() {
    let layout = waveform_layout(area(5, 1, 2, 8));
    let heights = [
        BarHeight { up: 2, down: 9 },
        BarHeight { up: 0, down: -1 },
        BarHeight { up: 1, down: 1 },
    ];
    let bars = cancel_bars(&layout, &heights);
    assert_eq!(bars.len(), 2);
    assert_eq!(bars[0].x, 5);
    assert_eq!(bars[0].upper, vec![4, 3]);
    assert_eq!(bars[0].lower, vec![5, 6, 7]);
    assert_eq!(bars[1].x, 6);
    assert!(bars[1].upper.is_empty());
    assert!(bars[1].lower.is_empty());
    let edge = cancel_bars(&waveform_layout(area(0, 0, 1, 4)), &[BarHeight { up: 4, down: 0 }]);
    assert_eq!(edge[0].upper, vec![1, 0, 0, 0]);
}

#[test]
fn the_lower_part_is_upside_down() {
    assert_eq!(inverted(&[0, 30, 100, 150]), vec![100, 70, 0, 0]);
}

#[test]
fn the_label_takes_the_end_of_the_footer() {
    for width in 9..400u16 {
        for x in [0u16, 3, 1000] {
            assert_eq!(
                footer_layout(area(x, 7, width, 1), true),
                (area(x, 7, width - 3, 1), Some(area(x + width - 3, 7, 3, 1)))
            );
        }
    }
    assert_eq!(
        footer_layout(area(0, 0, u16::MAX, 1), true),
        (area(0, 0, u16::MAX - 3, 1), Some(area(u16::MAX - 3, 0, 3, 1)))
    );
    assert_eq!(footer_layout(area(0, 7, 8, 1), true), (area(0, 7, 8, 1), None));
    assert_eq!(footer_layout(area(0, 7, 80, 1), false), (area(0, 7, 80, 1), None));
}

#[test]
fn the_typing_screen_grows_with_the_terminal() {
    let small = typing_layout(area(0, 0, 20, 2));
    assert_eq!((small.header, small.footer, small.border), (None, None, false));
    assert_eq!(small.inner, area(0, 0, 20, 2));
    let three = typing_layout(area(0, 0, 20, 3));
    assert_eq!(three.header, Some(area(0, 0, 20, 1)));
    assert_eq!(three.footer, None);
    assert_eq!(three.text, area(0, 1, 20, 2));
    let large = typing_layout(area(1, 1, 20, 10));
    assert_eq!(large.footer, Some(area(1, 10, 20, 1)));
    assert_eq!(large.text, area(1, 2, 20, 8));
    assert!(large.border);
    assert_eq!(large.inner, area(2, 3, 18, 6));
    assert!(!typing_layout(area(0, 0, 6, 10)).border);
    assert!(!typing_layout(area(0, 0, 7, 6)).border);
    assert!(typing_layout(area(0, 0, 7, 7)).border);
    assert_eq!(typing_status("pasted", 3, 12, 25), "pasted  3/12  25%");
}

#[test]
fn colours_have_their_grey() {
    assert_eq!(RgbColor::new(10, 20, 33).gray(), RgbColor::new(21, 21, 21));
    assert_eq!(RgbColor::new(255, 255, 255).gray(), RgbColor::new(255, 255, 255));
    assert_eq!(WaveformColors::base().top_fg, RgbColor::new(206, 224, 220));
    assert_eq!(WaveformColors::neutral(), RgbColor::new(120, 130, 135));
    let red = WaveformColors::fade_target();
    assert_eq!(red, RgbColor::new(200, 60, 60));
    assert!(red.r > red.g && red.r > red.b);
}

#[test]
fn keys_have_their_commands() {
    let mut t = tui(0);
    assert_eq!(t.handle_input(None, 1), RecordingCommand::Continue);
    assert_eq!(t.handle_input(key(KeyCode::Enter), 1), RecordingCommand::Transcribe);
    assert_eq!(t.handle_input(key(KeyCode::Esc), 1), RecordingCommand::Cancel);
    assert_eq!(t.handle_input(key(KeyCode::Char('q')), 1), RecordingCommand::Cancel);
    assert_eq!(t.handle_input(key(KeyCode::Char('Q')), 1), RecordingCommand::Continue);
    assert_eq!(t.handle_input(key(KeyCode::Char('c')), 1), RecordingCommand::Continue);
    let control_c = Some(KeyInput { code: KeyCode::Char('c'), control: true });
    assert_eq!(t.handle_input(control_c, 1), RecordingCommand::Continue);
    assert_eq!(t.handle_input(key(KeyCode::Other), 1), RecordingCommand::Continue);
    assert!(!t.is_paused());
    assert_eq!(t.handle_input(key(KeyCode::Char(' ')), 2), RecordingCommand::TogglePause);
    assert!(t.is_paused());
    assert_eq!(t.handle_input(key(KeyCode::Char(' ')), 3), RecordingCommand::TogglePause);
    assert!(!t.is_paused());
}

#[test]
fn a_recording_is_shown() {
    let mut t = tui(SECOND);
    assert_eq!(t.display_data, vec![0, 0, 0, 0]);
    let start = t.begin_frame(Some(95), SECOND + 49 * MS);
    assert_eq!((start.cancel_active, start.volume, start.refresh), (false, 95, false));
    let start = t.begin_frame(Some(40), SECOND + 50 * MS);
    assert!(start.refresh);
    t.refresh(vec![10, 40, 100, 0], SECOND + 50 * MS);
    assert!(!t.begin_frame(None, SECOND + 60 * MS).refresh);
    assert_eq!(t.begin_frame(None, SECOND + 60 * MS).volume, 0);
    let frame = t.render_waveform(area(0, 0, 80, 10), false, 66 * SECOND);
    assert!(!frame.cancel_active);
    assert_eq!(frame.inverted, vec![90, 60, 0, 100]);
    assert_eq!(frame.footer.indicator, Indicator::Recording);
    assert_eq!(frame.footer.duration, "1:05");
    assert_eq!(frame.footer.volume, "40%");
    assert_eq!(frame.footer.peak, "95%");
    assert_eq!(frame.footer.peak_style, PeakStyle::Alert);
    assert_eq!(frame.footer.text_area, area(0, 9, 80, 1));
    assert_eq!(frame.footer.label_area, None);
    let dev = t.render_waveform(area(0, 0, 80, 10), true, 66 * SECOND);
    assert_eq!(dev.footer.indicator, Indicator::Development);
    assert_eq!(dev.footer.label_area, Some(area(77, 9, 3, 1)));
}

#[test]
fn the_footer_has_its_order() {
    let mut t = tui(0);
    t.begin_frame(Some(40), SECOND);
    let footer = t.render_waveform(area(0, 0, 80, 10), false, 65 * SECOND).footer;
    let row: Vec<(String, FooterStyle)> =
        footer.row().into_iter().map(|p| (p.text, p.style)).collect();
    assert_eq!(
        row,
        vec![
            ("● ".to_string(), FooterStyle::Mark(Indicator::Recording)),
            ("1:05".to_string(), FooterStyle::Text),
            (" / ".to_string(), FooterStyle::Text),
            ("40%".to_string(), FooterStyle::Text),
            (" / ".to_string(), FooterStyle::Text),
            ("40%".to_string(), FooterStyle::Peak(PeakStyle::Normal)),
        ]
    );
}

#[test]
fn a_paused_recording_shows_no_meters() {
    let mut t = tui(0);
    t.begin_frame(Some(95), SECOND);
    t.handle_input(key(KeyCode::Char(' ')), 2 * SECOND);
    assert!(!t.begin_frame(Some(95), 9 * SECOND).refresh);
    let frame = t.render_waveform(area(0, 0, 80, 10), false, 9 * SECOND);
    assert_eq!(frame.footer.indicator, Indicator::Paused);
    assert_eq!(frame.footer.duration, "0:02");
    assert_eq!(frame.footer.volume, "0%");
    assert_eq!(frame.footer.peak, "0%");
    assert_eq!(frame.footer.peak_style, PeakStyle::Normal);
}

#[test]
fn a_cancelled_recording_fades() {
    let mut t = tui(0);
    t.begin_frame(Some(60), SECOND);
    assert_eq!(t.cancel_progress(SECOND), None);
    assert!(!t.cancel_animation_done(SECOND));
    t.start_cancel_animation(5 * SECOND);
    t.start_cancel_animation(6 * SECOND);
    assert!(!t.cancel_active(5 * SECOND));
    assert!(t.cancel_active(5 * SECOND + 1));
    assert_eq!(t.cancel_progress(5 * SECOND + 100 * MS), Some(100 * MS));
    assert_eq!(t.cancel_progress(50 * SECOND), Some(320 * MS));
    assert!(!t.cancel_animation_done(5 * SECOND + 320 * MS - 1));
    assert!(t.cancel_animation_done(5 * SECOND + 320 * MS));
    let start = t.begin_frame(Some(99), 50 * SECOND);
    assert_eq!((start.cancel_active, start.volume, start.refresh), (true, 60, false));
    let frame = t.render_waveform(area(0, 0, 80, 10), false, 50 * SECOND);
    assert!(frame.cancel_active);
    assert_eq!(frame.footer.indicator, Indicator::Cancelled);
    assert_eq!(frame.footer.duration, "0:05");
    assert_eq!(frame.footer.peak_style, PeakStyle::Inactive);
}

#[test]
fn the_waveform_follows_the_width() {
    let mut t = tui(0);
    assert!(!t.resize(4));
    assert!(t.resize(9));
    assert_eq!(t.terminal_width, 9);
    t.set_display(vec![1; 9]);
    assert_eq!(t.display_data.len(), 9);
    assert_eq!(t.calculate_volume(None, 0), 0);
    assert_eq!(t.calculate_volume(Some(0), 0), 4);
    assert_eq!(t.meter.last, 4);
    assert_eq!(t.calculate_volume(Some(255), 0), 100);
    assert_eq!(t.begin_frame(Some(3), 0).volume, 4);
    assert_eq!(t.calculate_volume(Some(33), 0), 33);
    assert_eq!(t.meter.last, 33);
}

#[test]
fn durations_and_signs_are_written() {
    assert_eq!(duration_text(0), "0:00");
    assert_eq!(duration_text(59 * SECOND + 999 * MS), "0:59");
    assert_eq!(duration_text(3725 * SECOND), "62:05");
    assert_eq!(Indicator::Development.symbol(), "◆ ");
    assert_eq!(Indicator::Paused.symbol(), "⏸ ");
    assert_eq!(Indicator::Cancelled.symbol(), "● ");
    assert_eq!(Indicator::Recording.symbol(), "● ");
}

#[test]
fn the_logo_slides() {
    assert_eq!(TranscriptionAnimation::targets(20), vec![8, 10, 11, 12]);
    assert_eq!(TranscriptionAnimation::targets(0), vec![-2, 0, 1, 2]);
    let mut animation = TranscriptionAnimation::default();
    let t = tui(0);
    let cells = t.render_transcription_animation(&mut animation, area(3, 1, 20, 9), &[8, -1, 19, 20]);
    assert_eq!(animation.frame_count, 1);
    let shown: Vec<(u16, u16, &str)> = cells.iter().map(|c| (c.x, c.y, c.text)).collect();
    assert_eq!(
        shown,
        vec![(11, 4, "┏┓"), (11, 5, "┗┛"), (22, 4, "╋"), (22, 5, "┗")]
    );
    let low = animation.draw(area(0, 0, 20, 1), &[0, 2, 3, 4]);
    assert_eq!(low.len(), 4);
    assert_eq!(low[1].text, "┛");
    assert_eq!(low[1].y, 0);
    assert!(animation.draw(area(0, 0, 20, 0), &[0, 2, 3, 4]).is_empty());
    animation.frame_count = u32::MAX;
    animation.update();
    assert_eq!(animation.frame_count, 0);
    assert_eq!(TranscriptionAnimation::new().frame_count, 0);
    assert_eq!(letter(0).width, 2);
}

#[test]
fn lines_break_between_words() {
    let chars: Vec<char> = "one two three\n\nfour".chars().collect();
    assert_eq!(
        wrap_text_ranges(&chars, 8),
        vec![(0, 7), (8, 13), (14, 14), (15, 19)]
    );
    let long: Vec<char> = "abcdefghij kl".chars().collect();
    assert_eq!(wrap_text_ranges(&long, 4), vec![(0, 4), (4, 8), (8, 10), (11, 13)]);
    assert_eq!(wrap_text_ranges(&[], 4), vec![(0, 0)]);
    assert!(wrap_text_ranges(&chars, 0).is_empty());
}

fn spans(line: &TypingLine) -> Vec<(String, SpanStyle)> {
    line.spans.iter().map(|s| (s.text.clone(), s.style)).collect()
}

#[test]
fn lines_show_what_is_typed() {
    let chars: Vec<char> = "hello world".chars().collect();
    assert_eq!(
        spans(&build_line(&chars, 0, 5, 2)),
        vec![
            ("he".to_string(), SpanStyle::Typed),
            ("l".to_string(), SpanStyle::Cursor),
            ("lo".to_string(), SpanStyle::Untyped),
        ]
    );
    assert_eq!(
        spans(&build_line(&chars, 6, 11, 2)),
        vec![("world".to_string(), SpanStyle::Untyped)]
    );
    assert_eq!(
        spans(&build_line(&chars, 0, 5, 11)),
        vec![("hello".to_string(), SpanStyle::Typed)]
    );
    assert_eq!(
        spans(&build_line(&chars, 90, 80, 0)),
        vec![(String::new(), SpanStyle::Plain)]
    );
    assert_eq!(
        spans(&build_line(&chars, 3, 3, 0)),
        vec![(String::new(), SpanStyle::Plain)]
    );
}

#[test]
fn the_cursor_stays_in_view() {
    let text = "aa bb cc dd ee ff";
    for typed in 0..text.len() {
        let lines = build_typing_lines(text, typed, 3, 2);
        assert_eq!(lines.len(), 2);
        if text.as_bytes()[typed] != b' ' {
            let cursors = lines
                .iter()
                .flat_map(|l| l.spans.iter())
                .filter(|s| s.style == SpanStyle::Cursor)
                .count();
            assert_eq!(cursors, 1, "{}", typed);
        }
    }
    let padded = build_typing_lines("hi", 0, 10, 5);
    assert_eq!(padded.len(), 3);
    assert_eq!(spans(&padded[0]), vec![(String::new(), SpanStyle::Plain)]);
    assert_eq!(
        spans(&build_typing_lines("", 0, 10, 5)[0]),
        vec![(String::new(), SpanStyle::Untyped)]
    );
    assert!(build_typing_lines("hi", 0, 0, 5).is_empty());
    assert!(build_typing_lines("hi", 0, 5, 0).is_empty());
}

#[test]
fn typing_is_shown() {
    let t = tui(0);
    assert_eq!(typing_counts("été", 2), (2, 3));
    assert_eq!(typing_counts("été", 9), (3, 3));
    let frame = t.render_typing_progress("hello", 9, "typing", 100, area(0, 0, 20, 5));
    assert_eq!(frame.status.as_deref(), Some("typing  5/5  100%"));
    assert_eq!(frame.layout.inner, area(0, 1, 20, 3));
    assert_eq!(frame.lines.len(), 2);
    assert_eq!(
        spans(&frame.lines[1]),
        vec![("hello".to_string(), SpanStyle::Typed)]
    );
    let tiny = t.render_typing_progress("hello", 0, "typing", 0, area(0, 0, 0, 2));
    assert_eq!(tiny.status, None);
    assert!(tiny.lines.is_empty());
}
