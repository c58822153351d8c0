//! The display of a recording in progress.
use crate::config::file::VisualizationType;
use crate::recording::clock::{Nanos, RecordingClock};
use crate::recording::layout::{
    footer_layout, footer_parts, inverted, inverted_values, status_text, typing_layout,
    typing_parts, typing_status, waveform_layout, waveform_parts, Area, TypingLayout,
    WaveformLayout,
};
use crate::recording::meter::{recent_readings, Reading, VolumeMeter};
use crate::recording::transcription_animation::{
    cell_models, logo_cells, LogoCell, TranscriptionAnimation, LOGO_LETTERS,
};
use crate::recording::typing::{build_typing_lines, line_models, typing_lines, TypingLine};
use crate::text::{decimal, decimal_text, digit_char, padded_decimal_text, zero_padded};
use vstd::prelude::*;
use vstd::string::*;

verus! {

/// What the user's input asks for during a recording.
#[derive(Debug, Clone, Copy, PartialEq, Eq, Structural)]
pub enum RecordingCommand {
    /// Go on recording.
    Continue,
    /// Stop, and transcribe.
    Transcribe,
    /// Stop without a transcription.
    Cancel,
    /// Pause or resume.
    TogglePause,
}

/// A key, as far as the recorder tells keys apart.
#[derive(Debug, Clone, Copy, PartialEq, Eq, Structural)]
pub enum KeyCode {
    Enter,
    Esc,
    Char(char),
    Other,
}

/// A key that was pressed, and whether the control key was held.
#[derive(Debug, Clone, Copy, PartialEq, Eq, Structural)]
pub struct KeyInput {
    pub code: KeyCode,
    pub control: bool,
}

/// What a key asks for: Enter transcribes, Escape and `q` cancel, Space pauses
/// or resumes, and any other key is ignored.
pub open spec fn command_of(key: KeyInput) -> RecordingCommand {
    match key.code {
        KeyCode::Enter => RecordingCommand::Transcribe,
        KeyCode::Esc => RecordingCommand::Cancel,
        KeyCode::Char(c) => if c == 'q' {
            RecordingCommand::Cancel
        } else if c == ' ' {
            RecordingCommand::TogglePause
        } else {
            RecordingCommand::Continue
        },
        KeyCode::Other => RecordingCommand::Continue,
    }
}

/// The volume that a level in percent is shown as: never less than 4 and never
/// more than 100.
pub open spec fn volume_of(level: u8) -> u8 {
    if level < 4 {
        4
    } else if level > 100 {
        100
    } else {
        level
    }
}

/// How often the waveform moves on, at most.
pub const SAMPLE_INTERVAL: u128 = 50_000_000;

/// For how long the waveform fades when the recording is called off.
pub const CANCEL_ANIMATION: u128 = 320_000_000;

/// The mark at the beginning of the footer.
#[derive(Debug, Clone, Copy, PartialEq, Eq, Structural)]
pub enum Indicator {
    /// A development build.
    Development,
    /// The recording is paused.
    Paused,
    /// The recording is called off.
    Cancelled,
    /// The recording runs.
    Recording,
}

impl Indicator {
    /// The sign that stands for the mark.
    pub open spec fn sign(self) -> Seq<char> {
        match self {
            Indicator::Development => "◆ "@,
            Indicator::Paused => "⏸ "@,
            Indicator::Cancelled => "● "@,
            Indicator::Recording => "● "@,
        }
    }

    /// The sign that stands for the mark.
    pub fn symbol(self) -> (r: &'static str)
        ensures
            r@ == self.sign(),
    {
        match self {
            Indicator::Development => "◆ ",
            Indicator::Paused => "⏸ ",
            Indicator::Cancelled => "● ",
            Indicator::Recording => "● ",
        }
    }
}

/// How the peak is shown.
#[derive(Debug, Clone, Copy, PartialEq, Eq, Structural)]
pub enum PeakStyle {
    /// The recording is called off.
    Inactive,
    /// The peak has reached the threshold.
    Alert,
    /// The peak is below the threshold.
    Normal,
}

/// What the footer shows.
#[derive(Debug)]
pub struct Footer {
    pub indicator: Indicator,
    pub duration: String,
    pub volume: String,
    pub peak: String,
    pub peak_style: PeakStyle,
    /// Where the text stands.
    pub text_area: Area,
    /// Where the label of a development build stands.
    pub label_area: Option<Area>,
}

/// How a piece of the footer is shown.
#[derive(Debug, Clone, Copy, PartialEq, Eq, Structural)]
pub enum FooterStyle {
    /// As the mark.
    Mark(Indicator),
    /// As plain text of the footer.
    Text,
    /// As the peak.
    Peak(PeakStyle),
}

/// A piece of the footer.
#[derive(Debug)]
pub struct FooterPiece {
    pub text: String,
    pub style: FooterStyle,
}

impl View for FooterPiece {
    type V = (Seq<char>, FooterStyle);

    open spec fn view(&self) -> (Seq<char>, FooterStyle) {
        (self.text@, self.style)
    }
}

/// What pieces of the footer show.
pub open spec fn piece_models(pieces: Seq<FooterPiece>) -> Seq<(Seq<char>, FooterStyle)> {
    pieces.map_values(|p: FooterPiece| p@)
}

impl Footer {
    /// The pieces of the footer in order: the mark, the duration, the volume and
    /// the peak, the last three with separators between them.
    pub open spec fn row_model(self) -> Seq<(Seq<char>, FooterStyle)> {
        seq![
            (self.indicator.sign(), FooterStyle::Mark(self.indicator)),
            (self.duration@, FooterStyle::Text),
            (" / "@, FooterStyle::Text),
            (self.volume@, FooterStyle::Text),
            (" / "@, FooterStyle::Text),
            (self.peak@, FooterStyle::Peak(self.peak_style)),
        ]
    }

    /// The pieces of the footer in order.
    pub fn row(&self) -> (r: Vec<FooterPiece>)
        ensures
            piece_models(r@) == self.row_model(),
    {
        let mut out: Vec<FooterPiece> = Vec::new();
        out.push(
            FooterPiece {
                text: self.indicator.symbol().to_string(),
                style: FooterStyle::Mark(self.indicator),
            },
        );
        out.push(FooterPiece { text: self.duration.clone(), style: FooterStyle::Text });
        out.push(FooterPiece { text: " / ".to_string(), style: FooterStyle::Text });
        out.push(FooterPiece { text: self.volume.clone(), style: FooterStyle::Text });
        out.push(FooterPiece { text: " / ".to_string(), style: FooterStyle::Text });
        out.push(
            FooterPiece { text: self.peak.clone(), style: FooterStyle::Peak(self.peak_style) },
        );
        assert(piece_models(out@) =~= self.row_model());
        out
    }
}

/// What a frame of the recording screen shows.
#[derive(Debug)]
pub struct WaveformFrame {
    pub layout: WaveformLayout,
    /// Whether the recording is called off, and the waveform fades.
    pub cancel_active: bool,
    /// The values of the lower part of the waveform.
    pub inverted: Vec<u64>,
    pub footer: Footer,
}

/// How a frame begins.
#[derive(Debug, Clone, Copy, PartialEq, Eq, Structural)]
pub struct FrameStart {
    /// Whether the recording is called off, and the waveform fades.
    pub cancel_active: bool,
    /// The volume to show.
    pub volume: u8,
    /// Whether the waveform is to move on.
    pub refresh: bool,
}

/// What a frame of the typing screen shows.
#[derive(Debug)]
pub struct TypingFrame {
    pub layout: TypingLayout,
    /// The status line, where there is room for it.
    pub status: Option<String>,
    /// The lines of the text.
    pub lines: Vec<TypingLine>,
}

/// The duration as minutes and seconds.
pub open spec fn duration_model(nanos: nat) -> Seq<char> {
    let secs = nanos / 1_000_000_000;
    decimal(secs / 60) + ":"@ + zero_padded(decimal(secs % 60), 2)
}

/// The duration as minutes and seconds.
pub fn duration_text(nanos: Nanos) -> (r: String)
    ensures
        r@ == duration_model(nanos as nat),
{
    let secs: u128 = nanos / 1_000_000_000;
    let mut out = decimal_text(secs / 60);
    out.append(":");
    out.append(padded_decimal_text(secs % 60, 2).as_str());
    out
}

/// A percentage.
fn percent_text(n: u8) -> (r: String)
    ensures
        r@ == decimal(n as nat) + "%"@,
{
    let mut out = decimal_text(n as u128);
    out.append("%");
    out
}

/// The display of a recording in progress.
#[derive(Debug)]
pub struct OsttTui {
    /// The values of the waveform, in percent.
    pub display_data: Vec<u64>,
    /// When the waveform last moved on.
    pub last_sample: Nanos,
    /// For how many columns the waveform was made.
    pub terminal_width: usize,
    pub sample_rate: u32,
    pub peak_volume_threshold: u8,
    pub reference_level_db: i8,
    pub visualization_type: VisualizationType,
    pub clock: RecordingClock,
    pub meter: VolumeMeter,
    /// When the recording was called off.
    pub cancel_start: Option<Nanos>,
    /// How long the recording was by then.
    pub cancel_duration: Option<Nanos>,
}

impl OsttTui {
    /// The clock is a clock, and where the recording was called off, the
    /// duration that it had reached is kept.
    pub open spec fn wf(self) -> bool {
        &&& self.clock.wf()
        &&& self.cancel_start is Some <==> self.cancel_duration is Some
    }

    /// Whether the recording is paused.
    pub open spec fn paused(self) -> bool {
        self.clock.pause_start is Some
    }

    /// Whether the waveform fades.
    pub open spec fn cancelling(self, now: Nanos) -> bool {
        self.cancel_start matches Some(start) && now > start
    }

    /// Whether the waveform is to be computed anew.
    pub open spec fn refresh_due(self, now: Nanos) -> bool {
        !self.paused() && !self.cancelling(now) && now - self.last_sample >= SAMPLE_INTERVAL
    }

    /// How long the waveform has been fading, up to the length of the animation.
    pub open spec fn progress_at(self, now: Nanos) -> Option<Nanos> {
        match self.cancel_start {
            None => None,
            Some(start) => Some(
                if now <= start {
                    0u128
                } else if now - start < CANCEL_ANIMATION {
                    (now - start) as u128
                } else {
                    CANCEL_ANIMATION
                },
            ),
        }
    }

    /// Whether the waveform has faded.
    pub open spec fn faded(self, now: Nanos) -> bool {
        self.cancel_start matches Some(start) && now - start >= CANCEL_ANIMATION
    }

    /// The duration that is shown: once the recording is called off, the one at
    /// that moment.
    pub open spec fn shown_duration(self, now: Nanos) -> int {
        match self.cancel_duration {
            Some(d) if self.cancelling(now) => d as int,
            _ => self.clock.duration_at(now as int),
        }
    }

    /// The peak that is shown.
    pub open spec fn shown_peak(self) -> u8 {
        if self.paused() {
            0
        } else {
            self.meter.peak_model()
        }
    }

    /// The volume that is shown.
    pub open spec fn shown_volume(self) -> u8 {
        if self.paused() {
            0
        } else {
            self.meter.last
        }
    }

    /// The mark at the beginning of the footer.
    pub open spec fn shown_indicator(self, dev_mode: bool, now: Nanos) -> Indicator {
        if dev_mode {
            Indicator::Development
        } else if self.paused() {
            Indicator::Paused
        } else if self.cancelling(now) {
            Indicator::Cancelled
        } else {
            Indicator::Recording
        }
    }

    /// How the peak is shown.
    pub open spec fn shown_peak_style(self, now: Nanos) -> PeakStyle {
        if self.cancelling(now) {
            PeakStyle::Inactive
        } else if self.shown_peak() >= self.peak_volume_threshold {
            PeakStyle::Alert
        } else {
            PeakStyle::Normal
        }
    }

    /// The display of a recording that begins now, with a flat waveform.
    pub fn new(
        sample_rate: u32,
        peak_volume_threshold: u8,
        reference_level_db: i8,
        visualization_type: VisualizationType,
        terminal_width: usize,
        now: Nanos,
    ) -> (r: Self)
        ensures
            r.display_data@ == Seq::new(terminal_width as nat, |i: int| 0u64),
            r.last_sample == now,
            r.terminal_width == terminal_width,
            r.sample_rate == sample_rate,
            r.peak_volume_threshold == peak_volume_threshold,
            r.reference_level_db == reference_level_db,
            r.visualization_type == visualization_type,
            r.clock == (RecordingClock { start: now, paused: 0, pause_start: None, changed: now }),
            r.meter.last == 0,
            r.meter.readings@ == Seq::<Reading>::empty(),
            r.cancel_start is None,
            r.cancel_duration is None,
            r.wf(),
    {
        let mut display_data: Vec<u64> = Vec::new();
        let mut i: usize = 0;
        while i < terminal_width
            invariant
                i <= terminal_width,
                display_data@ == Seq::new(i as nat, |k: int| 0u64),
            decreases terminal_width - i,
        {
            display_data.push(0);
            i += 1;
            assert(display_data@ =~= Seq::new(i as nat, |k: int| 0u64));
        }
        OsttTui {
            display_data,
            last_sample: now,
            terminal_width,
            sample_rate,
            peak_volume_threshold,
            reference_level_db,
            visualization_type,
            clock: RecordingClock::new(now),
            meter: VolumeMeter::new(),
            cancel_start: None,
            cancel_duration: None,
        }
    }

    /// Whether the recording is paused.
    pub fn is_paused(&self) -> (r: bool)
        ensures
            r == self.paused(),
    {
        self.clock.is_paused()
    }

    /// Whether the waveform fades.
    pub fn cancel_active(&self, now: Nanos) -> (r: bool)
        ensures
            r == self.cancelling(now),
    {
        match self.cancel_start {
            Some(start) => now > start,
            None => false,
        }
    }

    /// Takes the level of the latest samples in percent, `None` where there are
    /// none, and returns the volume to show.
    pub fn calculate_volume(&mut self, level: Option<u8>, now: Nanos) -> (r: u8)
        ensures
            *final(self) == (OsttTui { meter: final(self).meter, ..*old(self) }),
            match level {
                None => r == 0 && final(self).meter == old(self).meter,
                Some(v) => r == volume_of(v) && final(self).meter.last == volume_of(v) && final(
                    self).meter.readings@ == recent_readings(old(self).meter.readings@, now).push(
                    Reading { at: now, volume: volume_of(v) },
                ),
            },
            level is Some ==> 4 <= r <= 100,
    {
        match level {
            None => 0,
            Some(v) => {
                let volume: u8 = if v < 4 {
                    4
                } else if v > 100 {
                    100
                } else {
                    v
                };
                self.meter.record(volume, now);
                volume
            },
        }
    }

    /// Begins a frame: takes the level of the latest samples, and says whether
    /// the waveform is to move on. Once the recording is called off, the volume
    /// stays what it was, and the waveform stands still.
    pub fn begin_frame(&mut self, level: Option<u8>, now: Nanos) -> (r: FrameStart)
        ensures
            *final(self) == (OsttTui { meter: final(self).meter, ..*old(self) }),
            r.cancel_active == old(self).cancelling(now),
            r.refresh == old(self).refresh_due(now),
            r.cancel_active ==> r.volume == old(self).meter.last && final(self).meter
                == old(self).meter,
            !r.cancel_active ==> match level {
                None => r.volume == 0 && final(self).meter == old(self).meter,
                Some(v) => r.volume == volume_of(v) && final(self).meter.last == volume_of(v)
                    && final(self).meter.readings@ == recent_readings(
                    old(self).meter.readings@,
                    now,
                ).push(Reading { at: now, volume: volume_of(v) }),
            },
    {
        let cancel_active = self.cancel_active(now);
        let volume: u8 = if cancel_active {
            self.meter.last
        } else {
            self.calculate_volume(level, now)
        };
        let elapsed: u128 = if now >= self.last_sample {
            now - self.last_sample
        } else {
            0
        };
        let refresh = !self.is_paused() && !cancel_active && elapsed >= SAMPLE_INTERVAL;
        FrameStart { cancel_active, volume, refresh }
    }

    /// Takes the values of the waveform that has moved on.
    pub fn refresh(&mut self, data: Vec<u64>, now: Nanos)
        ensures
            *final(self) == (OsttTui { display_data: data, last_sample: now, ..*old(self) }),
    {
        self.display_data = data;
        self.last_sample = now;
    }

    /// Takes the width of the terminal, and says whether it has changed, so that
    /// the waveform has to be made anew.
    pub fn resize(&mut self, width: usize) -> (r: bool)
        ensures
            *final(self) == (OsttTui { terminal_width: width, ..*old(self) }),
            r == (width != old(self).terminal_width),
    {
        if width != self.terminal_width {
            self.terminal_width = width;
            true
        } else {
            false
        }
    }

    /// Takes the values of the waveform for the new width.
    pub fn set_display(&mut self, data: Vec<u64>)
        ensures
            *final(self) == (OsttTui { display_data: data, ..*old(self) }),
    {
        self.display_data = data;
    }

    /// What the recording screen shows.
    pub fn render_waveform(&self, area: Area, dev_mode: bool, now: Nanos) -> (r: WaveformFrame)
        requires
            self.wf(),
            now >= self.clock.changed,
            area.wf(),
        ensures
            r.layout == waveform_parts(area),
            r.cancel_active == self.cancelling(now),
            r.inverted@ == inverted_values(self.display_data@),
            r.footer.indicator == self.shown_indicator(dev_mode, now),
            r.footer.duration@ == duration_model(self.shown_duration(now) as nat),
            r.footer.volume@ == decimal(self.shown_volume() as nat) + "%"@,
            r.footer.peak@ == decimal(self.shown_peak() as nat) + "%"@,
            r.footer.peak_style == self.shown_peak_style(now),
            (r.footer.text_area, r.footer.label_area) == footer_parts(
                waveform_parts(area).footer,
                dev_mode,
            ),
    {
        let layout = waveform_layout(area);
        let cancel_active = self.cancel_active(now);
        let paused = self.is_paused();
        let running: u128 = self.clock.get_recording_duration(now);
        let duration: u128 = match self.cancel_duration {
            Some(d) => if cancel_active {
                d
            } else {
                running
            },
            None => running,
        };
        let peak: u8 = if paused {
            0
        } else {
            self.meter.peak()
        };
        let volume: u8 = if paused {
            0
        } else {
            self.meter.last
        };
        let peak_style = if cancel_active {
            PeakStyle::Inactive
        } else if peak >= self.peak_volume_threshold {
            PeakStyle::Alert
        } else {
            PeakStyle::Normal
        };
        let indicator = if dev_mode {
            Indicator::Development
        } else if paused {
            Indicator::Paused
        } else if cancel_active {
            Indicator::Cancelled
        } else {
            Indicator::Recording
        };
        let (text_area, label_area) = footer_layout(layout.footer, dev_mode);
        let footer = Footer {
            indicator,
            duration: duration_text(duration),
            volume: percent_text(volume),
            peak: percent_text(peak),
            peak_style,
            text_area,
            label_area,
        };
        WaveformFrame { layout, cancel_active, inverted: inverted(&self.display_data), footer }
    }

    /// What the key asks for. Space also pauses or resumes the display.
    pub fn handle_input(&mut self, key: Option<KeyInput>, now: Nanos) -> (r: RecordingCommand)
        requires
            old(self).wf(),
            now >= old(self).clock.changed,
        ensures
            r == match key {
                Some(k) => command_of(k),
                None => RecordingCommand::Continue,
            },
            r != RecordingCommand::TogglePause ==> *final(self) == *old(self),
            r == RecordingCommand::TogglePause ==> *final(self) == (OsttTui {
                clock: old(self).clock.toggled(now),
                ..*old(self)
            }),
            final(self).wf(),
    {
        let key = match key {
            Some(k) => k,
            None => {
                return RecordingCommand::Continue;
            },
        };
        match key.code {
            KeyCode::Enter => RecordingCommand::Transcribe,
            KeyCode::Esc => RecordingCommand::Cancel,
            KeyCode::Char(c) => {
                if c == 'q' {
                    RecordingCommand::Cancel
                } else if c == ' ' {
                    self.clock.toggle_pause_state(now);
                    RecordingCommand::TogglePause
                } else {
                    RecordingCommand::Continue
                }
            },
            KeyCode::Other => RecordingCommand::Continue,
        }
    }

    /// Shows a frame of the animation, with the letters at the given columns,
    /// and goes on to the next frame.
    pub fn render_transcription_animation(
        &self,
        animation: &mut TranscriptionAnimation,
        area: Area,
        columns: &[i32],
    ) -> (r: Vec<LogoCell>)
        requires
            area.wf(),
            columns@.len() == LOGO_LETTERS,
            forall|i: int| 0 <= i < LOGO_LETTERS ==> #[trigger] columns@[i] <= i32::MAX - 2,
        ensures
            cell_models(r@) == logo_cells(area, columns@, LOGO_LETTERS as int),
            final(animation).frame_count == (old(animation).frame_count + 1) % 0x1_0000_0000,
    {
        let cells = animation.draw(area, columns);
        animation.update();
        cells
    }

    /// What the typing screen shows, given which part of the text has been typed in
    /// percent.
    pub fn render_typing_progress(
        &self,
        text: &str,
        typed_count: usize,
        header_label: &str,
        percent: u16,
        area: Area,
    ) -> (r: TypingFrame)
        requires
            area.wf(),
        ensures
            r.layout == typing_parts(area),
            ({
                let total = text@.len();
                let typed = if typed_count < total {
                    typed_count as nat
                } else {
                    total
                };
                match r.status {
                    Some(s) => area.height >= 3 && s@ == status_text(
                        header_label@,
                        typed,
                        total,
                        percent as nat,
                    ),
                    None => area.height < 3,
                }
            }),
            line_models(r.lines@) == typing_lines(
                text@,
                typed_count as int,
                typing_parts(area).inner.width as int,
                typing_parts(area).inner.height as int,
            ),
    {
        let layout = typing_layout(area);
        let (typed, total) = typing_counts(text, typed_count);
        let status = match layout.header {
            Some(_) => Some(typing_status(header_label, typed, total, percent)),
            None => None,
        };
        let lines = build_typing_lines(
            text,
            typed_count,
            layout.inner.width as usize,
            layout.inner.height as usize,
        );
        TypingFrame { layout, status, lines }
    }

    /// Begins to fade the waveform, and keeps the duration that the recording
    /// has reached. Where it fades already, nothing changes.
    pub fn start_cancel_animation(&mut self, now: Nanos)
        requires
            old(self).wf(),
            now >= old(self).clock.changed,
        ensures
            old(self).cancel_start is Some ==> *final(self) == *old(self),
            old(self).cancel_start is None ==> *final(self) == (OsttTui {
                cancel_start: Some(now),
                cancel_duration: Some(old(self).clock.duration_at(now as int) as u128),
                ..*old(self)
            }),
            final(self).wf(),
    {
        if self.cancel_start.is_none() {
            let duration: u128 = self.clock.get_recording_duration(now);
            self.cancel_start = Some(now);
            self.cancel_duration = Some(duration);
        }
    }

    /// For how long the waveform has faded, at most for as long as it takes.
    /// There is nothing to tell where it does not fade.
    pub fn cancel_progress(&self, now: Nanos) -> (r: Option<Nanos>)
        ensures
            r == self.progress_at(now),
    {
        match self.cancel_start {
            None => None,
            Some(start) => Some(
                if now <= start {
                    0
                } else if now - start < CANCEL_ANIMATION {
                    now - start
                } else {
                    CANCEL_ANIMATION
                },
            ),
        }
    }

    /// Whether the waveform has faded.
    pub fn cancel_animation_done(&self, now: Nanos) -> (r: bool)
        ensures
            r == self.faded(now),
    {
        match self.cancel_progress(now) {
            Some(elapsed) => elapsed >= CANCEL_ANIMATION,
            None => false,
        }
    }
}

/// How many characters of a text have been typed, and how many it has.
pub fn typing_counts(text: &str, typed_count: usize) -> (r: (usize, usize))
    ensures
        r.1 == text@.len(),
        r.0 == if typed_count < text@.len() {
            typed_count as int
        } else {
            text@.len() as int
        },
{
    let total: usize = text.unicode_len();
    if typed_count < total {
        (typed_count, total)
    } else {
        (total, total)
    }
}

/// Once the recording is called off, the duration that is shown stands still.
pub proof fn law_cancel_freezes_duration(tui: OsttTui, now: Nanos, later: Nanos)
    requires
        tui.wf(),
        tui.cancelling(now),
        now <= later,
    ensures
        tui.shown_duration(later) == tui.shown_duration(now),
{
}

/// While the recording is paused, the duration that is shown stands still, and
/// the meters show nothing.
pub proof fn law_pause_freezes_display(tui: OsttTui, now: Nanos, later: Nanos)
    requires
        tui.paused(),
        tui.cancel_start is None,
    ensures
        tui.shown_duration(later) == tui.shown_duration(now),
        tui.shown_peak() == 0,
        tui.shown_volume() == 0,
{
}

/// Only Enter transcribes, only Escape and `q` cancel, and only Space pauses or
/// resumes; every other key is ignored, and the control key makes no difference.
pub proof fn law_keys(key: KeyInput)
    ensures
        command_of(key) == RecordingCommand::TogglePause <==> key.code == KeyCode::Char(' '),
        command_of(key) == RecordingCommand::Transcribe <==> key.code == KeyCode::Enter,
        command_of(key) == RecordingCommand::Cancel <==> (key.code == KeyCode::Esc || key.code
            == KeyCode::Char('q')),
        command_of(KeyInput { code: key.code, control: !key.control }) == command_of(key),
{
}

/// The waveform is computed anew every fifty milliseconds, and neither while the
/// recording is paused nor once it is called off.
pub proof fn law_refresh(tui: OsttTui, now: Nanos)
    ensures
        tui.paused() || tui.cancelling(now) ==> !tui.refresh_due(now),
        !tui.paused() && !tui.cancelling(now) ==> (tui.refresh_due(now) <==> now
            >= tui.last_sample + 50_000_000),
{
}

/// A recording that is called off fades evenly for 320 milliseconds: the
/// progress follows the time, never falls, and ends when the animation is done.
pub proof fn law_fading(tui: OsttTui, now: Nanos, later: Nanos)
    requires
        now <= later,
    ensures
        tui.progress_at(now) is Some <==> tui.cancel_start is Some,
        tui.cancel_start matches Some(start) ==> {
            &&& tui.progress_at(now)->0 <= tui.progress_at(later)->0 <= 320_000_000
            &&& start <= now && later <= start + 320_000_000 ==> tui.progress_at(later)->0
                - tui.progress_at(now)->0 == later - now
            &&& now <= start ==> tui.progress_at(now)->0 == 0
            &&& tui.faded(now) <==> tui.progress_at(now)->0 == 320_000_000
        },
        tui.cancel_start is None ==> !tui.faded(now),
        tui.faded(now) ==> tui.faded(later) && tui.cancelling(now),
{
}

/// A level from 4 to 100 is shown as it is, one outside as the nearest of these.
pub proof fn law_volume(level: u8, other: u8)
    ensures
        4 <= volume_of(level) <= 100,
        4 <= level <= 100 ==> volume_of(level) == level,
        level <= other ==> volume_of(level) <= volume_of(other),
{
}

/// A duration is shown as its whole minutes and its seconds in two digits.
pub proof fn law_duration_text(minutes: nat, seconds: nat, rest: nat)
    requires
        seconds < 60,
        rest < 1_000_000_000,
    ensures
        duration_model((minutes * 60 + seconds) * 1_000_000_000 + rest) == decimal(minutes) + ":"@
            + seq![digit_char(seconds / 10), digit_char(seconds % 10)],
{
    let nanos = (minutes * 60 + seconds) * 1_000_000_000 + rest;
    assert(nanos / 1_000_000_000 == minutes * 60 + seconds);
    assert((minutes * 60 + seconds) / 60 == minutes);
    assert((minutes * 60 + seconds) % 60 == seconds);
    reveal_with_fuel(decimal, 2);
    assert(zero_padded(decimal(seconds), 2) =~= seq![
        digit_char(seconds / 10),
        digit_char(seconds % 10),
    ]);
}

/// The mark of development comes before all others, and that of a pause before
/// that of a recording that is called off.
pub proof fn law_indicator(tui: OsttTui, now: Nanos)
    ensures
        tui.shown_indicator(true, now) == Indicator::Development,
        tui.shown_indicator(false, now) == Indicator::Paused <==> tui.paused(),
        tui.shown_indicator(false, now) == Indicator::Cancelled <==> (tui.cancelling(now)
            && !tui.paused()),
        tui.shown_indicator(false, now) == Indicator::Recording <==> !(tui.cancelling(now)
            || tui.paused()),
{
}

/// The peak stands out exactly while the recording runs and the peak has reached
/// the threshold.
pub proof fn law_peak_style(tui: OsttTui, now: Nanos)
    ensures
        tui.cancelling(now) <==> tui.shown_peak_style(now) == PeakStyle::Inactive,
        tui.shown_peak_style(now) == PeakStyle::Alert ==> tui.shown_peak()
            >= tui.peak_volume_threshold,
        tui.shown_peak_style(now) == PeakStyle::Normal ==> tui.shown_peak()
            < tui.peak_volume_threshold,
        !tui.paused() ==> tui.shown_peak() == tui.meter.peak_model() && tui.shown_volume()
            == tui.meter.last,
{
}

/// Once a recording is called off, the duration stays what it was then, however
/// long it takes to fade.
pub proof fn law_cancelled_duration(tui: OsttTui, at: Nanos, later: Nanos)
    requires
        tui.wf(),
        tui.cancel_start is None,
        tui.clock.changed <= at < later,
    ensures
        (OsttTui {
            cancel_start: Some(at),
            cancel_duration: Some(tui.clock.duration_at(at as int) as u128),
            ..tui
        }).shown_duration(later) == tui.shown_duration(at),
{
}

/// The footer is its mark, the duration, the volume and the peak, in that order.
pub proof fn law_footer_row(footer: Footer)
    ensures
        ({
            let row = footer.row_model();
            &&& row.len() == 6
            &&& row[0].0 == footer.indicator.sign()
            &&& row[1].0 == footer.duration@
            &&& row[3].0 == footer.volume@
            &&& row[5].0 == footer.peak@
            &&& row[2].0 == " / "@ && row[4].0 == " / "@
            &&& row[5].1 == FooterStyle::Peak(footer.peak_style)
            &&& row[0].1 == FooterStyle::Mark(footer.indicator)
        }),
{
}

} // verus!
