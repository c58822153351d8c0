//! Handing the transcription over: pasted or typed into another window.
use crate::outside::{from_utf8_lossy, utf8_lossy};
use crate::platform::Platform;
use crate::remote::RemoteOutputMode;
use crate::text::{
    ascii_lower, ascii_lowered, chars_of, decimal, ends_with, is_digit, is_whitespace,
    law_parse_decimal, law_strip, law_trim_padding, lemma_decimal_digits, lemma_trim_fixed, opt_str,
    parse_number, parse_u64, same_text, starts_with, texts, trim, trimmed,
};
use vstd::prelude::*;
use vstd::string::*;
use vstd::utf8::{decode_utf8, valid_utf8};

verus! {

/// The output that a setting asks for: typing where it says so, and pasting otherwise.
pub open spec fn output_mode(setting: Option<Seq<char>>) -> RemoteOutputMode {
    match setting {
        Some(raw) => {
            let word = ascii_lower(trim(raw));
            if word == "type"@ || word == "typed"@ || word == "manual"@ {
                RemoteOutputMode::Type
            } else {
                RemoteOutputMode::Paste
            }
        },
        None => RemoteOutputMode::Paste,
    }
}

/// Reads `OSTT_REMOTE_OUTPUT_MODE`.
pub fn read_output_mode(setting: Option<&str>) -> (r: RemoteOutputMode)
    ensures
        r == output_mode(opt_str(setting)),
{
    match setting {
        Some(raw) => {
            let text = trimmed(raw);
            let word = ascii_lowered(text.as_str());
            if same_text(word.as_str(), "type") || same_text(word.as_str(), "typed") || same_text(
                word.as_str(),
                "manual",
            ) {
                RemoteOutputMode::Type
            } else {
                RemoteOutputMode::Paste
            }
        },
        None => {
            RemoteOutputMode::Paste
        },
    }
}

/// How the transcription is handed over: as a request asks, or else as is set.
pub open spec fn resolved_mode(
    override_mode: Option<RemoteOutputMode>,
    setting: Option<Seq<char>>,
) -> RemoteOutputMode {
    match override_mode {
        Some(mode) => mode,
        None => output_mode(setting),
    }
}

/// The output to use: the one that the remote request asks for, or else the
/// one that the environment sets.
pub fn resolve_output_mode(override_mode: Option<RemoteOutputMode>, setting: Option<&str>) -> (r:
    RemoteOutputMode)
    ensures
        r == resolved_mode(override_mode, opt_str(setting)),
{
    match override_mode {
        Some(mode) => mode,
        None => read_output_mode(setting),
    }
}

/// The number that a setting gives, where it gives one.
pub open spec fn number_setting(setting: Option<Seq<char>>) -> Option<nat> {
    match setting {
        Some(raw) => parse_number(trim(raw), u64::MAX as nat),
        None => None,
    }
}

/// The number that a setting gives, or else the default.
pub open spec fn number_or(setting: Option<Seq<char>>, default: nat) -> nat {
    match number_setting(setting) {
        Some(n) => n,
        None => default,
    }
}

/// The number that a setting gives, where it gives one.
fn number(setting: Option<&str>) -> (r: Option<u64>)
    ensures
        match r {
            Some(n) => number_setting(opt_str(setting)) == Some(n as nat),
            None => number_setting(opt_str(setting)) is None,
        },
{
    match setting {
        Some(raw) => {
            let text = trimmed(raw);
            parse_u64(text.as_str())
        },
        None => None,
    }
}

/// Reads `OSTT_REMOTE_TYPE_DELAY_MS`: the pause after each typed character.
pub fn read_type_delay_ms(setting: Option<&str>) -> (r: u64)
    ensures
        r == number_or(opt_str(setting), 8),
{
    match number(setting) {
        Some(n) => n,
        None => 8,
    }
}

/// Reads `OSTT_REMOTE_TYPE_START_DELAY_MS`: the pause before the first
/// character is typed.
pub fn read_type_start_delay_ms(setting: Option<&str>) -> (r: u64)
    ensures
        r == number_or(opt_str(setting), 120),
{
    match number(setting) {
        Some(n) => n,
        None => 120,
    }
}

/// How many milliseconds the preview takes: as set, within limits.
pub open spec fn stream_duration(setting: Option<Seq<char>>) -> nat {
    match number_setting(setting) {
        Some(n) => if n < 50 {
            50
        } else if n > 5000 {
            5000
        } else {
            n
        },
        None => 300,
    }
}

/// Reads `OSTT_REMOTE_STREAM_MS`: how long the preview of a pasted
/// transcription takes, within bounds.
pub fn read_stream_duration_ms(setting: Option<&str>) -> (r: u64)
    ensures
        r == stream_duration(opt_str(setting)),
        50 <= r <= 5000,
{
    match number(setting) {
        Some(n) => if n < 50 {
            50
        } else if n > 5000 {
            5000
        } else {
            n
        },
        None => 300,
    }
}

/// How many seconds a transcription may take: as set, where that is some time.
pub open spec fn transcription_timeout(setting: Option<Seq<char>>) -> nat {
    match number_setting(setting) {
        Some(n) if n > 0 => n,
        _ => 120,
    }
}

/// Reads `OSTT_CONTEXTUALIZE_TIMEOUT_SECONDS`: how long a transcription may
/// take, in seconds.
pub fn read_transcription_timeout(setting: Option<&str>) -> (r: u64)
    ensures
        r == transcription_timeout(opt_str(setting)),
        r > 0,
{
    match number(setting) {
        Some(n) => if n > 0 {
            n
        } else {
            120
        },
        None => 120,
    }
}

/// What a setting says, or else the default.
pub open spec fn text_or(setting: Option<Seq<char>>, default: Seq<char>) -> Seq<char> {
    match setting {
        Some(raw) if trim(raw).len() > 0 => trim(raw),
        _ => default,
    }
}

/// What a setting says, or else the default.
fn text_setting(setting: Option<&str>, default: &str) -> (r: String)
    ensures
        r@ == text_or(opt_str(setting), default@),
{
    if let Some(raw) = setting {
        let text = trimmed(raw);
        if !text.as_str().is_empty() {
            return text;
        }
    }
    default.to_string()
}

/// Reads `OSTT_YDOTOOL_BIN`: the program that types.
pub fn ydotool_bin(setting: Option<&str>) -> (r: String)
    ensures
        r@ == text_or(opt_str(setting), "ydotool"@),
{
    text_setting(setting, "ydotool")
}

/// Reads `OSTT_WRAPCTL_BIN`: the program that pastes.
pub fn wrapctl_bin(setting: Option<&str>) -> (r: String)
    ensures
        r@ == text_or(opt_str(setting), "wrapctl"@),
{
    text_setting(setting, "wrapctl")
}

/// Reads `OSTT_CONTEXTUALIZE_BIN`: the program that transcribes.
pub fn contextualize_bin(setting: Option<&str>) -> (r: String)
    ensures
        r@ == text_or(opt_str(setting), "contextualize"@),
{
    text_setting(setting, "contextualize")
}

/// Whether a setting says yes.
pub open spec fn says_yes(setting: Option<Seq<char>>) -> bool {
    match setting {
        Some(raw) => {
            let word = ascii_lower(trim(raw));
            word == "1"@ || word == "true"@ || word == "yes"@ || word == "on"@
        },
        None => false,
    }
}

/// Reads `OSTT_ALLOW_YDOTOOL_FALLBACK`.
pub fn allow_ydotool_fallback(setting: Option<&str>) -> (r: bool)
    ensures
        r == says_yes(opt_str(setting)),
{
    match setting {
        Some(raw) => {
            let text = trimmed(raw);
            let word = ascii_lowered(text.as_str());
            same_text(word.as_str(), "1") || same_text(word.as_str(), "true") || same_text(
                word.as_str(),
                "yes",
            ) || same_text(word.as_str(), "on")
        },
        None => false,
    }
}

/// What the heading says of a pasted transcription.
pub open spec fn paste_label(platform: Platform) -> Seq<char> {
    match platform {
        Platform::MacOs => "pasted via cmd+v"@,
        Platform::Linux => "pasted via wrapd"@,
        _ => "pasted"@,
    }
}

/// The heading of the preview of a pasted transcription.
pub fn paste_header_label(platform: Platform) -> (r: String)
    ensures
        r@ == paste_label(platform),
{
    match platform {
        Platform::MacOs => "pasted via cmd+v".to_string(),
        Platform::Linux => "pasted via wrapd".to_string(),
        _ => "pasted".to_string(),
    }
}

/// The heading while a transcription is typed.
pub fn type_header_label() -> (r: String)
    ensures
        r@ == "typing via ydotool"@,
{
    "typing via ydotool".to_string()
}

/// The quotient rounded up.
pub open spec fn ceil_div(a: int, b: int) -> int {
    (a + b - 1) / b
}

/// How many frames a preview has: one each 16 milliseconds, and at least one.
pub open spec fn preview_frames(duration_ms: int) -> int {
    if duration_ms / 16 < 1 {
        1
    } else {
        duration_ms / 16
    }
}

/// How many characters a frame shows, when it is the `k`th of `frames` and
/// the text has `total`.
pub open spec fn preview_count(total: int, frames: int, k: int) -> int {
    if k * ceil_div(total, frames) < total {
        k * ceil_div(total, frames)
    } else {
        total
    }
}

/// How many characters are shown by each frame of a preview: none at first,
/// then more in equal steps.
pub open spec fn preview_counts(total: int, duration_ms: int) -> Seq<int> {
    let frames = preview_frames(duration_ms);
    if total == 0 {
        seq![0]
    } else {
        Seq::new((frames + 1) as nat, |k: int| preview_count(total, frames, k))
    }
}

proof fn lemma_ceil_div(total: int, frames: int)
    requires
        total >= 0,
        frames > 0,
    ensures
        0 <= ceil_div(total, frames) <= total,
        frames * ceil_div(total, frames) >= total,
        ceil_div(total, frames) == total / frames + if total % frames > 0 {
            1int
        } else {
            0
        },
{
    let q = total / frames;
    let m = total % frames;
    vstd::arithmetic::div_mod::lemma_fundamental_div_mod(total, frames);
    vstd::arithmetic::div_mod::lemma_mod_bound(total, frames);
    if m > 0 {
        assert(total + frames - 1 == frames * (q + 1) + (m - 1)) by (nonlinear_arith)
            requires
                total == frames * q + m,
        ;
        vstd::arithmetic::div_mod::lemma_fundamental_div_mod_converse(
            total + frames - 1,
            frames,
            q + 1,
            m - 1,
        );
        assert(frames * (q + 1) >= total) by (nonlinear_arith)
            requires
                total == frames * q + m,
                m < frames,
        ;
        assert(0 <= q && q + 1 <= total) by (nonlinear_arith)
            requires
                total == frames * q + m,
                0 < m < frames,
                total >= 0,
                frames > 0,
        ;
    } else {
        assert(total + frames - 1 == frames * q + (frames - 1)) by (nonlinear_arith)
            requires
                total == frames * q + m,
                m == 0,
        ;
        vstd::arithmetic::div_mod::lemma_fundamental_div_mod_converse(
            total + frames - 1,
            frames,
            q,
            frames - 1,
        );
        assert(0 <= q <= total) by (nonlinear_arith)
            requires
                total == frames * q,
                total >= 0,
                frames > 0,
        ;
    }
}

/// A preview begins with nothing, never goes back, and ends with the whole text.
pub proof fn law_preview_shows_everything(total: int, duration_ms: int)
    requires
        total >= 0,
        duration_ms >= 0,
    ensures
        preview_counts(total, duration_ms)[0] == 0,
        preview_counts(total, duration_ms).last() == total,
        forall|j: int, k: int|
            #![trigger preview_counts(total, duration_ms)[j], preview_counts(total, duration_ms)[k]]
            0 <= j <= k < preview_counts(total, duration_ms).len() ==> preview_counts(
                total,
                duration_ms,
            )[j] <= preview_counts(total, duration_ms)[k],
{
    let frames = preview_frames(duration_ms);
    let step = ceil_div(total, frames);
    lemma_ceil_div(total, frames);
    assert(0 * step == 0) by (nonlinear_arith);
    assert forall|j: int, k: int|
        #![trigger preview_counts(total, duration_ms)[j], preview_counts(total, duration_ms)[k]]
        0 <= j <= k < preview_counts(total, duration_ms).len() implies preview_counts(
        total,
        duration_ms,
    )[j] <= preview_counts(total, duration_ms)[k] by {
        assert(j * step <= k * step) by (nonlinear_arith)
            requires
                0 <= j <= k,
                step >= 0,
        ;
    }
}

/// Counts as machine integers.
pub open spec fn counts(v: Seq<usize>) -> Seq<int> {
    v.map_values(|n: usize| n as int)
}

/// How many characters each frame of the preview of a pasted transcription shows.
pub fn stream_transcription_preview(total: usize, duration_ms: u64) -> (r: Vec<usize>)
    requires
        duration_ms as int / 16 <= usize::MAX,
    ensures
        counts(r@) == preview_counts(total as int, duration_ms as int),
{
    let mut out: Vec<usize> = Vec::new();
    out.push(0);
    if total == 0 {
        assert(counts(out@) =~= seq![0int]);
        return out;
    }
    let frames: usize = if duration_ms / 16 < 1 {
        1
    } else {
        (duration_ms / 16) as usize
    };
    let ghost f = preview_frames(duration_ms as int);
    assert(frames == f);
    proof {
        lemma_ceil_div(total as int, f);
    }
    let step: usize = if total % frames > 0 {
        total / frames + 1
    } else {
        total / frames
    };
    assert(step == ceil_div(total as int, f));
    let mut typed: usize = 0;
    let mut k: usize = 0;
    assert(0 * step == 0) by (nonlinear_arith);
    assert(counts(out@) =~= Seq::new(1, |i: int| preview_count(total as int, f, i)));
    while k < frames
        invariant
            total > 0,
            k <= frames == f,
            step == ceil_div(total as int, f),
            typed == preview_count(total as int, f, k as int),
            typed <= total,
            counts(out@) == Seq::new((k + 1) as nat, |i: int| preview_count(total as int, f, i)),
        decreases frames - k,
    {
        assert((k + 1) * step == k * step + step) by (nonlinear_arith);
        typed = if total - typed <= step {
            total
        } else {
            typed + step
        };
        let ghost before = counts(out@);
        out.push(typed);
        k += 1;
        assert(typed == preview_count(total as int, f, k as int));
        assert(counts(out@) =~= before.push(typed as int));
        assert(counts(out@) =~= Seq::new(
            (k + 1) as nat,
            |i: int| preview_count(total as int, f, i),
        ));
    }
    assert(counts(out@) =~= preview_counts(total as int, duration_ms as int));
    out
}

/// Typing a transcription out, one character after the other.
#[derive(Debug)]
pub struct Typing {
    /// The characters of the transcription.
    pub chars: Vec<char>,
    /// How many of them have been typed.
    pub typed: usize,
}

/// A character to type, and how many have been typed when it is.
#[derive(Debug, Clone, Copy, PartialEq, Eq, Structural)]
pub struct TypeStep {
    pub ch: char,
    pub typed: usize,
}

impl Typing {
    /// No more has been typed than there is.
    pub open spec fn wf(self) -> bool {
        self.typed <= self.chars@.len()
    }

    /// What has been typed so far.
    pub open spec fn output(self) -> Seq<char> {
        self.chars@.take(self.typed as int)
    }

    /// A text of which nothing has been typed.
    pub fn new(text: &str) -> (r: Self)
        ensures
            r.wf(),
            r.chars@ == text@,
            r.output() == Seq::<char>::empty(),
    {
        let t = Typing { chars: chars_of(text), typed: 0 };
        assert(t.output() =~= Seq::<char>::empty());
        t
    }

    /// The next character to type; none once the whole text has been typed.
    pub fn next(&mut self) -> (r: Option<TypeStep>)
        requires
            old(self).wf(),
        ensures
            final(self).wf(),
            final(self).chars == old(self).chars,
            match r {
                Some(step) => {
                    &&& final(self).output() == old(self).output().push(step.ch)
                    &&& step.typed == final(self).output().len()
                    &&& step.typed == old(self).typed + 1
                },
                None => final(self).typed == old(self).typed && old(self).output() == old(
                    self,
                ).chars@,
            },
            r is None <==> old(self).typed == old(self).chars@.len(),
    {
        if self.typed < self.chars.len() {
            let ch = self.chars[self.typed];
            self.typed = self.typed + 1;
            assert(self.output() =~= old(self).output().push(ch));
            Some(TypeStep { ch, typed: self.typed })
        } else {
            assert(self.output() =~= self.chars@);
            None
        }
    }
}

/// How a transcription is pasted.
#[derive(Debug, Clone, Copy, PartialEq, Eq, Structural)]
pub enum PasteRoute {
    /// The transcription is handed to a helper program.
    Helper,
    /// The transcription goes to the clipboard, and a keyboard shortcut pastes it.
    Shortcut,
    /// There is no way to paste.
    Unsupported,
}

/// How a transcription is pasted on a platform.
pub open spec fn paste_route(platform: Platform) -> PasteRoute {
    match platform {
        Platform::Linux => PasteRoute::Helper,
        Platform::MacOs => PasteRoute::Shortcut,
        _ => PasteRoute::Unsupported,
    }
}

/// Decides how a transcription is pasted.
pub fn paste_transcription(platform: Platform) -> (r: PasteRoute)
    ensures
        r == paste_route(platform),
{
    match platform {
        Platform::Linux => PasteRoute::Helper,
        Platform::MacOs => PasteRoute::Shortcut,
        _ => PasteRoute::Unsupported,
    }
}

/// What follows an attempt to paste by the helper program.
#[derive(Debug)]
pub enum PasteNext {
    /// The transcription has been pasted.
    Done,
    /// Copy the transcription to the clipboard, and send the keyboard shortcut.
    FallBack,
    /// Give up.
    Fail(String),
}

/// Decides what follows an attempt to paste by the helper program: where it
/// failed, the shortcut is tried only if the user allows it.
pub fn after_helper(attempt: Result<(), String>, fallback_allowed: bool) -> (r: PasteNext)
    ensures
        match r {
            PasteNext::Done => attempt is Ok,
            PasteNext::FallBack => attempt is Err && fallback_allowed,
            PasteNext::Fail(error) => attempt matches Err(e) && e@ == error@ && !fallback_allowed,
        },
{
    match attempt {
        Ok(()) => PasteNext::Done,
        Err(error) => if fallback_allowed {
            PasteNext::FallBack
        } else {
            PasteNext::Fail(error)
        },
    }
}

/// Whether `r` is the right account of the helper program's end, given what
/// it reported on standard error.
pub open spec fn helper_outcome_of(
    success: bool,
    status: Seq<char>,
    said: Seq<char>,
    r: Result<(), String>,
) -> bool {
    match r {
        Ok(_) => success,
        Err(message) => !success && message@ == if said.len() == 0 {
            "wrapctl paste-stdin exited with status "@ + status
        } else {
            "wrapctl paste-stdin failed: "@ + said
        },
    }
}

/// What the helper program's end amounts to.
pub fn paste_transcription_with_wrapctl(success: bool, status: &str, stderr: &[u8]) -> (r: Result<
    (),
    String,
>)
    ensures
        helper_outcome_of(success, status@, trim(utf8_lossy(stderr@)), r),
        valid_utf8(stderr@) ==> helper_outcome_of(success, status@, trim(decode_utf8(stderr@)), r),
{
    if success {
        return Ok(());
    }
    let raw = from_utf8_lossy(stderr);
    let said = trimmed(raw.as_str());
    helper_failure(status, said.as_str())
}

/// Reports that the helper program failed.
pub fn helper_failure(status: &str, said: &str) -> (r: Result<(), String>)
    ensures
        helper_outcome_of(false, status@, said@, r),
{
    let mut message = String::new();
    if said.is_empty() {
        message.append("wrapctl paste-stdin exited with status ");
        message.append(status);
        assert(message@ =~= "wrapctl paste-stdin exited with status "@ + status@);
    } else {
        message.append("wrapctl paste-stdin failed: ");
        message.append(said);
        assert(message@ =~= "wrapctl paste-stdin failed: "@ + said@);
    }
    Err(message)
}

/// What the end of a program that sends keys amounts to.
pub fn key_sender_outcome(program: &str, success: bool, status: &str) -> (r: Result<(), String>)
    ensures
        match r {
            Ok(_) => success,
            Err(message) => !success && message@ == program@ + " exited with status "@ + status@,
        },
{
    if success {
        Ok(())
    } else {
        let mut message = program.to_string();
        message.append(" exited with status ");
        message.append(status);
        Err(message)
    }
}

/// The arguments with which the program that types sends the shortcut for
/// pasting: control, shift and V down, and up again.
pub fn send_ydotool_paste_shortcut() -> (r: Vec<String>)
    ensures
        texts(r@) == seq!["key"@, "29:1"@, "42:1"@, "47:1"@, "47:0"@, "42:0"@, "29:0"@],
{
    let mut args: Vec<String> = Vec::new();
    args.push("key".to_string());
    args.push("29:1".to_string());
    args.push("42:1".to_string());
    args.push("47:1".to_string());
    args.push("47:0".to_string());
    args.push("42:0".to_string());
    args.push("29:0".to_string());
    assert(texts(args@) =~= seq!["key"@, "29:1"@, "42:1"@, "47:1"@, "47:0"@, "42:0"@, "29:0"@]);
    args
}

/// The arguments with which `osascript` sends the shortcut for pasting.
pub fn send_macos_paste_shortcut() -> (r: Vec<String>)
    ensures
        texts(r@) == seq![
            "-e"@,
            "tell application \"System Events\" to keystroke \"v\" using command down"@,
        ],
{
    let mut args: Vec<String> = Vec::new();
    args.push("-e".to_string());
    args.push(
        "tell application \"System Events\" to keystroke \"v\" using command down".to_string(),
    );
    assert(texts(args@) =~= seq![
        "-e"@,
        "tell application \"System Events\" to keystroke \"v\" using command down"@,
    ]);
    args
}

/// A number is read whatever white space stands around it.
pub proof fn law_number_setting(before: Seq<char>, n: nat, after: Seq<char>, default: nat)
    requires
        forall|k: int| 0 <= k < before.len() ==> is_whitespace(#[trigger] before[k]),
        forall|k: int| 0 <= k < after.len() ==> is_whitespace(#[trigger] after[k]),
        n <= u64::MAX,
    ensures
        ({
            let setting = Some(before + decimal(n) + after);
            &&& number_or(setting, default) == n
            &&& 50 <= n <= 5000 ==> stream_duration(setting) == n
            &&& n < 50 ==> stream_duration(setting) == 50
            &&& n > 5000 ==> stream_duration(setting) == 5000
            &&& transcription_timeout(setting) == if n == 0 {
                120
            } else {
                n
            }
        }),
{
    law_trim_padding(before, decimal(n), after);
    law_parse_decimal(n, u64::MAX as nat);
    lemma_decimal_digits(n);
    assert(is_digit(decimal(n)[0]) && is_digit(decimal(n).last()));
    lemma_trim_fixed(decimal(n));
}

/// What is no number counts as not set.
pub proof fn law_no_number(setting: Option<Seq<char>>, default: nat, k: int)
    requires
        setting matches Some(raw) ==> 1 <= k < trim(raw).len() && !is_digit(trim(raw)[k]),
    ensures
        number_or(setting, default) == default,
        stream_duration(setting) == stream_duration(None),
        transcription_timeout(setting) == transcription_timeout(None),
        stream_duration(None) == 300,
        transcription_timeout(None) == 120,
{
    if let Some(raw) = setting {
        let t = trim(raw);
        if t[0] == '+' {
            assert(t.drop_first()[k - 1] == t[k]);
        }
    }
}

/// A setting counts without the white space around it, and a blank one is none.
pub proof fn law_text_setting(
    before: Seq<char>,
    value: Seq<char>,
    after: Seq<char>,
    default: Seq<char>,
)
    requires
        forall|k: int| 0 <= k < before.len() ==> is_whitespace(#[trigger] before[k]),
        forall|k: int| 0 <= k < after.len() ==> is_whitespace(#[trigger] after[k]),
        value.len() > 0 ==> !is_whitespace(value[0]) && !is_whitespace(value.last()),
    ensures
        text_or(Some(before + value + after), default) == if value.len() > 0 {
            value
        } else {
            default
        },
        text_or(None, default) == default,
{
    law_trim_padding(before, value, after);
    lemma_trim_fixed(value);
}

/// White space around a word, and the case of its letters, do not matter.
pub proof fn law_settings_are_lenient(
    before: Seq<char>,
    word: Seq<char>,
    after: Seq<char>,
    other: Seq<char>,
)
    requires
        forall|k: int| 0 <= k < before.len() ==> is_whitespace(#[trigger] before[k]),
        forall|k: int| 0 <= k < after.len() ==> is_whitespace(#[trigger] after[k]),
    ensures
        output_mode(Some(before + word + after)) == output_mode(Some(word)),
        says_yes(Some(before + word + after)) == says_yes(Some(word)),
        ascii_lower(trim(other)) == ascii_lower(trim(word)) ==> output_mode(Some(other))
            == output_mode(Some(word)) && says_yes(Some(other)) == says_yes(Some(word)),
{
    law_trim_padding(before, word, after);
}

/// A word is a yes exactly where it is one of four, and it asks for typing
/// exactly where it is one of three.
pub proof fn law_setting_words(setting: Seq<char>)
    ensures
        says_yes(Some(setting)) <==> seq!["1"@, "true"@, "yes"@, "on"@].contains(
            ascii_lower(trim(setting)),
        ),
        output_mode(Some(setting)) == RemoteOutputMode::Type <==> seq![
            "type"@,
            "typed"@,
            "manual"@,
        ].contains(ascii_lower(trim(setting))),
        !says_yes(None),
        output_mode(None) == RemoteOutputMode::Paste,
{
    let word = ascii_lower(trim(setting));
    let yes = seq!["1"@, "true"@, "yes"@, "on"@];
    assert(yes[0] == "1"@ && yes[1] == "true"@ && yes[2] == "yes"@ && yes[3] == "on"@);
    let typed = seq!["type"@, "typed"@, "manual"@];
    assert(typed[0] == "type"@ && typed[1] == "typed"@ && typed[2] == "manual"@);
}

/// What a request asks for comes before what is set.
pub proof fn law_requests_come_first(
    mode: RemoteOutputMode,
    setting: Option<Seq<char>>,
)
    ensures
        resolved_mode(Some(mode), setting) == mode,
        resolved_mode(None, setting) == output_mode(setting),
{
}

/// Each frame of a preview but the last shows an equal share more than the one
/// before, the smallest with which all is shown in time. There is a frame for
/// every sixteen milliseconds, at least one, after the empty one.
pub proof fn law_preview_is_even(total: int, duration_ms: int, k: int)
    requires
        total > 0,
        duration_ms >= 0,
        0 <= k,
        k + 1 < preview_counts(total, duration_ms).len(),
    ensures
        ({
            let shown = preview_counts(total, duration_ms);
            let frames = shown.len() - 1;
            let share = if shown[1] < total {
                shown[1]
            } else {
                total
            };
            &&& shown[k + 1] < total ==> shown[k + 1] - shown[k] == share
            &&& shown[k + 1] - shown[k] <= share
            &&& share * frames >= total
            &&& (share - 1) * frames < total
            &&& duration_ms >= 16 ==> 16 * frames <= duration_ms < 16 * (frames + 1)
            &&& duration_ms < 16 ==> frames == 1
        }),
{
    let frames = preview_frames(duration_ms);
    let share = ceil_div(total, frames);
    lemma_ceil_div(total, frames);
    let shown = preview_counts(total, duration_ms);
    assert(shown.len() == frames + 1);
    assert(shown[1] == preview_count(total, frames, 1));
    assert(1 * share == share) by (nonlinear_arith);
    assert(share <= total);
    assert(shown[1] == share);
    assert((k + 1) * share == k * share + share) by (nonlinear_arith);
    assert(share * frames == frames * share) by (nonlinear_arith);
    assert((share - 1) * frames < total) by (nonlinear_arith)
        requires
            share == (total + frames - 1) / frames,
            frames > 0,
    ;
}

/// Only Linux has a helper to paste with, and only macOS a shortcut. Elsewhere
/// nothing is pasted, and the heading names no way.
pub proof fn law_paste_route(platform: Platform)
    ensures
        paste_route(platform) == PasteRoute::Helper <==> platform == Platform::Linux,
        paste_route(platform) == PasteRoute::Shortcut <==> platform == Platform::MacOs,
        paste_route(platform) == PasteRoute::Unsupported ==> paste_label(platform) == "pasted"@,
        starts_with(paste_label(platform), "pasted"@),
{
    reveal_strlit("pasted");
    reveal_strlit("pasted via cmd+v");
    reveal_strlit("pasted via wrapd");
    assert(paste_label(platform).subrange(0, 6) =~= "pasted"@);
}

/// The helper's failure is reported with what it said, or else with its status.
pub proof fn law_helper_outcome(
    success: bool,
    status: Seq<char>,
    said: Seq<char>,
    r: Result<(), String>,
)
    requires
        helper_outcome_of(success, status, said, r),
    ensures
        r is Ok <==> success,
        r matches Err(message) ==> ends_with(
            message@,
            if said.len() > 0 {
                said
            } else {
                status
            },
        ),
{
    if let Err(message) = r {
        if said.len() > 0 {
            law_strip(message@, said, "wrapctl paste-stdin failed: "@);
        } else {
            law_strip(message@, status, "wrapctl paste-stdin exited with status "@);
        }
    }
}

} // verus!
