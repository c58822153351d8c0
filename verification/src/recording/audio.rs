//! The samples of a recording: mixing to mono, pausing, and the finished audio.
use crate::text::{decimal, decimal_text, ends_with, law_strip, opt_text, same_text};
use vstd::prelude::*;
use vstd::string::*;

verus! {

/// The quotient rounded towards zero.
pub open spec fn truncated_div(a: int, b: int) -> int {
    if a >= 0 {
        a / b
    } else {
        -((-a) / b)
    }
}

/// The sum of some samples.
pub open spec fn sum(s: Seq<i16>) -> int
    decreases s.len(),
{
    if s.len() == 0 {
        0
    } else {
        sum(s.drop_last()) + s.last()
    }
}

/// The samples of one frame, mixed to mono: their average, rounded towards zero.
pub open spec fn mono_sample(frame: Seq<i16>) -> i16 {
    truncated_div(sum(frame), frame.len() as int) as i16
}

/// The `i`th frame of interleaved samples with `channels` samples to a frame.
pub open spec fn frame_at(data: Seq<i16>, channels: int, i: int) -> Seq<i16> {
    data.subrange(i * channels, (i + 1) * channels)
}

/// Interleaved samples, mixed to mono: one sample for each complete frame.
pub open spec fn mono(data: Seq<i16>, channels: int) -> Seq<i16> {
    Seq::new(
        (data.len() as int / channels) as nat,
        |i: int| mono_sample(frame_at(data, channels, i)),
    )
}

proof fn lemma_sum_bounds(s: Seq<i16>, low: int, high: int)
    requires
        forall|k: int| 0 <= k < s.len() ==> low <= #[trigger] s[k] <= high,
    ensures
        low * s.len() <= sum(s) <= high * s.len(),
    decreases s.len(),
{
    if s.len() > 0 {
        let r = s.drop_last();
        assert forall|k: int| 0 <= k < r.len() implies low <= #[trigger] r[k] <= high by {
            assert(r[k] == s[k]);
        }
        lemma_sum_bounds(r, low, high);
        assert(low <= s.last() <= high);
        assert(low * s.len() == low * r.len() + low) by (nonlinear_arith)
            requires
                s.len() == r.len() + 1,
        ;
        assert(high * s.len() == high * r.len() + high) by (nonlinear_arith)
            requires
                s.len() == r.len() + 1,
        ;
    }
}

proof fn lemma_truncated_div_bounds(a: int, n: int, low: int, high: int)
    requires
        n > 0,
        low * n <= a <= high * n,
    ensures
        low <= truncated_div(a, n) <= high,
{
    if a >= 0 {
        assert(low <= a / n <= high) by (nonlinear_arith)
            requires
                n > 0,
                low * n <= a <= high * n,
                a >= 0,
        ;
    } else {
        assert(low <= -((-a) / n) <= high) by (nonlinear_arith)
            requires
                n > 0,
                low * n <= a <= high * n,
                a < 0,
        ;
    }
}

/// A mono sample lies between the smallest and the largest sample of its frame.
pub proof fn law_mono_between(frame: Seq<i16>, low: i16, high: i16)
    requires
        frame.len() > 0,
        forall|k: int| 0 <= k < frame.len() ==> low <= #[trigger] frame[k] <= high,
    ensures
        low <= mono_sample(frame) <= high,
{
    lemma_sum_bounds(frame, low as int, high as int);
    lemma_truncated_div_bounds(sum(frame), frame.len() as int, low as int, high as int);
}

/// Mono input is kept as it is.
pub proof fn law_mono_identity(data: Seq<i16>)
    ensures
        mono(data, 1) == data,
{
    assert forall|i: int| 0 <= i < data.len() implies mono(data, 1)[i] == data[i] by {
        reveal_with_fuel(sum, 2);
        let f = frame_at(data, 1, i);
        assert(f =~= seq![data[i]]);
        assert(f.drop_last() =~= Seq::<i16>::empty());
        assert(sum(f) == data[i]);
    }
    assert(mono(data, 1) =~= data);
}

/// Mixing two batches one after the other is mixing them together, where the
/// first one ends with a complete frame.
pub proof fn law_mono_batches(a: Seq<i16>, b: Seq<i16>, channels: int)
    requires
        channels > 0,
        a.len() as int % channels == 0,
    ensures
        mono(a + b, channels) == mono(a, channels) + mono(b, channels),
{
    let n = a.len() as int / channels;
    assert(a.len() == n * channels) by {
        vstd::arithmetic::div_mod::lemma_fundamental_div_mod(a.len() as int, channels);
        vstd::arithmetic::mul::lemma_mul_is_commutative(n, channels);
    }
    let m = b.len() as int / channels;
    vstd::arithmetic::div_mod::lemma_fundamental_div_mod(b.len() as int, channels);
    vstd::arithmetic::div_mod::lemma_mod_bound(b.len() as int, channels);
    let rem = b.len() as int % channels;
    assert((a.len() + b.len()) as int / channels == n + m) by {
        assert(a.len() + b.len() == channels * (n + m) + rem) by (nonlinear_arith)
            requires
                a.len() == n * channels,
                b.len() == channels * m + rem,
        ;
        vstd::arithmetic::div_mod::lemma_fundamental_div_mod_converse(
            (a.len() + b.len()) as int,
            channels,
            n + m,
            rem,
        );
    }
    assert forall|i: int| 0 <= i < n + m implies mono(a + b, channels)[i] == (mono(a, channels)
        + mono(b, channels))[i] by {
        if i < n {
            assert(0 <= i * channels <= (i + 1) * channels <= n * channels) by (nonlinear_arith)
                requires
                    0 <= i < n,
                    channels > 0,
            ;
            assert(frame_at(a + b, channels, i) =~= frame_at(a, channels, i));
        } else {
            let k = i - n;
            assert(i * channels == n * channels + k * channels && (i + 1) * channels == n * channels
                + (k + 1) * channels && 0 <= k * channels <= (k + 1) * channels <= m * channels)
                by (nonlinear_arith)
                requires
                    i == n + k,
                    0 <= k < m,
                    channels > 0,
            ;
            assert(channels * m == m * channels) by (nonlinear_arith);
            assert(frame_at(a + b, channels, i) =~= frame_at(b, channels, k));
        }
    }
    assert(mono(a + b, channels) =~= mono(a, channels) + mono(b, channels));
}

/// The average of `data[from..to]`, rounded towards zero.
fn average(data: &[i16], from: usize, to: usize) -> (r: i16)
    requires
        from < to <= data@.len(),
        to - from <= i32::MAX,
    ensures
        r == mono_sample(data@.subrange(from as int, to as int)),
{
    let ghost frame = data@.subrange(from as int, to as int);
    let mut total: i64 = 0;
    let mut k: usize = from;
    while k < to
        invariant
            from <= k <= to <= data@.len(),
            to - from <= i32::MAX,
            total == sum(data@.subrange(from as int, k as int)),
            -32768 * (k - from) <= total <= 32767 * (k - from),
        decreases to - k,
    {
        assert(data@.subrange(from as int, k + 1).drop_last() =~= data@.subrange(
            from as int,
            k as int,
        ));
        total = total + data[k] as i64;
        k += 1;
    }
    let count: i64 = (to - from) as i64;
    proof {
        lemma_truncated_div_bounds(total as int, count as int, -32768, 32767);
    }
    (total / count) as i16
}

/// Appends the mono mix of interleaved samples to a recording.
///
/// Samples that do not fill a frame at the end are dropped.
pub fn handle_audio_callback(data: &[i16], samples: &mut Vec<i16>, num_channels: usize)
    requires
        0 < num_channels <= i32::MAX,
    ensures
        final(samples)@ == old(samples)@ + mono(data@, num_channels as int),
{
    let ghost c = num_channels as int;
    let ghost whole = mono(data@, c);
    let n: usize = data.len();
    let mut at: usize = 0;
    let ghost mut done: int = 0;
    proof {
        vstd::arithmetic::div_mod::lemma_fundamental_div_mod(n as int, c);
        vstd::arithmetic::div_mod::lemma_mod_bound(n as int, c);
        assert(samples@ =~= old(samples)@ + whole.take(0));
    }
    while n - at >= num_channels
        invariant
            0 < num_channels <= i32::MAX,
            c == num_channels,
            at <= n == data@.len(),
            at == done * c,
            whole == mono(data@, c),
            n == c * (n as int / c) + n as int % c,
            0 <= n as int % c < c,
            0 <= done <= n as int / c,
            samples@ == old(samples)@ + whole.take(done),
        decreases n - at,
    {
        assert(done < n as int / c) by (nonlinear_arith)
            requires
                n - done * c >= c,
                n == c * (n as int / c) + n as int % c,
                n as int % c < c,
                c > 0,
        ;
        assert((done + 1) * c == at + c) by (nonlinear_arith)
            requires
                at == done * c,
        ;
        let sample = average(data, at, at + num_channels);
        samples.push(sample);
        proof {
            assert(frame_at(data@, c, done) =~= data@.subrange(at as int, at + num_channels));
            assert(samples@ =~= old(samples)@ + whole.take(done + 1));
            done = done + 1;
        }
        at += num_channels;
    }
    proof {
        assert(done == n as int / c) by (nonlinear_arith)
            requires
                n - done * c < c,
                n == c * (n as int / c) + n as int % c,
                0 <= n as int % c,
                done <= n as int / c,
                c > 0,
        ;
        assert(whole.take(done) =~= whole);
    }
}

/// What is recorded once a batch of interleaved samples has arrived.
pub open spec fn received(samples: Seq<i16>, paused: bool, channels: int, data: Seq<i16>) -> Seq<
    i16,
> {
    if paused {
        samples
    } else {
        samples + mono(data, channels)
    }
}

/// Copies samples.
fn copied(samples: &Vec<i16>) -> (r: Vec<i16>)
    ensures
        r@ == samples@,
{
    let mut out: Vec<i16> = Vec::new();
    let mut i: usize = 0;
    while i < samples.len()
        invariant
            i <= samples@.len(),
            out@ == samples@.take(i as int),
        decreases samples@.len() - i,
    {
        out.push(samples[i]);
        i += 1;
    }
    assert(samples@.take(i as int) =~= samples@);
    out
}

/// A recording in progress.
///
/// Samples arrive from the input device in batches and are kept as 16-bit mono.
/// While the recording is paused, batches are dropped.
#[derive(Debug)]
pub struct AudioRecorder {
    /// The sample rate asked for, and that of the device once one is active.
    pub sample_rate: u32,
    /// What has been recorded.
    pub samples: Vec<i16>,
    /// The number of channels that the device delivers.
    pub device_channels: u16,
    /// Whether the recording is paused.
    pub is_paused: bool,
    /// The input device asked for, or `default`.
    pub device_name: String,
}

/// A recording was stopped before anything was recorded.
#[derive(Debug, Clone, Copy, PartialEq, Eq, Structural)]
pub struct NoSamplesRecorded;

impl NoSamplesRecorded {
    /// What to tell the user.
    pub fn message(&self) -> (r: String)
        ensures
            r@ == "No samples were recorded"@,
    {
        "No samples were recorded".to_string()
    }
}

impl AudioRecorder {
    /// A recorder can take samples: its device has at least one channel.
    pub open spec fn wf(self) -> bool {
        self.device_channels > 0
    }

    /// A recorder for the given device, with nothing recorded.
    pub fn new(requested_sample_rate: u32, device_name: String) -> (r: Self)
        ensures
            r.wf(),
            r.sample_rate == requested_sample_rate,
            r.samples@ == Seq::<i16>::empty(),
            r.device_channels == 1,
            !r.is_paused,
            r.device_name == device_name,
    {
        AudioRecorder {
            sample_rate: requested_sample_rate,
            samples: Vec::new(),
            device_channels: 1,
            is_paused: false,
            device_name,
        }
    }

    /// Whether the system's default input is asked for, rather than a device.
    pub fn uses_default_device(&self) -> (r: bool)
        ensures
            r == (self.device_name@ == "default"@),
    {
        same_text(self.device_name.as_str(), "default")
    }

    /// Takes over the sample rate and the channel count of the device that was opened.
    pub fn activate_device(&mut self, device_sample_rate: u32, num_channels: u16)
        requires
            num_channels > 0,
        ensures
            final(self).wf(),
            final(self).sample_rate == device_sample_rate,
            final(self).device_channels == num_channels,
            final(self).samples == old(self).samples,
            final(self).is_paused == old(self).is_paused,
            final(self).device_name == old(self).device_name,
    {
        self.sample_rate = device_sample_rate;
        self.device_channels = num_channels;
    }

    /// Takes a batch of interleaved samples from the device.
    pub fn receive(&mut self, data: &[i16])
        requires
            old(self).wf(),
        ensures
            final(self).wf(),
            final(self).samples@ == received(
                old(self).samples@,
                old(self).is_paused,
                old(self).device_channels as int,
                data@,
            ),
            final(self).sample_rate == old(self).sample_rate,
            final(self).device_channels == old(self).device_channels,
            final(self).is_paused == old(self).is_paused,
            final(self).device_name == old(self).device_name,
    {
        if !self.is_paused {
            handle_audio_callback(data, &mut self.samples, self.device_channels as usize);
        }
    }

    /// What was recorded, with the rate at which it was recorded. The recorder
    /// keeps its samples.
    pub fn finish_recording(&self) -> (r: RecordedAudio)
        ensures
            r.sample_rate == self.sample_rate,
            r.samples@ == self.samples@,
    {
        RecordedAudio { sample_rate: self.sample_rate, samples: copied(&self.samples) }
    }

    /// What was recorded, to be saved; an error where nothing was.
    pub fn stop_recording(&self) -> (r: Result<RecordedAudio, NoSamplesRecorded>)
        ensures
            r is Err <==> self.samples@.len() == 0,
            r matches Ok(audio) ==> audio.sample_rate == self.sample_rate && audio.samples@
                == self.samples@,
    {
        if self.samples.len() == 0 {
            Err(NoSamplesRecorded)
        } else {
            Ok(self.finish_recording())
        }
    }

    /// A copy of all recorded samples.
    pub fn samples(&self) -> (r: Vec<i16>)
        ensures
            r@ == self.samples@,
    {
        copied(&self.samples)
    }

    /// The number of recorded samples.
    pub fn sample_count(&self) -> (r: usize)
        ensures
            r == self.samples@.len(),
    {
        self.samples.len()
    }

    /// The sample rate of the recording.
    pub fn sample_rate(&self) -> (r: u32)
        ensures
            r == self.sample_rate,
    {
        self.sample_rate
    }

    /// Pauses the recording. Nothing recorded so far is lost.
    pub fn pause(&mut self)
        ensures
            *final(self) == (AudioRecorder { is_paused: true, ..*old(self) }),
    {
        self.is_paused = true;
    }

    /// Resumes the recording.
    pub fn resume(&mut self)
        ensures
            *final(self) == (AudioRecorder { is_paused: false, ..*old(self) }),
    {
        self.is_paused = false;
    }

    /// Whether the recording is paused.
    pub fn is_paused(&self) -> (r: bool)
        ensures
            r == self.is_paused,
    {
        self.is_paused
    }

    /// Pauses the recording, or resumes it where it is paused.
    pub fn toggle_pause(&mut self)
        ensures
            *final(self) == (AudioRecorder { is_paused: !old(self).is_paused, ..*old(self) }),
    {
        self.is_paused = !self.is_paused;
    }

    /// A copy of all recorded samples.
    pub fn get_samples(&self) -> (r: Vec<i16>)
        ensures
            r@ == self.samples@,
    {
        self.samples()
    }

    /// The sample rate of the recording.
    pub fn get_sample_rate(&self) -> (r: u32)
        ensures
            r == self.sample_rate,
    {
        self.sample_rate()
    }
}

/// A finished recording: 16-bit mono samples and their rate.
#[derive(Debug)]
pub struct RecordedAudio {
    pub sample_rate: u32,
    pub samples: Vec<i16>,
}

/// What the log says of a finished recording; of an empty one it says nothing.
pub open spec fn finish_text(sample_rate: nat, count: nat) -> Option<Seq<char>> {
    if count == 0 {
        None
    } else {
        Some(
            "phase=finish-recording-done sample_rate="@ + decimal(sample_rate) + " sample_count="@
                + decimal(count),
        )
    }
}

impl RecordedAudio {
    /// What the log says of the recording; of an empty one it says nothing.
    pub fn finish_log(&self) -> (r: Option<String>)
        ensures
            opt_text(r) == finish_text(self.sample_rate as nat, self.samples@.len()),
    {
        if self.samples.len() == 0 {
            return None;
        }
        let mut out = "phase=finish-recording-done sample_rate=".to_string();
        let rate = decimal_text(self.sample_rate as u128);
        out.append(rate.as_str());
        out.append(" sample_count=");
        let count = decimal_text(self.samples.len() as u128);
        out.append(count.as_str());
        Some(out)
    }
}

/// What is recorded after a series of batches, with the pause state the same
/// throughout.
pub open spec fn received_all(
    samples: Seq<i16>,
    paused: bool,
    channels: int,
    batches: Seq<Seq<i16>>,
) -> Seq<i16>
    decreases batches.len(),
{
    if batches.len() == 0 {
        samples
    } else {
        received(
            received_all(samples, paused, channels, batches.drop_last()),
            paused,
            channels,
            batches.last(),
        )
    }
}

/// What was recorded stays recorded: batches only add samples at the end, and
/// while the recording is paused they add nothing.
pub proof fn law_recording_only_grows(
    samples: Seq<i16>,
    paused: bool,
    channels: int,
    batches: Seq<Seq<i16>>,
)
    ensures
        samples.is_prefix_of(received_all(samples, paused, channels, batches)),
        paused ==> received_all(samples, paused, channels, batches) == samples,
    decreases batches.len(),
{
    if batches.len() > 0 {
        law_recording_only_grows(samples, paused, channels, batches.drop_last());
    }
}

/// The sum of some samples is that of their parts, and one sample is its own sum.
pub proof fn law_sum(a: Seq<i16>, b: Seq<i16>, x: i16)
    ensures
        sum(a + b) == sum(a) + sum(b),
        sum(seq![x]) == x,
    decreases b.len(),
{
    reveal_with_fuel(sum, 2);
    assert(seq![x].drop_last() =~= Seq::<i16>::empty());
    if b.len() == 0 {
        assert(a + b =~= a);
    } else {
        law_sum(a, b.drop_last(), x);
        assert((a + b).drop_last() =~= a + b.drop_last());
        assert((a + b).last() == b.last());
    }
}

/// A mixed sample is the mean of its channels, rounded towards zero: it counts
/// as often as there are channels, short of their sum by less than one each.
pub proof fn law_mono_is_the_mean(frame: Seq<i16>)
    requires
        frame.len() > 0,
    ensures
        sum(frame) >= 0 ==> 0 <= mono_sample(frame) * frame.len() <= sum(frame) < (mono_sample(
            frame,
        ) + 1) * frame.len(),
        sum(frame) <= 0 ==> (mono_sample(frame) - 1) * frame.len() < sum(frame) <= mono_sample(frame)
            * frame.len() <= 0,
{
    let n = frame.len() as int;
    let total = sum(frame);
    lemma_sum_bounds(frame, i16::MIN as int, i16::MAX as int);
    lemma_truncated_div_bounds(total, n, i16::MIN as int, i16::MAX as int);
    let m = truncated_div(total, n);
    assert(mono_sample(frame) == m);
    if total >= 0 {
        assert(0 <= (total / n) * n <= total < (total / n + 1) * n) by (nonlinear_arith)
            requires
                n > 0,
                total >= 0,
        ;
    }
    if total < 0 {
        let less = -total;
        assert(0 <= (less / n) * n <= less < (less / n + 1) * n) by (nonlinear_arith)
            requires
                n > 0,
                less >= 0,
        ;
        assert(m * n == -((less / n) * n) && (m - 1) * n == -((less / n + 1) * n))
            by (nonlinear_arith)
            requires
                m == -(less / n),
        ;
    }
    if total == 0 {
        assert(0int / n == 0) by (nonlinear_arith)
            requires
                n > 0,
        ;
        assert(m == 0);
        assert((0int - 1) * n < 0) by (nonlinear_arith)
            requires
                n > 0,
        ;
    }
}

/// The first sample of some mixed data is that of its first frame, and the rest
/// follow in order. What is no whole frame gives no sample.
pub proof fn law_mono_frames(frame: Seq<i16>, rest: Seq<i16>, channels: int)
    requires
        channels > 0,
        frame.len() == channels,
    ensures
        mono(frame + rest, channels) == seq![mono_sample(frame)] + mono(rest, channels),
        rest.len() < channels ==> mono(rest, channels).len() == 0,
{
    assert(channels % channels == 0 && channels / channels == 1) by (nonlinear_arith)
        requires
            channels > 0,
    ;
    law_mono_batches(frame, rest, channels);
    assert(frame_at(frame, channels, 0) =~= frame);
    assert(mono(frame, channels) =~= seq![mono_sample(frame)]);
    if rest.len() < channels {
        assert(rest.len() as int / channels == 0) by (nonlinear_arith)
            requires
                0 <= rest.len() < channels,
        ;
    }
}

/// A recording that is not paused takes everything: two batches are recorded as
/// the one that they make together.
pub proof fn law_recording_takes_everything(
    samples: Seq<i16>,
    channels: int,
    a: Seq<i16>,
    b: Seq<i16>,
)
    requires
        channels > 0,
        a.len() as int % channels == 0,
    ensures
        received(received(samples, false, channels, a), false, channels, b) == received(
            samples,
            false,
            channels,
            a + b,
        ),
        received(samples, false, channels, a).len() == samples.len() + a.len() as int / channels,
{
    law_mono_batches(a, b, channels);
    vstd::arithmetic::div_mod::lemma_div_pos_is_pos(a.len() as int, channels);
    assert((samples + mono(a, channels)) + mono(b, channels) =~= samples + mono(a + b, channels));
}

/// The end of a recording is logged with its sample rate and length, and only
/// where it has samples.
pub proof fn law_finish_text(sample_rate: nat, count: nat)
    ensures
        finish_text(sample_rate, count) is Some <==> count > 0,
        finish_text(sample_rate, count) matches Some(text) ==> ends_with(
            text,
            decimal(sample_rate) + " sample_count="@ + decimal(count),
        ),
{
    if let Some(text) = finish_text(sample_rate, count) {
        let head = "phase=finish-recording-done sample_rate="@;
        let tail = decimal(sample_rate) + " sample_count="@ + decimal(count);
        assert(text =~= head + tail);
        law_strip(text, tail, head);
    }
}

} // verus!
