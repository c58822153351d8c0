//! The volume of what is being recorded, and its peak.
use crate::recording::clock::Nanos;
use vstd::prelude::*;

verus! {

/// The sum of the squares of some samples.
pub open spec fn sum_of_squares(s: Seq<i16>) -> int
    decreases s.len(),
{
    if s.len() == 0 {
        0
    } else {
        sum_of_squares(s.drop_last()) + s.last() * s.last()
    }
}

/// How many of the latest samples are measured: a twentieth of a second, or
/// all of them where there are fewer.
pub open spec fn measured_count(len: nat, sample_rate: nat) -> nat {
    if sample_rate / 20 < len {
        sample_rate / 20
    } else {
        len
    }
}

/// The mean of the squares of the latest samples, rounded down.
pub open spec fn mean_square(samples: Seq<i16>, sample_rate: nat) -> int {
    let n = measured_count(samples.len(), sample_rate) as int;
    sum_of_squares(samples.skip(samples.len() - n)) / n
}

/// The power of the latest samples: the mean of their squares. There is none
/// where there are no samples.
pub fn power(samples: &[i16], sample_rate: u32) -> (r: Option<i64>)
    requires
        samples@.len() > 0 ==> sample_rate >= 20,
    ensures
        match r {
            Some(p) => samples@.len() > 0 && p == mean_square(samples@, sample_rate as nat) && 0
                <= p <= 0x4000_0000,
            None => samples@.len() == 0,
        },
{
    let len: usize = samples.len();
    if len == 0 {
        return None;
    }
    let total: u64 = len as u64;
    let twentieth: u64 = sample_rate as u64 / 20;
    let count: u64 = if twentieth < total {
        twentieth
    } else {
        total
    };
    let from: usize = len - count as usize;
    let ghost recent = samples@.skip(from as int);
    let mut sum: i64 = 0;
    let mut i: usize = from;
    assert(recent.take(0) =~= Seq::<i16>::empty());
    while i < len
        invariant
            from <= i <= len == samples@.len(),
            len - from == count <= 0x1_0000_0000,
            recent == samples@.skip(from as int),
            sum == sum_of_squares(recent.take(i - from)),
            0 <= sum <= 0x4000_0000 * (i - from),
        decreases len - i,
    {
        let x: i64 = samples[i] as i64;
        assert(0 <= x * x <= 0x4000_0000) by (nonlinear_arith)
            requires
                -32768 <= x <= 32767,
        ;
        proof {
            assert(recent.take(i - from + 1).drop_last() =~= recent.take(i - from));
            assert(recent.take(i - from + 1).last() == samples@[i as int]);
        }
        sum = sum + x * x;
        i += 1;
    }
    assert(recent.take(len - from) =~= recent);
    assert(0 <= sum as int / count as int <= 0x4000_0000) by (nonlinear_arith)
        requires
            0 <= sum <= 0x4000_0000 * count,
            count > 0,
    ;
    Some(sum / count as i64)
}

/// A volume, and when it was measured.
#[derive(Debug, Clone, Copy, PartialEq, Eq, Structural)]
pub struct Reading {
    pub at: Nanos,
    pub volume: u8,
}

/// For how long a volume counts for the peak: three seconds.
pub const PEAK_WINDOW: u128 = 3_000_000_000;

/// The readings that are younger than the window.
pub open spec fn recent_readings(readings: Seq<Reading>, now: Nanos) -> Seq<Reading> {
    readings.filter(|r: Reading| now - r.at < PEAK_WINDOW)
}

/// The largest volume of some readings, 0 where there are none.
pub open spec fn loudest(readings: Seq<Reading>) -> u8
    decreases readings.len(),
{
    if readings.len() == 0 {
        0
    } else if readings.last().volume > loudest(readings.drop_last()) {
        readings.last().volume
    } else {
        loudest(readings.drop_last())
    }
}

/// The largest volume is that of a reading, and no reading is louder.
pub proof fn law_loudest(readings: Seq<Reading>)
    ensures
        forall|i: int| 0 <= i < readings.len() ==> (#[trigger] readings[i]).volume <= loudest(
            readings,
        ),
        readings.len() > 0 ==> exists|i: int|
            0 <= i < readings.len() && (#[trigger] readings[i]).volume == loudest(readings),
    decreases readings.len(),
{
    if readings.len() > 0 {
        let init = readings.drop_last();
        law_loudest(init);
        assert forall|i: int| 0 <= i < readings.len() implies (#[trigger] readings[i]).volume
            <= loudest(readings) by {
            if i < init.len() {
                assert(init[i] == readings[i]);
            }
        }
        if readings.last().volume > loudest(init) || init.len() == 0 {
            assert(readings[readings.len() - 1].volume == loudest(readings));
        } else {
            let i = choose|i: int|
                0 <= i < init.len() && (#[trigger] init[i]).volume == loudest(init);
            assert(readings[i] == init[i]);
        }
    }
}

/// The volume meter: the latest volume, and those of the last three seconds.
#[derive(Debug)]
pub struct VolumeMeter {
    pub last: u8,
    pub readings: Vec<Reading>,
}

impl VolumeMeter {
    /// The peak: the largest volume of the last three seconds before the
    /// latest reading.
    pub open spec fn peak_model(self) -> u8 {
        loudest(self.readings@)
    }

    /// A meter that has measured nothing.
    pub fn new() -> (r: Self)
        ensures
            r.last == 0,
            r.readings@ == Seq::<Reading>::empty(),
    {
        VolumeMeter { last: 0, readings: Vec::new() }
    }

    /// The largest volume of the last three seconds before the latest reading.
    pub fn peak(&self) -> (r: u8)
        ensures
            r == self.peak_model(),
    {
        let mut best: u8 = 0;
        let mut i: usize = 0;
        while i < self.readings.len()
            invariant
                i <= self.readings@.len(),
                best == loudest(self.readings@.take(i as int)),
            decreases self.readings@.len() - i,
        {
            assert(self.readings@.take(i + 1).drop_last() =~= self.readings@.take(i as int));
            if self.readings[i].volume > best {
                best = self.readings[i].volume;
            }
            i += 1;
        }
        assert(self.readings@.take(i as int) =~= self.readings@);
        best
    }

    /// Takes a volume, and forgets those that are too old to count.
    pub fn record(&mut self, volume: u8, now: Nanos)
        ensures
            final(self).last == volume,
            final(self).readings@ == recent_readings(old(self).readings@, now).push(
                Reading { at: now, volume },
            ),
    {
        let mut kept: Vec<Reading> = Vec::new();
        let ghost pred = |r: Reading| now - r.at < PEAK_WINDOW;
        let ghost all = self.readings@;
        let mut i: usize = 0;
        proof {
            reveal(Seq::filter);
            assert(kept@ =~= all.take(0).filter(pred));
        }
        while i < self.readings.len()
            invariant
                all == self.readings@,
                i <= all.len(),
                pred == (|r: Reading| now - r.at < PEAK_WINDOW),
                kept@ == all.take(i as int).filter(pred),
            decreases all.len() - i,
        {
            let r = self.readings[i];
            proof {
                reveal(Seq::filter);
                assert(all.take(i + 1).drop_last() =~= all.take(i as int));
            }
            if now < r.at || now - r.at < PEAK_WINDOW {
                kept.push(r);
            }
            i += 1;
        }
        assert(all.take(i as int) =~= all);
        kept.push(Reading { at: now, volume });
        self.readings = kept;
        self.last = volume;
    }
}

/// The peak is at least the latest volume.
pub proof fn law_peak_covers_latest(readings: Seq<Reading>, volume: u8, now: Nanos)
    ensures
        volume <= loudest(recent_readings(readings, now).push(Reading { at: now, volume })),
{
    let all = recent_readings(readings, now).push(Reading { at: now, volume });
    law_loudest(all);
    assert(all[all.len() - 1].volume == volume);
}

/// A volume that is younger than three seconds still counts for the peak.
pub proof fn law_peak_holds(readings: Seq<Reading>, i: int, volume: u8, now: Nanos)
    requires
        0 <= i < readings.len(),
        now - readings[i].at < PEAK_WINDOW,
    ensures
        readings[i].volume <= loudest(
            recent_readings(readings, now).push(Reading { at: now, volume }),
        ),
{
    let pred = |r: Reading| now - r.at < PEAK_WINDOW;
    let kept = recent_readings(readings, now);
    let all = kept.push(Reading { at: now, volume });
    readings.lemma_filter_contains(pred, i);
    let k = choose|k: int| 0 <= k < kept.len() && kept[k] == readings[i];
    law_loudest(all);
    assert(all[k] == kept[k]);
}

/// The sum of squares of some samples is that of their parts, and the square of
/// a sample is its own.
pub proof fn law_sum_of_squares(a: Seq<i16>, b: Seq<i16>, x: i16)
    ensures
        sum_of_squares(a + b) == sum_of_squares(a) + sum_of_squares(b),
        sum_of_squares(seq![x]) == x * x,
    decreases b.len(),
{
    reveal_with_fuel(sum_of_squares, 2);
    assert(seq![x].drop_last() =~= Seq::<i16>::empty());
    if b.len() == 0 {
        assert(a + b =~= a);
    } else {
        law_sum_of_squares(a, b.drop_last(), x);
        assert((a + b).drop_last() =~= a + b.drop_last());
        assert((a + b).last() == b.last());
    }
}

/// Only the last twentieth of a second is measured: what was recorded before it
/// does not change the power.
pub proof fn law_only_the_latest_count(older: Seq<i16>, latest: Seq<i16>, sample_rate: nat)
    requires
        latest.len() == sample_rate / 20,
        latest.len() > 0,
    ensures
        mean_square(older + latest, sample_rate) == mean_square(latest, sample_rate),
        mean_square(latest, sample_rate) * latest.len() <= sum_of_squares(latest),
        sum_of_squares(latest) < (mean_square(latest, sample_rate) + 1) * latest.len(),
{
    let n = latest.len() as int;
    let all = older + latest;
    assert(measured_count(all.len(), sample_rate) == n);
    assert(all.skip(all.len() - n) =~= latest);
    assert(latest.skip(0) =~= latest);
    let total = sum_of_squares(latest);
    assert((total / n) * n <= total < (total / n + 1) * n) by (nonlinear_arith)
        requires
            n > 0,
    ;
}

/// Where less than a twentieth of a second was recorded, all of it is measured.
pub proof fn law_a_short_recording_counts_whole(samples: Seq<i16>, sample_rate: nat)
    requires
        0 < samples.len() <= sample_rate / 20,
    ensures
        mean_square(samples, sample_rate) * samples.len() <= sum_of_squares(samples),
        sum_of_squares(samples) < (mean_square(samples, sample_rate) + 1) * samples.len(),
{
    let n = samples.len() as int;
    assert(samples.skip(0) =~= samples);
    let total = sum_of_squares(samples);
    assert((total / n) * n <= total < (total / n + 1) * n) by (nonlinear_arith)
        requires
            n > 0,
    ;
}

/// The peak is the new reading or one of the last three seconds: an older one
/// is forgotten.
pub proof fn law_peak_is_recent(readings: Seq<Reading>, volume: u8, now: Nanos)
    ensures
        ({
            let peak = loudest(recent_readings(readings, now).push(Reading { at: now, volume }));
            peak == volume || exists|i: int|
                0 <= i < readings.len() && (#[trigger] readings[i]).volume == peak && now
                    - readings[i].at < 3_000_000_000
        }),
{
    let pred = |r: Reading| now - r.at < PEAK_WINDOW;
    let recent = recent_readings(readings, now);
    let all = recent.push(Reading { at: now, volume });
    law_loudest(all);
    let k = choose|k: int| 0 <= k < all.len() && (#[trigger] all[k]).volume == loudest(all);
    if k < recent.len() {
        readings.lemma_filter_contains_rev(pred, recent[k]);
        assert(recent.contains(recent[k]));
        let i = choose|i: int| 0 <= i < readings.len() && readings[i] == recent[k];
        assert(readings[i].volume == loudest(all));
        readings.lemma_filter_pred(pred, k);
    }
}

/// Every reading of the last three seconds, and no other, is kept.
pub proof fn law_readings_are_kept(readings: Seq<Reading>, reading: Reading, now: Nanos)
    ensures
        recent_readings(readings, now).contains(reading) <==> (readings.contains(reading) && now
            < reading.at + 3_000_000_000),
{
    let pred = |r: Reading| now - r.at < PEAK_WINDOW;
    let recent = recent_readings(readings, now);
    if recent.contains(reading) {
        let k = choose|k: int| 0 <= k < recent.len() && recent[k] == reading;
        readings.lemma_filter_pred(pred, k);
        readings.lemma_filter_contains_rev(pred, reading);
    }
    if readings.contains(reading) && pred(reading) {
        let i = choose|i: int| 0 <= i < readings.len() && readings[i] == reading;
        readings.lemma_filter_contains(pred, i);
    }
}

} // verus!
