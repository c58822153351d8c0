//! How long a recording has run, without the time for which it was paused.
use vstd::prelude::*;

verus! {

/// A moment or a length of time, in nanoseconds. Moments are counted from a
/// fixed point in the past.
pub type Nanos = u128;

/// The clock of a recording.
#[derive(Debug, Clone, Copy, PartialEq, Eq, Structural)]
pub struct RecordingClock {
    /// When the recording began.
    pub start: Nanos,
    /// For how long it was paused, the current pause not counted.
    pub paused: Nanos,
    /// When the current pause began.
    pub pause_start: Option<Nanos>,
    /// When the clock was last paused or resumed, or else began.
    pub changed: Nanos,
}

impl RecordingClock {
    /// The pauses lie between the beginning and the last change, and a pause
    /// that goes on began with it.
    pub open spec fn wf(self) -> bool {
        &&& self.start <= self.changed
        &&& self.paused <= self.changed - self.start
        &&& self.pause_start matches Some(p) ==> p == self.changed
    }

    /// For how long the recording has been paused by now.
    pub open spec fn pause_time(self, now: int) -> int {
        self.paused + match self.pause_start {
            Some(p) => now - p,
            None => 0,
        }
    }

    /// For how long the recording has run by now, without its pauses.
    pub open spec fn duration_at(self, now: int) -> int {
        now - self.start - self.pause_time(now)
    }

    /// The clock after it is paused, or resumed where it is paused.
    pub open spec fn toggled(self, now: Nanos) -> RecordingClock {
        match self.pause_start {
            Some(p) => RecordingClock {
                start: self.start,
                paused: (self.paused + (now - p)) as u128,
                pause_start: None,
                changed: now,
            },
            None => RecordingClock {
                start: self.start,
                paused: self.paused,
                pause_start: Some(now),
                changed: now,
            },
        }
    }

    /// A clock that begins now.
    pub fn new(now: Nanos) -> (r: Self)
        ensures
            r == (RecordingClock { start: now, paused: 0, pause_start: None, changed: now }),
            r.wf(),
    {
        RecordingClock { start: now, paused: 0, pause_start: None, changed: now }
    }

    /// Whether the recording is paused.
    pub fn is_paused(&self) -> (r: bool)
        ensures
            r == (self.pause_start is Some),
    {
        self.pause_start.is_some()
    }

    /// Pauses the clock, or resumes it where it is paused.
    pub fn toggle_pause_state(&mut self, now: Nanos)
        requires
            old(self).wf(),
            now >= old(self).changed,
        ensures
            *final(self) == old(self).toggled(now),
            final(self).wf(),
    {
        match self.pause_start {
            Some(p) => {
                self.paused = self.paused + (now - p);
                self.pause_start = None;
            },
            None => {
                self.pause_start = Some(now);
            },
        }
        self.changed = now;
    }

    /// For how long the recording has run, without its pauses.
    pub fn get_recording_duration(&self, now: Nanos) -> (r: Nanos)
        requires
            self.wf(),
            now >= self.changed,
        ensures
            r == self.duration_at(now as int),
    {
        let total: u128 = now - self.start;
        let pause_time: u128 = match self.pause_start {
            Some(p) => self.paused + (now - p),
            None => self.paused,
        };
        total - pause_time
    }
}

/// While the recording is paused, its duration stands still.
pub proof fn law_duration_stands_still(clock: RecordingClock, now: int, later: int)
    requires
        clock.pause_start is Some,
    ensures
        clock.duration_at(later) == clock.duration_at(now),
{
}

/// While the recording runs, its duration grows with the time.
pub proof fn law_duration_grows(clock: RecordingClock, now: int, later: int)
    requires
        clock.pause_start is None,
    ensures
        clock.duration_at(later) - clock.duration_at(now) == later - now,
{
}

/// A running clock is paused, and a paused one resumed.
pub proof fn law_toggle_flips(clock: RecordingClock, now: Nanos)
    ensures
        clock.toggled(now).pause_start is Some <==> clock.pause_start is None,
{
}

/// Pausing and resuming take no time: the duration at that moment is the same
/// before and after.
pub proof fn law_toggle_keeps_duration(clock: RecordingClock, now: Nanos)
    requires
        clock.wf(),
        now >= clock.changed,
    ensures
        clock.toggled(now).duration_at(now as int) == clock.duration_at(now as int),
        clock.toggled(now).wf(),
{
}

/// A pause leaves no trace but in the time that has gone by: after it, the
/// duration is the one at which it began.
pub proof fn law_pause_is_not_recorded(clock: RecordingClock, from: Nanos, to: Nanos)
    requires
        clock.wf(),
        clock.pause_start is None,
        clock.changed <= from <= to,
    ensures
        clock.toggled(from).toggled(to).pause_start is None,
        clock.toggled(from).toggled(to).duration_at(to as int) == clock.duration_at(from as int),
{
}

/// A recording that was never paused has lasted since it began.
pub proof fn law_duration_from_start(now: Nanos, later: int)
    ensures
        (RecordingClock { start: now, paused: 0, pause_start: None, changed: now }).duration_at(
            later,
        ) == later - now,
{
}

} // verus!
