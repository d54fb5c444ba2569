//! Measures for code that runs again and again: the time between events and
//! the time that a piece of work takes, averaged over the last few rounds.
//!
//! Times are nanoseconds of a clock that never runs backwards.

use vstd::prelude::*;

verus! {

/// The duration that a segment assumes for rounds that it has not seen yet: one second.
pub const UNSEEN_DURATION: u64 = 1000000000;

/// What a stopwatch holds.
pub struct StopwatchView {
    /// The times of the last events, as many as are averaged over.
    pub times: Seq<u64>,
    /// The place that the time of the next event is written to.
    pub offset: int,
    /// How many events were counted.
    pub ticks: u64,
}

impl StopwatchView {
    /// The place of the time that was written last.
    pub open spec fn previous_offset(self) -> int {
        if self.offset == 0 {
            self.times.len() - 1
        } else {
            self.offset - 1
        }
    }

    /// The stopwatch after an event at the time `now`.
    pub open spec fn ticked(self, now: u64) -> StopwatchView {
        StopwatchView {
            times: self.times.update(self.offset, now),
            offset: if self.offset + 1 >= self.times.len() {
                0
            } else {
                self.offset + 1
            },
            ticks: (self.ticks + 1) as u64,
        }
    }

    /// The time between the event at `now` and the event before it. An
    /// earlier time that lies after `now` counts as no time at all.
    pub open spec fn elapsed(self, now: u64) -> u64 {
        let previous = self.times.update(self.offset, now)[self.previous_offset()];
        if now >= previous {
            (now - previous) as u64
        } else {
            0
        }
    }

    /// The average time between the events that the stopwatch remembers:
    /// the time from the oldest to the newest of them, over their number.
    pub open spec fn average(self) -> u64 {
        let newest = self.times[self.previous_offset()];
        let oldest = self.times[self.offset];
        if newest >= oldest {
            ((newest - oldest) / (self.times.len() as int)) as u64
        } else {
            0
        }
    }
}

/// Counts the time between successive events and averages it over the last
/// `n` events, where `n` is chosen when the stopwatch is made.
pub struct InterpolatedStopwatch {
    times: Vec<u64>,
    offset: usize,
    ticks: u64,
}

impl View for InterpolatedStopwatch {
    type V = StopwatchView;

    closed spec fn view(&self) -> StopwatchView {
        StopwatchView { times: self.times@, offset: self.offset as int, ticks: self.ticks }
    }
}

impl InterpolatedStopwatch {
    #[verifier::type_invariant]
    spec fn well_formed(self) -> bool {
        self.offset < self.times@.len() || (self.offset == 0 && self.times@.len() == 0)
    }

    /// A stopwatch that averages over `interpolation_amount` events, made at
    /// the time `now`.
    pub fn new(interpolation_amount: usize, now: u64) -> (stopwatch: InterpolatedStopwatch)
        ensures
            stopwatch@.times == Seq::new(interpolation_amount as nat, |i: int| now),
            stopwatch@.offset == 0,
            stopwatch@.ticks == 0,
    {
        let mut times: Vec<u64> = Vec::new();
        let mut i: usize = 0;
        while i < interpolation_amount
            invariant
                i <= interpolation_amount,
                times@ == Seq::new(i as nat, |k: int| now),
            decreases interpolation_amount - i,
        {
            times.push(now);
            assert(times@ =~= Seq::new((i + 1) as nat, |k: int| now));
            i += 1;
        }
        InterpolatedStopwatch { times, offset: 0, ticks: 0 }
    }

    /// How many events were counted.
    pub fn ticks(&self) -> (ticks: u64)
        ensures
            ticks == self@.ticks,
    {
        self.ticks
    }

    /// How many events the stopwatch averages over.
    pub fn interpolation_amount(&self) -> (amount: usize)
        ensures
            amount == self@.times.len(),
            0 <= self@.offset,
            self@.offset < amount || (self@.offset == 0 && amount == 0),
    {
        proof {
            use_type_invariant(self);
        }
        self.times.len()
    }

    /// Counts an event at the time `now` and returns the time since the
    /// event before it.
    pub fn tick(&mut self, now: u64) -> (elapsed: u64)
        requires
            old(self)@.times.len() > 0,
            old(self)@.ticks < u64::MAX,
        ensures
            final(self)@ == old(self)@.ticked(now),
            elapsed == old(self)@.elapsed(now),
    {
        proof {
            use_type_invariant(&*self);
        }
        let prev_offset = if self.offset == 0 {
            self.times.len() - 1
        } else {
            self.offset - 1
        };
        let offset = self.offset;
        let len = self.times.len();
        let next = if offset + 1 >= len {
            0
        } else {
            offset + 1
        };
        self.times[offset] = now;
        let old_time = self.times[prev_offset];
        let elapsed = if now >= old_time {
            now - old_time
        } else {
            0
        };
        self.offset = next;
        self.ticks = self.ticks + 1;
        elapsed
    }

    /// The average time between the events that the stopwatch remembers.
    pub fn average_time(&self) -> (average: u64)
        requires
            self@.times.len() > 0,
        ensures
            average == self@.average(),
    {
        proof {
            use_type_invariant(self);
        }
        let prev_offset = if self.offset == 0 {
            self.times.len() - 1
        } else {
            self.offset - 1
        };
        let newest = self.times[prev_offset];
        let oldest = self.times[self.offset];
        if newest >= oldest {
            (newest - oldest) / (self.times.len() as u64)
        } else {
            0
        }
    }
}

/// The sum of `durations`.
pub open spec fn total(durations: Seq<u64>) -> int
    decreases durations.len(),
{
    if durations.len() == 0 {
        0
    } else {
        total(durations.drop_last()) + durations.last()
    }
}

/// What a profile segment holds.
pub struct SegmentView {
    /// The durations of the last rounds, as many as are averaged over.
    pub durations: Seq<u64>,
    /// The place that the duration of the next round is written to.
    pub offset: int,
    /// How many rounds were counted.
    pub ticks: u64,
}

impl SegmentView {
    /// The segment after a round that took `duration`.
    pub open spec fn ticked(self, duration: u64) -> SegmentView {
        SegmentView {
            durations: self.durations.update(self.offset, duration),
            offset: if self.offset + 1 >= self.durations.len() {
                0
            } else {
                self.offset + 1
            },
            ticks: (self.ticks + 1) as u64,
        }
    }

    /// The average of the durations that the segment remembers.
    pub open spec fn average(self) -> int {
        total(self.durations) / (self.durations.len() as int)
    }
}

/// The time that a piece of work takes, averaged over the last `n` rounds,
/// where `n` is chosen when the segment is made.
pub struct ProfileSegment {
    durations: Vec<u64>,
    offset: usize,
    ticks: u64,
}

impl View for ProfileSegment {
    type V = SegmentView;

    closed spec fn view(&self) -> SegmentView {
        SegmentView { durations: self.durations@, offset: self.offset as int, ticks: self.ticks }
    }
}

proof fn lemma_total_bound(durations: Seq<u64>)
    ensures
        0 <= total(durations) <= durations.len() * u64::MAX,
    decreases durations.len(),
{
    if durations.len() > 0 {
        lemma_total_bound(durations.drop_last());
        assert((durations.len() - 1) * u64::MAX + u64::MAX == durations.len() * u64::MAX)
            by (nonlinear_arith);
    }
}

impl ProfileSegment {
    #[verifier::type_invariant]
    spec fn well_formed(self) -> bool {
        self.offset < self.durations@.len() || (self.offset == 0 && self.durations@.len() == 0)
    }

    /// A segment that averages over `interpolation_amount` rounds. Rounds
    /// that it has not seen yet count as one second each.
    pub fn new(interpolation_amount: usize) -> (segment: ProfileSegment)
        ensures
            segment@.durations == Seq::new(interpolation_amount as nat, |i: int| UNSEEN_DURATION),
            segment@.offset == 0,
            segment@.ticks == 0,
    {
        let mut durations: Vec<u64> = Vec::new();
        let mut i: usize = 0;
        while i < interpolation_amount
            invariant
                i <= interpolation_amount,
                durations@ == Seq::new(i as nat, |k: int| UNSEEN_DURATION),
            decreases interpolation_amount - i,
        {
            durations.push(UNSEEN_DURATION);
            assert(durations@ =~= Seq::new((i + 1) as nat, |k: int| UNSEEN_DURATION));
            i += 1;
        }
        ProfileSegment { durations, offset: 0, ticks: 0 }
    }

    /// How many rounds were counted.
    pub fn ticks(&self) -> (ticks: u64)
        ensures
            ticks == self@.ticks,
    {
        self.ticks
    }

    /// How many rounds the segment averages over.
    pub fn interpolation_amount(&self) -> (amount: usize)
        ensures
            amount == self@.durations.len(),
            0 <= self@.offset,
            self@.offset < amount || (self@.offset == 0 && amount == 0),
    {
        proof {
            use_type_invariant(self);
        }
        self.durations.len()
    }

    /// Counts a round that took `duration`.
    pub fn tick(&mut self, duration: u64)
        requires
            old(self)@.durations.len() > 0,
            old(self)@.ticks < u64::MAX,
        ensures
            final(self)@ == old(self)@.ticked(duration),
    {
        proof {
            use_type_invariant(&*self);
        }
        let offset = self.offset;
        let len = self.durations.len();
        let next = if offset + 1 >= len {
            0
        } else {
            offset + 1
        };
        self.durations[offset] = duration;
        self.offset = next;
        self.ticks = self.ticks + 1;
    }

    /// The average of the durations that the segment remembers.
    pub fn average_time(&self) -> (average: u64)
        requires
            self@.durations.len() > 0,
        ensures
            average == self@.average(),
    {
        let mut sum: u128 = 0;
        let mut i: usize = 0;
        proof {
            assert(self.durations@.take(0) =~= Seq::<u64>::empty());
        }
        while i < self.durations.len()
            invariant
                i <= self.durations.len(),
                sum == total(self.durations@.take(i as int)),
                sum <= i * u64::MAX,
            decreases self.durations.len() - i,
        {
            proof {
                assert(self.durations@.take(i as int + 1).drop_last() =~= self.durations@.take(
                    i as int,
                ));
                assert(i * u64::MAX + u64::MAX == (i + 1) * u64::MAX) by (nonlinear_arith);
                assert(i * u64::MAX <= usize::MAX * u64::MAX) by (nonlinear_arith)
                    requires
                        i <= usize::MAX,
                ;
            }
            sum = sum + self.durations[i] as u128;
            i += 1;
        }
        proof {
            assert(self.durations@.take(i as int) =~= self.durations@);
            let n = self.durations@.len() as int;
            let s = sum as int;
            assert(s / n <= u64::MAX) by (nonlinear_arith)
                requires
                    0 <= s <= n * u64::MAX,
                    n > 0,
            ;
        }
        (sum / (self.durations.len() as u128)) as u64
    }
}

/// Profiles work that is done in rounds: the time that the work takes, and
/// the time from one round to the next.
pub struct CycleProfiler {
    /// The time that a round of the work takes.
    pub main_segment: ProfileSegment,
    /// The time from the start of one round to the start of the next.
    pub stopwatch: InterpolatedStopwatch,
}

impl CycleProfiler {
    /// A profiler that averages over `interpolation_amount` rounds, made at
    /// the time `now`.
    pub fn new(interpolation_amount: usize, now: u64) -> (profiler: CycleProfiler)
        ensures
            profiler.main_segment@.durations == Seq::new(
                interpolation_amount as nat,
                |i: int| UNSEEN_DURATION,
            ),
            profiler.main_segment@.offset == 0,
            profiler.main_segment@.ticks == 0,
            profiler.stopwatch@.times == Seq::new(interpolation_amount as nat, |i: int| now),
            profiler.stopwatch@.offset == 0,
            profiler.stopwatch@.ticks == 0,
    {
        CycleProfiler {
            main_segment: ProfileSegment::new(interpolation_amount),
            stopwatch: InterpolatedStopwatch::new(interpolation_amount, now),
        }
    }

    /// Whether the profiler has seen as many rounds as it averages over.
    pub fn has_enough_data(&self) -> (enough: bool)
        ensures
            enough == (self.main_segment@.ticks >= self.main_segment@.durations.len()),
    {
        self.main_segment.ticks() as u128 >= self.main_segment.interpolation_amount() as u128
    }
}

} // verus!
