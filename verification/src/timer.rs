//! Wall-clock bookkeeping for the frame loop.
//!
//! Times are whole nanoseconds. The timer adds up the length of every poll
//! cycle and counts the cycles; whenever the sum reaches one second it reports
//! both and keeps the part beyond the second for the next report.

use std::time::{Duration, Instant};
use vstd::prelude::*;

verus! {

/// The reporting cadence: one second, in nanoseconds.
pub const NANOS_PER_SECOND: u64 = 1_000_000_000;

/// `std::time::Instant`, a reading of the monotonic clock. The value is
/// carried through unread.
#[verifier::external_type_specification]
#[verifier::external_body]
pub struct ExInstant(std::time::Instant);

/// `Instant::now` reads the monotonic clock. Nothing is claimed of the
/// reading.
pub assume_specification[ Instant::now ]() -> (now: Instant);

/// `Instant::elapsed` measures the time since the instant was taken. Nothing
/// is claimed of the measurement.
pub assume_specification[ Instant::elapsed ](start: &Instant) -> (elapsed: Duration);

/// `Duration::as_nanos` gives the whole duration in nanoseconds. Nothing is
/// claimed of the number.
pub assume_specification[ Duration::as_nanos ](duration: &Duration) -> (nanos: u128);

/// What a timer has counted, without the clock reading it holds.
pub struct TimerView {
    /// Cycles since the last report.
    pub cycle_count: nat,
    /// Length of the latest cycle.
    pub cycle_delta: nat,
    /// Time since the last report, plus what the last report left over.
    pub accumulated: nat,
}

/// The sum of the two numbers, held at `u64::MAX`.
pub open spec fn saturating_sum(a: nat, b: nat) -> nat {
    if a + b > u64::MAX {
        u64::MAX as nat
    } else {
        a + b
    }
}

/// The sum of a sequence of cycle lengths.
pub open spec fn total(elapsed: Seq<u64>) -> nat
    decreases elapsed.len(),
{
    if elapsed.len() == 0 {
        0
    } else {
        total(elapsed.drop_last()) + elapsed.last() as nat
    }
}

impl TimerView {
    /// The accumulated time once a cycle of the given length is added.
    pub open spec fn accumulated_with(self, elapsed: nat) -> nat {
        saturating_sum(self.accumulated, elapsed)
    }

    /// The cycle count once one more cycle is counted.
    pub open spec fn cycles_with_one_more(self) -> nat {
        saturating_sum(self.cycle_count, 1)
    }

    /// Whether a cycle of the given length reaches the second boundary.
    pub open spec fn crosses_second(self, elapsed: nat) -> bool {
        self.accumulated_with(elapsed) >= NANOS_PER_SECOND
    }

    /// What a cycle of the given length reports: on a second boundary the
    /// accumulated time and the number of cycles that made it up.
    pub open spec fn report(self, elapsed: nat) -> Option<(u64, u64)> {
        if self.crosses_second(elapsed) {
            Some((self.accumulated_with(elapsed) as u64, self.cycles_with_one_more() as u64))
        } else {
            None
        }
    }

    /// The counters after a cycle of the given length. On a second boundary
    /// exactly one second leaves the accumulated time and the cycle count
    /// starts over.
    pub open spec fn advance(self, elapsed: nat) -> TimerView {
        if self.crosses_second(elapsed) {
            TimerView {
                cycle_count: 0,
                cycle_delta: elapsed,
                accumulated: (self.accumulated_with(elapsed) - NANOS_PER_SECOND) as nat,
            }
        } else {
            TimerView {
                cycle_count: self.cycles_with_one_more(),
                cycle_delta: elapsed,
                accumulated: self.accumulated_with(elapsed),
            }
        }
    }

    /// The counters after a run of cycles, oldest first.
    pub open spec fn run(self, elapsed: Seq<u64>) -> TimerView
        decreases elapsed.len(),
    {
        if elapsed.len() == 0 {
            self
        } else {
            self.run(elapsed.drop_last()).advance(elapsed.last() as nat)
        }
    }
}

/// Measures poll cycles against the wall clock and reports once per second.
pub struct Timer {
    last_time: Instant,
    current_cycle_count: u64,
    cycle_delta_time: u64,
    current_delta_time: u64,
}

impl View for Timer {
    type V = TimerView;

    closed spec fn view(&self) -> TimerView {
        TimerView {
            cycle_count: self.current_cycle_count as nat,
            cycle_delta: self.cycle_delta_time as nat,
            accumulated: self.current_delta_time as nat,
        }
    }
}

/// A number of nanoseconds, held at `u64::MAX`.
pub open spec fn held_in_u64(nanos: u128) -> u64 {
    if nanos > u64::MAX {
        u64::MAX
    } else {
        nanos as u64
    }
}

/// A duration in whole nanoseconds: what `Duration::as_nanos` gives for it,
/// held at `u64::MAX` where that is more.
fn nanos_of(duration: &Duration) -> (held: u64)
    ensures
        exists|nanos: u128| #[trigger]
            call_ensures(Duration::as_nanos, (duration,), nanos) && held == held_in_u64(nanos),
{
    let nanos: u128 = duration.as_nanos();
    if nanos > 0xffff_ffff_ffff_ffffu128 {
        u64::MAX
    } else {
        nanos as u64
    }
}

impl Timer {
    /// The clock reading from which the running cycle is measured.
    pub closed spec fn cycle_start(&self) -> Instant {
        self.last_time
    }

    /// A timer that has counted nothing and starts measuring now: the
    /// running cycle is measured from a reading of the clock taken here.
    pub fn new() -> (timer: Self)
        ensures
            timer@ == (TimerView { cycle_count: 0, cycle_delta: 0, accumulated: 0 }),
            call_ensures(Instant::now, (), timer.cycle_start()),
    {
        Timer {
            last_time: Instant::now(),
            current_cycle_count: 0,
            cycle_delta_time: 0,
            current_delta_time: 0,
        }
    }

    /// Reads the clock: hands back the time since the clock was last read
    /// here, in nanoseconds and held at `u64::MAX`, and measures from now on.
    /// Nothing is counted.
    pub fn measure(&mut self) -> (elapsed: u64)
        ensures
            final(self)@ == old(self)@,
            call_ensures(Instant::now, (), final(self).cycle_start()),
            exists|since: Duration, nanos: u128|
                {
                    &&& call_ensures(Instant::elapsed, (&old(self).cycle_start(),), since)
                    &&& #[trigger] call_ensures(Duration::as_nanos, (&since,), nanos)
                    &&& elapsed == held_in_u64(nanos)
                },
    {
        let since = self.last_time.elapsed();
        self.last_time = Instant::now();
        nanos_of(&since)
    }

    /// Ends the running cycle: reads the clock as [`Timer::measure`] does and
    /// accounts for what it measured as [`Timer::advance`] does. Whatever the
    /// clock says, the counters move as for some cycle length.
    pub fn tick(&mut self) -> (report: Option<(u64, u64)>)
        ensures
            exists|elapsed: u64|
                {
                    &&& final(self)@ == #[trigger] old(self)@.advance(elapsed as nat)
                    &&& report == old(self)@.report(elapsed as nat)
                },
            exists|clock: &mut Self, elapsed: u64|
                {
                    &&& *clock == *old(self)
                    &&& #[trigger] call_ensures(Timer::measure, (clock,), elapsed)
                    &&& final(self).cycle_start() == final(clock).cycle_start()
                    &&& final(self)@ == old(self)@.advance(elapsed as nat)
                    &&& report == old(self)@.report(elapsed as nat)
                },
    {
        let nanos: u64 = self.measure();
        let report = self.advance(nanos);
        assert(self@ == old(self)@.advance(nanos as nat));
        report
    }

    /// Accounts for a cycle that took `elapsed` nanoseconds. The cycle's length
    /// is added to the accumulated time and the cycle is counted, both held at
    /// `u64::MAX`. When the accumulated time has reached one second, the
    /// accumulated time and the cycle count are reported, exactly one second
    /// is taken off the accumulated time and the count starts over.
    pub fn advance(&mut self, elapsed: u64) -> (report: Option<(u64, u64)>)
        ensures
            final(self).cycle_start() == old(self).cycle_start(),
            final(self)@ == old(self)@.advance(elapsed as nat),
            report == old(self)@.report(elapsed as nat),
    {
        self.cycle_delta_time = elapsed;
        self.current_delta_time = self.current_delta_time.saturating_add(elapsed);
        self.current_cycle_count = self.current_cycle_count.saturating_add(1);
        if self.current_delta_time >= NANOS_PER_SECOND {
            let report = Some((self.current_delta_time, self.current_cycle_count));
            self.current_cycle_count = 0;
            self.current_delta_time = self.current_delta_time - NANOS_PER_SECOND;
            return report;
        }
        None
    }

    /// Cycles counted since the last report.
    pub fn current_cycle_count(&self) -> (count: u64)
        ensures
            count == self@.cycle_count,
    {
        self.current_cycle_count
    }

    /// Length of the latest cycle, in nanoseconds.
    pub fn cycle_delta_time(&self) -> (nanos: u64)
        ensures
            nanos == self@.cycle_delta,
    {
        self.cycle_delta_time
    }

    /// Time accumulated since the last report, in nanoseconds.
    pub fn current_delta_time(&self) -> (nanos: u64)
        ensures
            nanos == self@.accumulated,
    {
        self.current_delta_time
    }
}

/// As long as the accumulated time stays below one second, a run of cycles
/// only adds up: no cycle of it reports, and the accumulated time is the
/// start value plus the lengths of all cycles.
pub proof fn lemma_no_report_below_second(start: TimerView, elapsed: Seq<u64>)
    requires
        start.accumulated + total(elapsed) < NANOS_PER_SECOND,
    ensures
        start.run(elapsed).accumulated == start.accumulated + total(elapsed),
        forall|k: int|
            0 <= k < elapsed.len() ==> #[trigger] start.run(elapsed.take(k)).report(
                elapsed[k] as nat,
            ) is None,
    decreases elapsed.len(),
{
    if elapsed.len() > 0 {
        let front = elapsed.drop_last();
        lemma_no_report_below_second(start, front);
        assert forall|k: int| 0 <= k < elapsed.len() implies #[trigger] start.run(
            elapsed.take(k),
        ).report(elapsed[k] as nat) is None by {
            if k < front.len() {
                assert(front.take(k) =~= elapsed.take(k));
                assert(start.run(front.take(k)).report(front[k] as nat) is None);
            } else {
                assert(elapsed.take(k) =~= front);
            }
        }
    }
}

/// The report on the second boundary. Take a timer whose accumulated time is
/// below one second and a run of cycles that reaches one second with its last
/// cycle, the sum staying within `u64`. Then no cycle before the last reports,
/// the last one reports the whole sum, which is at least one second, and the
/// accumulated time afterwards is the sum less one second. That remainder is
/// below one second whenever the sum is below two.
pub proof fn lemma_report_on_second_boundary(start: TimerView, elapsed: Seq<u64>)
    requires
        elapsed.len() > 0,
        start.accumulated + total(elapsed.drop_last()) < NANOS_PER_SECOND,
        start.accumulated + total(elapsed) >= NANOS_PER_SECOND,
        start.accumulated + total(elapsed) <= u64::MAX,
    ensures
        forall|k: int|
            0 <= k < elapsed.len() - 1 ==> #[trigger] start.run(elapsed.take(k)).report(
                elapsed[k] as nat,
            ) is None,
        start.run(elapsed.drop_last()).report(elapsed.last() as nat) matches Some(reported)
            && reported.0 == start.accumulated + total(elapsed) && reported.0 >= NANOS_PER_SECOND,
        start.run(elapsed).accumulated == start.accumulated + total(elapsed) - NANOS_PER_SECOND,
        start.run(elapsed).cycle_count == 0,
        start.accumulated + total(elapsed) < 2 * NANOS_PER_SECOND ==> start.run(
            elapsed,
        ).accumulated < NANOS_PER_SECOND,
{
    let front = elapsed.drop_last();
    lemma_no_report_below_second(start, front);
    assert forall|k: int| 0 <= k < elapsed.len() - 1 implies #[trigger] start.run(
        elapsed.take(k),
    ).report(elapsed[k] as nat) is None by {
        assert(front.take(k) =~= elapsed.take(k));
        assert(start.run(front.take(k)).report(front[k] as nat) is None);
    }
}

impl Default for Timer {
    fn default() -> (timer: Self)
        ensures
            timer@ == (TimerView { cycle_count: 0, cycle_delta: 0, accumulated: 0 }),
            call_ensures(Instant::now, (), timer.cycle_start()),
    {
        Self::new()
    }
}

} // verus!
