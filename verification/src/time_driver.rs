//! A 1 kHz timebase on the TMR0 timer.
//!
//! TMR0 counts the 24 MHz reference oscillator divided by [`PRESCALE`], as a free-running 16-bit
//! counter. A compare interrupt is armed for every [`PERIOD`] counts, 1000 times per second. The
//! time is derived from the live counter, so that it stays right when the interrupt is late: the
//! whole periods since the last boundary are recovered from the distance of the counter, as long
//! as it is less than one full turn, and the boundary moves by whole periods only, so that what
//! is left over counts for the next tick.
use crate::port::{Op, Register, INT_NUM_TMR};
use vstd::multiset::Multiset;
use vstd::prelude::*;

verus! {

/// Reference oscillator frequency in Hz.
pub const REF_OSC_HZ: u32 = 24_000_000;
/// Tick rate of the timebase in Hz.
pub const TICK_HZ: u32 = 1_000;
/// Input prescaler of the timer.
pub const PRESCALE: u32 = 64;
/// Counts per tick.
pub const PERIOD: u16 = 375;
/// `CTRL`: count rising edges of the prescaled source, free-running.
pub const CTRL_FREE_RUNNING: u32 = 0x3C00;
/// `CSCTRL`: compare interrupt enabled, flag clear.
pub const CSCTRL_COMPARE: u32 = 0x0040;
/// How many timers the queue holds.
pub const QUEUE_SIZE: usize = 64;

/// `core::task::Waker`.
#[verifier::external_type_specification]
#[verifier::external_body]
pub struct ExWaker(core::task::Waker);

/// `embassy_time_queue_utils::Queue`.
#[verifier::external_type_specification]
#[verifier::external_body]
pub struct ExQueue(embassy_time_queue_utils::Queue);

/// The expiry times of the timers in a queue.
pub uninterp spec fn queued(queue: embassy_time_queue_utils::Queue) -> Multiset<u64>;

/// `embassy_time_queue_utils::Queue::new`: a queue without timers.
#[verifier::external_body]
fn new_queue() -> (queue: embassy_time_queue_utils::Queue)
    ensures
        queued(queue) == Multiset::<u64>::empty(),
{
    embassy_time_queue_utils::Queue::new()
}

/// What scheduling a timer does to a queue, and whether it changed anything: a task that already
/// has a timer keeps the earlier time; for another task a timer is added, in the place of one
/// that is woken at once where the queue is full.
pub open spec fn is_scheduled(
    before: Multiset<u64>,
    at: u64,
    after: Multiset<u64>,
    changed: bool,
) -> bool {
    if changed {
        ||| before.len() < QUEUE_SIZE && after == before.insert(at)
        ||| exists|other: u64|
            #![trigger before.count(other)]
            before.count(other) > 0 && (other > at || before.len() >= QUEUE_SIZE) && after
                == before.remove(other).insert(at)
    } else {
        &&& after == before
        &&& exists|own: u64| #![trigger before.count(own)] before.count(own) > 0 && own <= at
    }
}

/// `embassy_time_queue_utils::Queue::schedule_wake`, with room for 64 timers: see
/// [`is_scheduled`]. Which tasks are the same is for their wakers to say, and nothing is said of
/// it.
#[verifier::external_body]
fn queue_schedule(
    queue: &mut embassy_time_queue_utils::Queue,
    at: u64,
    waker: &core::task::Waker,
) -> (changed: bool)
    ensures
        is_scheduled(queued(*old(queue)), at, queued(*final(queue)), changed),
{
    queue.schedule_wake(at, waker)
}

/// `embassy_time_queue_utils::Queue::next_expiration`: takes out and wakes every timer that is
/// due, keeps all others, and returns the earliest time that is left, or `u64::MAX`.
#[verifier::external_body]
fn queue_expire(queue: &mut embassy_time_queue_utils::Queue, now: u64) -> (next: u64)
    ensures
        queued(*final(queue)) == queued(*old(queue)).filter(|at: u64| at > now),
        forall|at: u64| #[trigger] queued(*final(queue)).count(at) > 0 ==> next <= at,
        next == u64::MAX || queued(*final(queue)).count(next) > 0,
{
    queue.next_expiration(now)
}

/// Counts from `boundary` to `cntr` on the 16-bit counter.
pub open spec fn counts_since(boundary: u16, cntr: u16) -> int {
    if cntr >= boundary {
        cntr - boundary
    } else {
        cntr - boundary + 0x1_0000
    }
}

/// The last period boundary that lies at or before `cntr`, counted from `boundary`.
pub open spec fn boundary_after(boundary: u16, cntr: u16) -> u16 {
    ((boundary + counts_since(boundary, cntr) / PERIOD as int * PERIOD) % 0x1_0000) as u16
}

/// The counter one period on.
pub open spec fn period_after(cntr: u16) -> u32 {
    ((cntr + PERIOD) % 0x1_0000) as u32
}

/// The timebase.
pub struct TmrDriver {
    /// Ticks completed at `last_boundary`.
    pub base: u64,
    /// The counter at `base`.
    pub last_boundary: u16,
    /// Pending timers.
    pub queue: embassy_time_queue_utils::Queue,
    /// Whether the timer was started.
    pub started: bool,
}

impl TmrDriver {
    /// The tick that is current when the counter is at `cntr`.
    pub open spec fn tick_at(self, cntr: u16) -> int {
        self.base + counts_since(self.last_boundary, cntr) / PERIOD as int
    }

    /// A timebase that is not running yet.
    pub fn new() -> (driver: TmrDriver)
        ensures
            driver.base == 0,
            driver.last_boundary == 0,
            queued(driver.queue) == Multiset::<u64>::empty(),
            !driver.started,
    {
        TmrDriver { base: 0, last_boundary: 0, queue: new_queue(), started: false }
    }

    /// The current tick, with the counter at `cntr`.
    pub fn now(&self, cntr: u16) -> (tick: u64)
        requires
            self.tick_at(cntr) <= u64::MAX,
        ensures
            tick == self.tick_at(cntr),
    {
        let since: u16 = cntr.wrapping_sub(self.last_boundary);
        self.base + (since / PERIOD) as u64
    }

    /// Wake a task at a tick. The interrupt looks at the queue once per tick, so there is nothing
    /// to reprogram.
    pub fn schedule_wake(&mut self, at: u64, waker: &core::task::Waker)
        ensures
            final(self).base == old(self).base,
            final(self).last_boundary == old(self).last_boundary,
            final(self).started == old(self).started,
            exists|changed: bool|
                #[trigger] is_scheduled(
                    queued(old(self).queue),
                    at,
                    queued(final(self).queue),
                    changed,
                ),
    {
        let changed: bool = queue_schedule(&mut self.queue, at, waker);
        assert(is_scheduled(queued(old(self).queue), at, queued(self.queue), changed));
    }

    /// The compare interrupt, with the counter at `cntr`: advance the timebase by the whole
    /// periods since the last boundary, wake every timer that is due, and re-arm the compare one
    /// period after the new boundary. The tick count wraps around.
    ///
    /// The counter runs on meanwhile. Once the compare is armed, [`TmrDriver::is_overdue`] tells
    /// from the counter whether it had passed by then, in which case the interrupt is to be
    /// served again.
    pub fn on_tick(&mut self, cntr: u16) -> (op: Op)
        ensures
            op == (Op::Write {
                reg: Register::TmrComp1,
                value: period_after(final(self).last_boundary),
            }),
            final(self).base == old(self).tick_at(cntr) % 0x1_0000_0000_0000_0000,
            final(self).last_boundary == boundary_after(old(self).last_boundary, cntr),
            final(self).started == old(self).started,
            queued(final(self).queue) == queued(old(self).queue).filter(
                |at: u64| at > final(self).base,
            ),
    {
        let since: u16 = cntr.wrapping_sub(self.last_boundary);
        let elapsed: u16 = since / PERIOD;
        assert(elapsed * PERIOD <= since);
        self.base = self.base.wrapping_add(elapsed as u64);
        self.last_boundary = self.last_boundary.wrapping_add(elapsed * PERIOD);
        let now: u64 = self.base;
        let _next: u64 = queue_expire(&mut self.queue, now);
        Op::Write { reg: Register::TmrComp1, value: self.last_boundary.wrapping_add(PERIOD) as u32 }
    }

    /// Whether the compare that is armed had passed when the counter was at `cntr`.
    pub fn is_overdue(&self, cntr: u16) -> (overdue: bool)
        ensures
            overdue == (counts_since(self.last_boundary, cntr) >= PERIOD),
    {
        cntr.wrapping_sub(self.last_boundary) >= PERIOD
    }
}

/// The program that resets the timer and lets it count freely, and reads its counter.
pub open spec fn start_program() -> Seq<Op> {
    seq![
        Op::Write { reg: Register::TmrEnbl, value: 0 },
        Op::Write { reg: Register::TmrSctrl, value: 0 },
        Op::Write { reg: Register::TmrCsctrl, value: CSCTRL_COMPARE },
        Op::Write { reg: Register::TmrCntr, value: 0 },
        Op::Write { reg: Register::TmrCtrl, value: CTRL_FREE_RUNNING },
        Op::Read { reg: Register::TmrCntr },
    ]
}

/// Start the timebase: the program to run, inside a critical section. Nothing is to be done if
/// it runs already; otherwise [`started`] takes the counter that the program reads.
pub fn init(driver: &mut TmrDriver) -> (program: Vec<Op>)
    ensures
        final(driver).started,
        final(driver).base == old(driver).base,
        final(driver).last_boundary == old(driver).last_boundary,
        final(driver).queue == old(driver).queue,
        program@ == (if old(driver).started {
            Seq::empty()
        } else {
            start_program()
        }),
{
    if driver.started {
        return Vec::new();
    }
    driver.started = true;
    vec![
        Op::Write { reg: Register::TmrEnbl, value: 0 },
        Op::Write { reg: Register::TmrSctrl, value: 0 },
        Op::Write { reg: Register::TmrCsctrl, value: CSCTRL_COMPARE },
        Op::Write { reg: Register::TmrCntr, value: 0 },
        Op::Write { reg: Register::TmrCtrl, value: CTRL_FREE_RUNNING },
        Op::Read { reg: Register::TmrCntr },
    ]
}

/// The counter was at `boundary` when the timebase was started: the program that arms the
/// compare and lets all channels count, still inside the critical section, and the write that
/// enables the interrupt, outside of it, since leaving a critical section undoes every enable
/// made inside.
pub fn started(driver: &mut TmrDriver, boundary: u16) -> (programs: (Vec<Op>, Op))
    ensures
        final(driver).last_boundary == boundary,
        final(driver).base == old(driver).base,
        final(driver).queue == old(driver).queue,
        final(driver).started == old(driver).started,
        programs.0@ == seq![
            Op::Write { reg: Register::TmrComp1, value: period_after(boundary) },
            Op::Write { reg: Register::TmrEnbl, value: 0x0f },
        ],
        programs.1 == (Op::Write { reg: Register::IntEnnum, value: INT_NUM_TMR }),
{
    driver.last_boundary = boundary;
    let program: Vec<Op> = vec![
        Op::Write { reg: Register::TmrComp1, value: boundary.wrapping_add(PERIOD) as u32 },
        Op::Write { reg: Register::TmrEnbl, value: 0x0f },
    ];
    (program, Op::Write { reg: Register::IntEnnum, value: INT_NUM_TMR })
}

/// The compare interrupt: clear its flag, and read the counter for [`TmrDriver::on_tick`].
pub fn tmr0_isr() -> (program: Vec<Op>)
    ensures
        program@ == seq![
            Op::Write { reg: Register::TmrSctrl, value: 0 },
            Op::Write { reg: Register::TmrCsctrl, value: CSCTRL_COMPARE },
            Op::Read { reg: Register::TmrCntr },
        ],
{
    vec![
        Op::Write { reg: Register::TmrSctrl, value: 0 },
        Op::Write { reg: Register::TmrCsctrl, value: CSCTRL_COMPARE },
        Op::Read { reg: Register::TmrCntr },
    ]
}

/// A tick is a whole number of counts: the counter's rate divides into the tick rate without a
/// remainder.
pub proof fn law_period_is_exact(ticks: nat)
    ensures
        ticks * PERIOD * PRESCALE * TICK_HZ == ticks * REF_OSC_HZ,
{
    assert(ticks * 375 * 64 * 1_000 == ticks * 24_000_000) by (nonlinear_arith);
}

/// Serving the interrupt, however late, does not move the time: at the counter at which it is
/// served, and at every one after it short of a full turn, the tick is the one that it would have
/// been without.
pub proof fn law_interrupt_keeps_the_time(before: TmrDriver, after: TmrDriver, cntr: u16, c: u16)
    requires
        before.tick_at(cntr) <= u64::MAX,
        after.base == before.tick_at(cntr) % 0x1_0000_0000_0000_0000,
        after.last_boundary == boundary_after(before.last_boundary, cntr),
        counts_since(before.last_boundary, c) >= counts_since(before.last_boundary, cntr),
    ensures
        after.tick_at(c) == before.tick_at(c),
{
    let periods = counts_since(before.last_boundary, cntr) / 375;
    assert(counts_since(after.last_boundary, c) == counts_since(before.last_boundary, c) - 375
        * periods);
}

/// The compare is always armed for a whole number of periods after the boundary before, one to
/// [`PERIOD`] counts after the counter at which it is served.
pub proof fn law_compare_lies_on_a_period(boundary: u16, cntr: u16)
    ensures
        ({
            let after = boundary_after(boundary, cntr);
            &&& counts_since(after, cntr) == counts_since(boundary, cntr) % PERIOD as int
            &&& 1 <= counts_since(cntr, period_after(after) as u16) <= PERIOD
        }),
{
}

/// Between two interrupts the time never goes back: where the counter moves on and does not come
/// round to the last boundary, the tick does not decrease, and it increases by one with every
/// full period.
pub proof fn law_time_goes_forward(driver: TmrDriver, earlier: u16, later: u16)
    requires
        counts_since(driver.last_boundary, earlier) <= counts_since(driver.last_boundary, later),
    ensures
        driver.tick_at(earlier) <= driver.tick_at(later),
        counts_since(driver.last_boundary, earlier) + PERIOD == counts_since(
            driver.last_boundary,
            later,
        ) ==> driver.tick_at(later) == driver.tick_at(earlier) + 1,
{
}

/// An interrupt that is late by whole periods, short of a full turn of the counter, loses none
/// of them.
pub proof fn law_late_interrupt_loses_no_tick(driver: TmrDriver, cntr: u16, periods: int)
    requires
        0 <= periods,
        periods * PERIOD <= counts_since(driver.last_boundary, cntr) < (periods + 1) * PERIOD,
    ensures
        driver.tick_at(cntr) == driver.base + periods,
{
    assert(counts_since(driver.last_boundary, cntr) / 375 == periods) by (nonlinear_arith)
        requires
            periods * 375 <= counts_since(driver.last_boundary, cntr) < (periods + 1) * 375,
    ;
}

/// The 16-bit counter `elapsed` counts after it was at `start`.
pub open spec fn counter_at(start: u16, elapsed: nat) -> u16 {
    ((start + elapsed) % 0x1_0000) as u16
}

/// The tick count and the boundary of a timebase that was started with the counter at `start`,
/// once interrupts were served so many counts after the start each.
pub open spec fn serve_all(start: u16, served: Seq<nat>) -> (int, u16)
    decreases served.len(),
{
    if served.len() == 0 {
        (0, start)
    } else {
        let (base, boundary) = serve_all(start, served.drop_last());
        let cntr = counter_at(start, served.last());
        (
            base + counts_since(boundary, cntr) / PERIOD as int,
            boundary_after(boundary, cntr),
        )
    }
}

/// The whole periods in a number of counts.
pub open spec fn whole_periods(elapsed: nat) -> int {
    elapsed as int / PERIOD as int
}

/// Every interrupt is served less than a full turn of the counter after the boundary that the one
/// before it left.
pub open spec fn in_time(served: Seq<nat>) -> bool
    decreases served.len(),
{
    served.len() > 0 ==> {
        let before = if served.len() == 1 {
            0
        } else {
            served[served.len() - 2]
        };
        &&& in_time(served.drop_last())
        &&& before <= served.last() < whole_periods(before) * PERIOD + 0x1_0000
    }
}

/// The timebase does not drift: however late the interrupts were, short of a full turn of the
/// counter, the tick count is exactly the whole periods that have gone by since the start, and so
/// is the time between two interrupts.
pub proof fn law_timebase_does_not_drift(start: u16, served: Seq<nat>, elapsed: nat)
    requires
        in_time(served.push(elapsed)),
    ensures
        ({
            let (base, boundary) = serve_all(start, served);
            base + counts_since(boundary, counter_at(start, elapsed)) / PERIOD as int
                == whole_periods(elapsed)
        }),
{
    let all = served.push(elapsed);
    assert(all.drop_last() =~= served);
    lemma_served(start, served);
    let last: nat = if served.len() == 0 {
        0
    } else {
        served.last()
    };
    lemma_step(start, last, elapsed);
}

proof fn lemma_counts(start: u16, last: nat, elapsed: nat)
    requires
        last <= elapsed < whole_periods(last) * PERIOD + 0x1_0000,
    ensures
        counts_since(
            counter_at(start, (whole_periods(last) * PERIOD) as nat),
            counter_at(start, elapsed),
        ) == elapsed - whole_periods(last) * PERIOD,
{
}

proof fn lemma_step(start: u16, last: nat, elapsed: nat)
    requires
        last <= elapsed < whole_periods(last) * PERIOD + 0x1_0000,
    ensures
        ({
            let boundary = counter_at(start, (whole_periods(last) * PERIOD) as nat);
            let cntr = counter_at(start, elapsed);
            &&& whole_periods(last) + counts_since(boundary, cntr) / PERIOD as int
                == whole_periods(elapsed)
            &&& boundary_after(boundary, cntr) == counter_at(
                start,
                (whole_periods(elapsed) * PERIOD) as nat,
            )
        }),
{
    let w = whole_periods(last);
    let boundary = counter_at(start, (w * PERIOD) as nat);
    let cntr = counter_at(start, elapsed);
    lemma_counts(start, last, elapsed);
    let more = counts_since(boundary, cntr) / 375;
    assert(counts_since(boundary, cntr) == elapsed - 375 * w);
    assert(more == elapsed as int / 375 - w);
    assert((boundary + 375 * more) % 0x1_0000 == (start + 375 * w + 375 * more) % 0x1_0000);
}

proof fn lemma_served(start: u16, served: Seq<nat>)
    requires
        in_time(served),
    ensures
        ({
            let last: nat = if served.len() == 0 {
                0
            } else {
                served.last()
            };
            &&& serve_all(start, served).0 == whole_periods(last)
            &&& serve_all(start, served).1 == counter_at(
                start,
                (whole_periods(last) * PERIOD) as nat,
            )
        }),
    decreases served.len(),
{
    if served.len() > 0 {
        let rest = served.drop_last();
        lemma_served(start, rest);
        let before: nat = if rest.len() == 0 {
            0
        } else {
            rest.last()
        };
        lemma_step(start, before, served.last());
    }
}

/// No timer is woken before its tick, and none that is due is kept waiting.
pub proof fn law_timers_expire_on_time(before: Multiset<u64>, now: u64, at: u64)
    ensures
        at > now ==> before.filter(|t: u64| t > now).count(at) == before.count(at),
        at <= now ==> before.filter(|t: u64| t > now).count(at) == 0,
{
}

/// The tick is the base and one for each whole 375 counts that the counter has moved on from the
/// boundary, whether or not it came round to zero meanwhile; the boundary moves by exactly those,
/// and the compare is armed 375 counts behind a boundary.
pub proof fn law_a_tick_is_375_counts(driver: TmrDriver, cntr: u16, counts: int, periods: int)
    requires
        0 <= counts < 0x1_0000,
        (driver.last_boundary + counts) % 0x1_0000 == cntr,
        375 * periods <= counts < 375 * periods + 375,
    ensures
        counts_since(driver.last_boundary, cntr) == counts,
        driver.tick_at(cntr) == driver.base + periods,
        boundary_after(driver.last_boundary, cntr) == (driver.last_boundary + 375 * periods)
            % 0x1_0000,
        period_after(cntr) == (cntr + 375) % 0x1_0000,
{
}

/// Starting stops the timer and clears it before it is let go, with the compare interrupt enabled
/// and its flag clear, and the counter is read once it runs.
pub proof fn law_timer_starts_from_zero()
    ensures
        ({
            let program = start_program();
            &&& program.len() == 6
            &&& program[0] == (Op::Write { reg: Register::TmrEnbl, value: 0 })
            &&& program[1] == (Op::Write { reg: Register::TmrSctrl, value: 0 })
            &&& program[2] == (Op::Write { reg: Register::TmrCsctrl, value: 0x40 })
            &&& program[3] == (Op::Write { reg: Register::TmrCntr, value: 0 })
            &&& program[4] == (Op::Write { reg: Register::TmrCtrl, value: 0x3C00 })
            &&& program[5] == (Op::Read { reg: Register::TmrCntr })
        }),
{
}

} // verus!
