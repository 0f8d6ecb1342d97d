//! Delays: milliseconds against the RTC, shorter ones by counting core cycles.
use crate::port::{Call, Op, Progress, Register, INT_NUM_CRM};
use vstd::prelude::*;

verus! {

/// Core clock frequency in Hz.
pub const CORE_CLOCK_HZ: u32 = 24_000_000;
/// Core cycles per iteration of the busy-wait loop.
pub const CYCLES_PER_ITERATION: u32 = 2;

/// `WU_CNTL`: the RTC wake-up comparator, and its interrupt.
pub const RTC_WU_EN_AND_IEN: u32 = 0x2_0002;
/// `WU_CNTL`: the interrupt of the RTC wake-up comparator.
pub const RTC_WU_IEN: u32 = 0x2_0000;
/// `STATUS`: the RTC timeout fired.
pub const RTC_WU_EVT: u32 = 0x8;

/// How many ticks of a 32-bit counter lie between two of its values.
pub open spec fn elapsed_ticks(anchor: u32, count: u32) -> int {
    if count >= anchor {
        count - anchor
    } else {
        count - anchor + 0x1_0000_0000
    }
}

/// RTC-based delay.
#[derive(Debug, Copy, Clone, PartialEq, Eq, Structural)]
pub struct Delay;

impl Delay {
    /// A delay, with the call that starts and calibrates the RTC on the ring oscillator. The CRM
    /// interrupt stays off: only [`RtcWait`] needs it.
    pub fn new() -> (made: (Delay, Op))
        ensures
            made.0 == Delay,
            made.1 == Op::Call(Call::RtcInitOsc { crystal: 0 }),
    {
        (Delay, Op::Call(Call::RtcInitOsc { crystal: 0 }))
    }

    /// Wait for nanoseconds: whole iterations of about 83 ns, rounded down.
    pub fn delay_ns(&self, ns: u32) -> (op: Op)
        ensures
            op matches Op::Spin { iterations } && iterations == ns * CORE_CLOCK_HZ / 1_000_000_000
                / CYCLES_PER_ITERATION as int,
    {
        assert(ns * CORE_CLOCK_HZ <= 0xFFFF_FFFF * 24_000_000) by (nonlinear_arith)
            requires
                ns <= 0xFFFF_FFFF,
                CORE_CLOCK_HZ == 24_000_000,
        ;
        let cycles: u64 = (ns as u64 * CORE_CLOCK_HZ as u64) / 1_000_000_000;
        Op::Spin { iterations: (cycles / CYCLES_PER_ITERATION as u64) as u32 }
    }

    /// Wait for microseconds: twelve iterations each, as far as they can be counted.
    pub fn delay_us(&self, us: u32) -> (op: Op)
        ensures
            op == (Op::Spin {
                iterations: if us * 12 <= u32::MAX {
                    (us * 12) as u32
                } else {
                    u32::MAX
                },
            }),
    {
        let per_us: u32 = CORE_CLOCK_HZ / CYCLES_PER_ITERATION / 1_000_000;
        let iterations: u32 = match us.checked_mul(per_us) {
            Some(iterations) => iterations,
            None => u32::MAX,
        };
        Op::Spin { iterations }
    }

    /// Wait for milliseconds on the RTC, without interrupts.
    pub fn delay_ms(&self, ms: u32) -> (op: Op)
        ensures
            op == Op::Call(Call::RtcDelayMs { ms }),
    {
        Op::Call(Call::RtcDelayMs { ms })
    }

    /// The RTC ticks in a number of milliseconds at a frequency in Hz, at least one, modulo
    /// 2^32.
    pub fn rtc_ticks(&self, ms: u32, rtc_freq: u32) -> (ticks: u32)
        ensures
            ms * rtc_freq < 1000 ==> ticks == 1,
            ms * rtc_freq >= 1000 ==> ticks == ms * rtc_freq / 1000 % 0x1_0000_0000,
    {
        assert(0 <= ms * rtc_freq <= 0xFFFF_FFFF * 0xFFFF_FFFF) by (nonlinear_arith)
            requires
                0 <= ms <= 0xFFFF_FFFF,
                0 <= rtc_freq <= 0xFFFF_FFFF,
        ;
        let exact: u64 = (ms as u64 * rtc_freq as u64) / 1000;
        let at_least_one: u64 = if exact < 1 {
            1
        } else {
            exact
        };
        (at_least_one % 0x1_0000_0000) as u32
    }

    /// The program to run before waiting for RTC ticks: route the CRM interrupt, and read the
    /// counter. [`RtcWait::new`] takes its value.
    pub fn wait_rtc_ticks(&self) -> (program: Vec<Op>)
        ensures
            program@ == seq![
                Op::Write { reg: Register::IntEnnum, value: INT_NUM_CRM },
                Op::Read { reg: Register::CrmRtcCount },
            ],
    {
        vec![
            Op::Write { reg: Register::IntEnnum, value: INT_NUM_CRM },
            Op::Read { reg: Register::CrmRtcCount },
        ]
    }
}

/// A wait for RTC ticks under way.
///
/// The comparator runs a periodic schedule of its own, so it can fire early. The counter is the
/// ground truth: every wake-up is provisional until the counter confirms it.
#[derive(Debug, Copy, Clone, PartialEq, Eq, Structural)]
pub struct RtcWait {
    /// Ticks to wait for.
    pub ticks: u32,
    /// The counter when the wait began.
    pub anchor: u32,
    /// Ticks to program next.
    pub remaining: u32,
}

impl RtcWait {
    /// There is something left to wait for, and no more than was asked for.
    pub open spec fn well_formed(self) -> bool {
        &&& 1 <= self.remaining
        &&& self.remaining <= self.ticks || self.remaining == 1
    }

    /// Begin to wait, with the counter at `anchor`. At least one tick is programmed.
    pub fn new(ticks: u32, anchor: u32) -> (wait: RtcWait)
        ensures
            wait.well_formed(),
            wait.ticks == ticks,
            wait.anchor == anchor,
            wait.remaining == (if ticks == 0 {
                1
            } else {
                ticks
            }),
    {
        RtcWait {
            ticks,
            anchor,
            remaining: if ticks < 1 {
                1
            } else {
                ticks
            },
        }
    }

    /// The program that disarms the comparator, clears a stale event, and programs what is left.
    pub fn arm(&self) -> (program: Vec<Op>)
        ensures
            program@ == seq![
                Op::ClearBits { reg: Register::CrmWuCntl, bits: RTC_WU_EN_AND_IEN },
                Op::Write { reg: Register::CrmStatus, value: RTC_WU_EVT },
                Op::Write { reg: Register::CrmRtcTimeout, value: self.remaining },
            ],
    {
        vec![
            Op::ClearBits { reg: Register::CrmWuCntl, bits: RTC_WU_EN_AND_IEN },
            Op::Write { reg: Register::CrmStatus, value: RTC_WU_EVT },
            Op::Write { reg: Register::CrmRtcTimeout, value: self.remaining },
        ]
    }

    /// Judge the status: ready once the event has fired; until then, the interrupt is enabled by
    /// [`RtcWait::enable_interrupt`].
    pub fn poll(&self, status: u32) -> (progress: Progress<()>)
        ensures
            progress == (if status & RTC_WU_EVT != 0 {
                Progress::Ready(())
            } else {
                Progress::Pending
            }),
    {
        if status & RTC_WU_EVT != 0 {
            Progress::Ready(())
        } else {
            Progress::Pending
        }
    }

    /// Enable the comparator and its interrupt before waiting for it.
    pub fn enable_interrupt(&self) -> (op: Op)
        ensures
            op == (Op::SetBits { reg: Register::CrmWuCntl, bits: RTC_WU_EN_AND_IEN }),
    {
        Op::SetBits { reg: Register::CrmWuCntl, bits: RTC_WU_EN_AND_IEN }
    }

    /// The event has fired, with the counter at `count`: done if the ticks have really gone by,
    /// and otherwise the rest is to be waited for.
    pub fn woken(&mut self, count: u32) -> (done: bool)
        requires
            old(self).well_formed(),
        ensures
            final(self).well_formed(),
            final(self).ticks == old(self).ticks,
            final(self).anchor == old(self).anchor,
            done <==> elapsed_ticks(old(self).anchor, count) >= old(self).ticks,
            done ==> final(self).remaining == old(self).remaining,
            !done ==> final(self).remaining + elapsed_ticks(old(self).anchor, count) == old(
                self,
            ).ticks,
    {
        let elapsed: u32 = count.wrapping_sub(self.anchor);
        if elapsed >= self.ticks {
            return true;
        }
        self.remaining = self.ticks - elapsed;
        false
    }
}

/// The RTC timeout interrupt: mask it, and leave the comparator running and the event for the
/// task that waits.
pub fn rtc_isr() -> (op: Op)
    ensures
        op == (Op::ClearBits { reg: Register::CrmWuCntl, bits: RTC_WU_IEN }),
{
    Op::ClearBits { reg: Register::CrmWuCntl, bits: RTC_WU_IEN }
}

/// The elapsed ticks are those that lead from the anchor to the count on a counter of 32 bits,
/// less than one turn of it.
pub proof fn law_elapsed_ticks_lead_to_the_count(anchor: u32, count: u32)
    ensures
        0 <= elapsed_ticks(anchor, count) < 0x1_0000_0000,
        (anchor + elapsed_ticks(anchor, count)) % 0x1_0000_0000 == count,
{
}

/// A wait is over exactly once the counter has moved on from its anchor by the ticks that were
/// asked for, however often the comparator fired before; until then what is programmed ends with
/// the last of them.
pub proof fn law_wait_lasts_its_ticks(
    before: RtcWait,
    after: RtcWait,
    count: u32,
    done: bool,
    elapsed: int,
)
    requires
        0 <= elapsed < 0x1_0000_0000,
        (before.anchor + elapsed) % 0x1_0000_0000 == count,
        done <==> elapsed_ticks(before.anchor, count) >= before.ticks,
        !done ==> after.remaining + elapsed_ticks(before.anchor, count) == before.ticks,
    ensures
        done <==> elapsed >= before.ticks,
        !done ==> elapsed + after.remaining == before.ticks,
{
}

} // verus!
