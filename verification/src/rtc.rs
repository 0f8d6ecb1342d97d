//! The RTC: a free-running 32-bit tick counter, clocked by the ~2 kHz ring oscillator or by a
//! 32 kHz crystal.
//!
//! It is a counter, not a calendar. The ring oscillator's exact rate is calibrated at run time;
//! the crystal's is a constant.
use crate::port::{Call, Op, Register};
use vstd::prelude::*;

verus! {

/// `fugit::Instant`: a point on a timeline of ticks.
#[verifier::external_type_specification]
#[verifier::external_body]
#[verifier::reject_recursive_types(T)]
#[verifier::reject_recursive_types(K)]
pub struct ExInstant<T, const NOM: u64, const DENOM: u64, K>(fugit::Instant<T, NOM, DENOM, K>);

/// `fugit::kind::Wrapping`: the marker of a timeline that wraps around.
#[verifier::external_type_specification]
#[verifier::external_body]
pub struct ExWrapping(fugit::kind::Wrapping);

/// The instant that `fugit` makes of a tick count at 2 kHz.
pub uninterp spec fn instant_at_2khz(ticks: u32) -> fugit::WrappingTimerInstantU32<2_000>;

/// The instant that `fugit` makes of a tick count at 32 kHz.
pub uninterp spec fn instant_at_32khz(ticks: u32) -> fugit::WrappingTimerInstantU32<32_000>;

/// `fugit::Instant::from_ticks` at 2 kHz: the instant is determined by the tick count.
#[verifier::external_body]
fn from_ticks_2khz(ticks: u32) -> (instant: fugit::WrappingTimerInstantU32<2_000>)
    ensures
        instant == instant_at_2khz(ticks),
{
    fugit::WrappingTimerInstantU32::<2_000>::from_ticks(ticks)
}

/// `fugit::Instant::from_ticks` at 32 kHz: the instant is determined by the tick count.
#[verifier::external_body]
fn from_ticks_32khz(ticks: u32) -> (instant: fugit::WrappingTimerInstantU32<32_000>)
    ensures
        instant == instant_at_32khz(ticks),
{
    fugit::WrappingTimerInstantU32::<32_000>::from_ticks(ticks)
}

/// RTC clocked by the internal ring oscillator.
#[derive(Debug, PartialEq, Eq, Structural)]
pub struct RtcRingOscillator;

impl RtcRingOscillator {
    /// The RTC, with the call that starts and calibrates the ring oscillator.
    pub fn new() -> (made: (RtcRingOscillator, Op))
        ensures
            made.0 == RtcRingOscillator,
            made.1 == Op::Call(Call::RtcInitOsc { crystal: 0 }),
    {
        (RtcRingOscillator, Op::Call(Call::RtcInitOsc { crystal: 0 }))
    }

    /// Calibrate again.
    pub fn recalibrate(&self) -> (op: Op)
        ensures
            op == Op::Call(Call::RtcCalibrate),
    {
        Op::Call(Call::RtcCalibrate)
    }

    /// The raw tick count: the register that holds it.
    pub fn ticks(&self) -> (op: Op)
        ensures
            op == (Op::Read { reg: Register::CrmRtcCount }),
    {
        Op::Read { reg: Register::CrmRtcCount }
    }

    /// The calibrated tick frequency in Hz: the call that gives it.
    pub fn frequency_hz(&self) -> (op: Op)
        ensures
            op == Op::Call(Call::RtcFreq),
    {
        Op::Call(Call::RtcFreq)
    }

    /// A tick count as an instant on a wrapping timeline, at a nominal 2 kHz.
    pub fn now(&self, ticks: u32) -> (instant: fugit::WrappingTimerInstantU32<2_000>)
        ensures
            instant == instant_at_2khz(ticks),
    {
        from_ticks_2khz(ticks)
    }
}

/// RTC clocked by an external 32 kHz crystal.
///
/// Once started, the crystal oscillator can only be stopped by a chip reset.
#[derive(Debug, PartialEq, Eq, Structural)]
pub struct RtcCrystal;

impl RtcCrystal {
    /// Exact tick frequency.
    pub const FREQUENCY_HZ: u32 = 32_000;

    /// The RTC, with the call that starts the crystal oscillator.
    pub fn new() -> (made: (RtcCrystal, Op))
        ensures
            made.0 == RtcCrystal,
            made.1 == Op::Call(Call::RtcInitOsc { crystal: 1 }),
    {
        (RtcCrystal, Op::Call(Call::RtcInitOsc { crystal: 1 }))
    }

    /// The raw tick count: the register that holds it.
    pub fn ticks(&self) -> (op: Op)
        ensures
            op == (Op::Read { reg: Register::CrmRtcCount }),
    {
        Op::Read { reg: Register::CrmRtcCount }
    }

    /// A tick count as an instant on a wrapping timeline.
    pub fn now(&self, ticks: u32) -> (instant: fugit::WrappingTimerInstantU32<32_000>)
        ensures
            instant == instant_at_32khz(ticks),
    {
        from_ticks_32khz(ticks)
    }
}

} // verus!
