//! CRM low-power (Hibernate/Doze) control.
//!
//! Both modes power down the whole chip except the sleep timer; they differ in the clock that
//! stays alive to run it.
use crate::port::{append, Op, Register};
use vstd::prelude::*;

verus! {

/// Status: the sleep clock domain has synchronized.
pub const SLEEP_SYNC: u32 = 0x0001;
/// Status: the wake-up timer fired in Hibernate.
pub const HIB_WU_EVT: u32 = 0x0002;
/// Status: the wake-up timer fired in Doze.
pub const DOZE_WU_EVT: u32 = 0x0004;
/// Status: the RTC timeout fired.
pub const RTC_WU_EVT: u32 = 0x0008;
/// Status: the ring oscillator was calibrated.
pub const CAL_DONE: u32 = 0x0200;
/// Status: the watchdog timed out.
pub const COP_EVT: u32 = 0x0400;

/// Which low-power mode to enter.
#[derive(Debug, Copy, Clone, PartialEq, Eq, Structural)]
pub enum SleepMode {
    /// The ring oscillator or the crystal stays on: lowest current.
    Hibernate,
    /// The divided reference oscillator stays on: accurate wake delay.
    Doze,
}

/// How much of RAM stays powered during sleep.
#[derive(Debug, Copy, Clone, PartialEq, Eq, Structural)]
pub enum RamRetention {
    /// 8 KB (page 0 only), the reset default.
    Kb8,
    /// 32 KB (pages 0 and 1).
    Kb32,
    /// 64 KB (pages 0, 1 and 2).
    Kb64,
    /// 96 KB (all pages).
    Kb96,
}

impl RamRetention {
    /// The `RAM_RET` field.
    pub open spec fn spec_field(self) -> u32 {
        match self {
            RamRetention::Kb8 => 0,
            RamRetention::Kb32 => 1,
            RamRetention::Kb64 => 2,
            RamRetention::Kb96 => 3,
        }
    }

    /// The `RAM_RET` field.
    pub fn field(self) -> (field: u32)
        ensures
            field == self.spec_field(),
            field < 4,
    {
        match self {
            RamRetention::Kb8 => 0,
            RamRetention::Kb32 => 1,
            RamRetention::Kb64 => 2,
            RamRetention::Kb96 => 3,
        }
    }
}

/// State retained across sleep.
///
/// Without `mcu`, waking is a cold restart from the bottom of RAM.
#[derive(Debug, Copy, Clone, PartialEq, Eq, Structural)]
pub struct Retention {
    /// Retain CPU, modem and analog control state.
    pub mcu: bool,
    /// Retain GPIO pad state; ignored unless `mcu` is set.
    pub gpio_pads: bool,
    /// RAM to retain.
    pub ram: RamRetention,
}

/// One KBI pin as a wake source.
#[derive(Debug, Copy, Clone, PartialEq, Eq, Structural)]
pub struct KbiWake {
    /// Edge sensitive rather than level sensitive.
    pub edge: bool,
    /// Wake on the high level or positive edge rather than the low level or negative edge.
    pub active_high: bool,
}

/// Which sources can wake the chip from sleep, and their timeouts.
#[derive(Debug, Copy, Clone, PartialEq, Eq)]
pub struct WakeSources {
    /// Wake-up timer timeout, in ticks of the active sleep-mode clock.
    pub timer: Option<u32>,
    /// RTC periodic timeout, in RTC ticks.
    pub rtc: Option<u32>,
    /// KBI4-7, indexed 0..=3 for KBI4..=7.
    pub kbi: [Option<KbiWake>; 4],
}

impl Default for WakeSources {
    fn default() -> (sources: WakeSources)
        ensures
            sources.timer is None,
            sources.rtc is None,
            forall|n: int| 0 <= n < 4 ==> (#[trigger] sources.kbi@[n]) is None,
    {
        WakeSources { timer: None, rtc: None, kbi: [None, None, None, None] }
    }
}

impl WakeSources {
    /// Whether anything can wake the chip.
    pub open spec fn spec_any(self) -> bool {
        ||| self.timer is Some
        ||| self.rtc is Some
        ||| exists|n: int| 0 <= n < 4 && (#[trigger] self.kbi@[n]) is Some
    }

    /// Whether anything can wake the chip.
    pub fn any(&self) -> (any: bool)
        ensures
            any == self.spec_any(),
    {
        let mut any: bool = self.timer.is_some() || self.rtc.is_some();
        let mut n: usize = 0;
        while n < 4
            invariant
                n <= 4,
                any <==> (self.timer is Some || self.rtc is Some || exists|k: int|
                    0 <= k < n && (#[trigger] self.kbi@[k]) is Some),
            decreases 4 - n,
        {
            if self.kbi[n].is_some() {
                any = true;
            }
            n = n + 1;
        }
        any
    }
}

/// Why the chip woke.
#[derive(Debug, Copy, Clone, PartialEq, Eq, Structural)]
pub enum WakeReason {
    /// The wake-up timer fired.
    Timer,
    /// The RTC's periodic timeout fired.
    Rtc,
    /// A KBI pin transitioned; the GPIO number, 4..=7.
    Kbi(u8),
    /// The ring oscillator calibration cycle completed.
    CalDone,
    /// The watchdog timed out.
    Cop,
    /// The status reported none of the above.
    Unknown,
}

/// The `WU_CNTL` bits of KBI pin `4 + n`.
pub open spec fn kbi_bits(kbi: Option<KbiWake>, n: u32) -> u32 {
    match kbi {
        None => 0,
        Some(pin) => (0x10u32 << n) | (if pin.edge {
            0x100u32 << n
        } else {
            0
        }) | (if pin.active_high {
            0x1000u32 << n
        } else {
            0
        }),
    }
}

/// The `WU_CNTL` value of wake sources.
pub open spec fn spec_wu_cntl(sources: WakeSources) -> u32 {
    (if sources.timer is Some {
        0x1u32
    } else {
        0
    }) | (if sources.rtc is Some {
        0x2_0002u32
    } else {
        0
    }) | kbi_bits(sources.kbi@[0], 0) | kbi_bits(sources.kbi@[1], 1) | kbi_bits(sources.kbi@[2], 2)
        | kbi_bits(sources.kbi@[3], 3)
}

fn kbi_wake_bits(kbi: Option<KbiWake>, n: u32) -> (bits: u32)
    requires
        n < 4,
    ensures
        bits == kbi_bits(kbi, n),
{
    match kbi {
        None => 0,
        Some(pin) => {
            let edge: u32 = if pin.edge {
                0x100u32 << n
            } else {
                0
            };
            let polarity: u32 = if pin.active_high {
                0x1000u32 << n
            } else {
                0
            };
            (0x10u32 << n) | edge | polarity
        },
    }
}

/// The `WU_CNTL` value of wake sources.
pub fn wu_cntl(sources: &WakeSources) -> (value: u32)
    ensures
        value == spec_wu_cntl(*sources),
{
    let timer: u32 = if sources.timer.is_some() {
        0x1
    } else {
        0
    };
    let rtc: u32 = if sources.rtc.is_some() {
        0x2_0002
    } else {
        0
    };
    timer | rtc | kbi_wake_bits(sources.kbi[0], 0) | kbi_wake_bits(sources.kbi[1], 1)
        | kbi_wake_bits(sources.kbi[2], 2) | kbi_wake_bits(sources.kbi[3], 3)
}

/// What bit `bit` of `WU_CNTL` stands for: whether these sources ask for it.
pub open spec fn asks_for(sources: WakeSources, bit: u32) -> bool {
    if bit == 0 {
        sources.timer is Some
    } else if bit == 1 || bit == 17 {
        sources.rtc is Some
    } else if 4 <= bit < 8 {
        sources.kbi@[bit - 4] is Some
    } else if 8 <= bit < 12 {
        sources.kbi@[bit - 8] matches Some(pin) && pin.edge
    } else if 12 <= bit < 16 {
        sources.kbi@[bit - 12] matches Some(pin) && pin.active_high
    } else {
        false
    }
}

spec fn pin_word(on: bool, edge: bool, high: bool, n: u32) -> u32 {
    if on {
        (0x10u32 << n) | (if edge {
            0x100u32 << n
        } else {
            0
        }) | (if high {
            0x1000u32 << n
        } else {
            0
        })
    } else {
        0
    }
}

/// Every bit of `WU_CNTL` is set exactly where the sources ask for it: one enable bit for each
/// source, edge and polarity bits for each armed pin, and nothing else.
pub proof fn law_wu_cntl_bits(sources: WakeSources, bit: u32)
    requires
        bit < 32,
    ensures
        spec_wu_cntl(sources) & (1u32 << bit) != 0 <==> asks_for(sources, bit),
{
    let t = sources.timer is Some;
    let r = sources.rtc is Some;
    let k0 = sources.kbi@[0];
    let k1 = sources.kbi@[1];
    let k2 = sources.kbi@[2];
    let k3 = sources.kbi@[3];
    let (o0, e0, p0) = (k0 is Some, k0 is Some && k0->0.edge, k0 is Some && k0->0.active_high);
    let (o1, e1, p1) = (k1 is Some, k1 is Some && k1->0.edge, k1 is Some && k1->0.active_high);
    let (o2, e2, p2) = (k2 is Some, k2 is Some && k2->0.edge, k2 is Some && k2->0.active_high);
    let (o3, e3, p3) = (k3 is Some, k3 is Some && k3->0.edge, k3 is Some && k3->0.active_high);
    let word = spec_wu_cntl(sources);
    assert(word == (if t {
        0x1u32
    } else {
        0
    }) | (if r {
        0x2_0002u32
    } else {
        0
    }) | pin_word(o0, e0, p0, 0) | pin_word(o1, e1, p1, 1) | pin_word(o2, e2, p2, 2) | pin_word(
        o3,
        e3,
        p3,
        3,
    ));
    assert((word & (1u32 << bit) != 0) == (if bit == 0 {
        t
    } else if bit == 1 || bit == 17 {
        r
    } else if bit == 4 {
        o0
    } else if bit == 5 {
        o1
    } else if bit == 6 {
        o2
    } else if bit == 7 {
        o3
    } else if bit == 8 {
        e0
    } else if bit == 9 {
        e1
    } else if bit == 10 {
        e2
    } else if bit == 11 {
        e3
    } else if bit == 12 {
        p0
    } else if bit == 13 {
        p1
    } else if bit == 14 {
        p2
    } else if bit == 15 {
        p3
    } else {
        false
    })) by (bit_vector)
        requires
            bit < 32,
            e0 ==> o0,
            e1 ==> o1,
            e2 ==> o2,
            e3 ==> o3,
            p0 ==> o0,
            p1 ==> o1,
            p2 ==> o2,
            p3 ==> o3,
            word == (if t {
                0x1u32
            } else {
                0
            }) | (if r {
                0x2_0002u32
            } else {
                0
            }) | pin_word(o0, e0, p0, 0) | pin_word(o1, e1, p1, 1) | pin_word(o2, e2, p2, 2)
                | pin_word(o3, e3, p3, 3),
    ;
}

/// The `SLEEP_CNTL` value: the mode, the RAM field, and the retention flags. The pads' flag
/// counts only together with the MCU's.
pub open spec fn spec_sleep_cntl(mode: SleepMode, retention: Retention) -> int {
    (match mode {
        SleepMode::Hibernate => 1int,
        SleepMode::Doze => 2int,
    }) + 0x10 * retention.ram.spec_field() + (if retention.mcu {
        0x40int
    } else {
        0
    }) + (if retention.mcu && retention.gpio_pads {
        0x80int
    } else {
        0
    })
}

/// The `SLEEP_CNTL` value of a mode and a retention.
pub fn sleep_cntl(mode: SleepMode, retention: Retention) -> (value: u32)
    ensures
        value == spec_sleep_cntl(mode, retention),
{
    let mut value: u32 = 0x10 * retention.ram.field();
    if retention.mcu {
        value = value + 0x40;
        if retention.gpio_pads {
            value = value + 0x80;
        }
    }
    match mode {
        SleepMode::Hibernate => value + 1,
        SleepMode::Doze => value + 2,
    }
}

/// The program that goes to sleep, and that ends once the chip is awake again, with its status.
pub open spec fn sleep_program(
    mode: SleepMode,
    sources: WakeSources,
    retention: Retention,
) -> Seq<Op> {
    (match sources.timer {
        Some(timeout) => seq![Op::Write { reg: Register::CrmWuTimeout, value: timeout }],
        None => Seq::empty(),
    }) + (match sources.rtc {
        Some(timeout) => seq![Op::Write { reg: Register::CrmRtcTimeout, value: timeout }],
        None => Seq::empty(),
    }) + seq![
        Op::Write { reg: Register::CrmWuCntl, value: spec_wu_cntl(sources) },
        Op::Write { reg: Register::CrmSleepCntl, value: spec_sleep_cntl(mode, retention) as u32 },
        Op::WaitSet { reg: Register::CrmStatus, bits: SLEEP_SYNC },
        Op::Write { reg: Register::CrmStatus, value: SLEEP_SYNC },
        Op::WaitSet { reg: Register::CrmStatus, bits: SLEEP_SYNC },
        Op::Read { reg: Register::CrmStatus },
    ]
}

/// Enter `mode` until one of `sources` wakes the chip: the program to run. [`woken`] takes the
/// status that it reads.
///
/// Hardware sets the synchronization flag on the way into sleep, clearing it lets power drop,
/// and hardware sets it again as part of waking.
pub fn sleep(mode: SleepMode, sources: WakeSources, retention: Retention) -> (program: Vec<Op>)
    requires
        sources.spec_any(),
    ensures
        program@ == sleep_program(mode, sources, retention),
{
    let mut program: Vec<Op> = Vec::new();
    if let Some(timeout) = sources.timer {
        program.push(Op::Write { reg: Register::CrmWuTimeout, value: timeout });
    }
    if let Some(timeout) = sources.rtc {
        program.push(Op::Write { reg: Register::CrmRtcTimeout, value: timeout });
    }
    append(
        &mut program,
        &vec![
            Op::Write { reg: Register::CrmWuCntl, value: wu_cntl(&sources) },
            Op::Write { reg: Register::CrmSleepCntl, value: sleep_cntl(mode, retention) },
            Op::WaitSet { reg: Register::CrmStatus, bits: SLEEP_SYNC },
            Op::Write { reg: Register::CrmStatus, value: SLEEP_SYNC },
            Op::WaitSet { reg: Register::CrmStatus, bits: SLEEP_SYNC },
            Op::Read { reg: Register::CrmStatus },
        ],
    );
    assert(program@ =~= sleep_program(mode, sources, retention));
    program
}

/// Why the chip woke, by the status it woke with. The RTC comes first: a timer flag can be set
/// beside that of a genuine RTC wake. Of several pins, the lowest counts.
pub open spec fn spec_wake_reason(status: u32) -> WakeReason {
    if status & RTC_WU_EVT != 0 {
        WakeReason::Rtc
    } else if status & (HIB_WU_EVT | DOZE_WU_EVT) != 0 {
        WakeReason::Timer
    } else if status & 0x10 != 0 {
        WakeReason::Kbi(4)
    } else if status & 0x20 != 0 {
        WakeReason::Kbi(5)
    } else if status & 0x40 != 0 {
        WakeReason::Kbi(6)
    } else if status & 0x80 != 0 {
        WakeReason::Kbi(7)
    } else if status & CAL_DONE != 0 {
        WakeReason::CalDone
    } else if status & COP_EVT != 0 {
        WakeReason::Cop
    } else {
        WakeReason::Unknown
    }
}

/// The chip is awake, with this status: why it woke, and the write that clears every event that
/// fired and lets it fully leave the low-power mode.
pub fn woken(status: u32) -> (woken: (Op, WakeReason))
    ensures
        woken.0 == (Op::Write { reg: Register::CrmStatus, value: status }),
        woken.1 == spec_wake_reason(status),
{
    let reason: WakeReason = if status & RTC_WU_EVT != 0 {
        WakeReason::Rtc
    } else if status & (HIB_WU_EVT | DOZE_WU_EVT) != 0 {
        WakeReason::Timer
    } else if status & 0x10 != 0 {
        WakeReason::Kbi(4)
    } else if status & 0x20 != 0 {
        WakeReason::Kbi(5)
    } else if status & 0x40 != 0 {
        WakeReason::Kbi(6)
    } else if status & 0x80 != 0 {
        WakeReason::Kbi(7)
    } else if status & CAL_DONE != 0 {
        WakeReason::CalDone
    } else if status & COP_EVT != 0 {
        WakeReason::Cop
    } else {
        WakeReason::Unknown
    };
    (Op::Write { reg: Register::CrmStatus, value: status }, reason)
}

/// Sources that can wake the chip arm at least one enable bit, so that no program puts the chip
/// to sleep for good.
pub proof fn law_sleep_can_end(sources: WakeSources)
    requires
        sources.spec_any(),
    ensures
        exists|bit: u32|
            bit < 8 && #[trigger] asks_for(sources, bit) && spec_wu_cntl(sources) & (1u32 << bit)
                != 0,
{
    if sources.timer is Some {
        law_wu_cntl_bits(sources, 0);
        assert(asks_for(sources, 0));
    } else if sources.rtc is Some {
        law_wu_cntl_bits(sources, 1);
        assert(asks_for(sources, 1));
    } else {
        let n = choose|n: int| 0 <= n < 4 && (#[trigger] sources.kbi@[n]) is Some;
        let bit = (4 + n) as u32;
        law_wu_cntl_bits(sources, bit);
        assert(asks_for(sources, bit));
    }
}

/// `SLEEP_CNTL` names the mode that was asked for and no other, retains as much RAM as was asked
/// for, and keeps the MCU's state exactly if asked, and that of the pads exactly if asked for
/// together with the MCU's.
pub proof fn law_sleep_cntl_bits(mode: SleepMode, retention: Retention)
    ensures
        ({
            let value = spec_sleep_cntl(mode, retention);
            &&& 0 <= value < 0x100
            &&& value % 2 == 1 <==> mode == SleepMode::Hibernate
            &&& value / 2 % 2 == 1 <==> mode == SleepMode::Doze
            &&& value / 4 % 4 == 0
            &&& value / 0x10 % 4 == 0 <==> retention.ram == RamRetention::Kb8
            &&& value / 0x10 % 4 == 1 <==> retention.ram == RamRetention::Kb32
            &&& value / 0x10 % 4 == 2 <==> retention.ram == RamRetention::Kb64
            &&& value / 0x10 % 4 == 3 <==> retention.ram == RamRetention::Kb96
            &&& value / 0x40 % 2 == 1 <==> retention.mcu
            &&& value / 0x80 % 2 == 1 <==> retention.mcu && retention.gpio_pads
        }),
{
}

/// Going to sleep writes `SLEEP_CNTL` once, and what it writes there enters the mode that was
/// asked for and no other, with exactly the retention that was asked for.
pub proof fn law_sleep_enters_the_mode(mode: SleepMode, sources: WakeSources, retention: Retention)
    ensures
        ({
            let program = sleep_program(mode, sources, retention);
            let at = program.len() - 5;
            &&& program.len() >= 6
            &&& program[at] is Write && program[at]->Write_reg == Register::CrmSleepCntl
            &&& forall|i: int|
                0 <= i < program.len() && i != at && (#[trigger] program[i]) is Write
                    ==> program[i]->Write_reg != Register::CrmSleepCntl
            &&& program[at]->Write_value < 0x100
            &&& program[at]->Write_value % 2 == 1 <==> mode == SleepMode::Hibernate
            &&& program[at]->Write_value / 2 % 2 == 1 <==> mode == SleepMode::Doze
            &&& program[at]->Write_value / 4 % 4 == 0
            &&& program[at]->Write_value / 0x10 % 4 == (match retention.ram {
                RamRetention::Kb8 => 0int,
                RamRetention::Kb32 => 1int,
                RamRetention::Kb64 => 2int,
                RamRetention::Kb96 => 3int,
            })
            &&& program[at]->Write_value / 0x40 % 2 == 1 <==> retention.mcu
            &&& program[at]->Write_value / 0x80 % 2 == 1 <==> retention.mcu && retention.gpio_pads
        }),
{
    law_sleep_cntl_bits(mode, retention);
    let program = sleep_program(mode, sources, retention);
    let at = program.len() - 5;
    assert(program[at] == (Op::Write {
        reg: Register::CrmSleepCntl,
        value: spec_sleep_cntl(mode, retention) as u32,
    }));
}

/// Before the chip goes to sleep, each timeout that was asked for is set, to the ticks that were
/// asked for, and none that was not; then the sources are armed, once. After that the program
/// only lets the power drop and waits to be woken, and the status is the last thing it reads.
pub proof fn law_sources_are_set_before_sleep(
    mode: SleepMode,
    sources: WakeSources,
    retention: Retention,
)
    ensures
        ({
            let program = sleep_program(mode, sources, retention);
            let n = program.len() as int;
            &&& n == 6 + (if sources.timer is Some {
                1int
            } else {
                0
            }) + (if sources.rtc is Some {
                1int
            } else {
                0
            })
            &&& sources.timer matches Some(ticks) ==> program[0] == (Op::Write {
                reg: Register::CrmWuTimeout,
                value: ticks,
            })
            &&& sources.rtc matches Some(ticks) ==> program[n - 7] == (Op::Write {
                reg: Register::CrmRtcTimeout,
                value: ticks,
            })
            &&& program[n - 6] == (Op::Write {
                reg: Register::CrmWuCntl,
                value: spec_wu_cntl(sources),
            })
            &&& program[n - 4] == (Op::WaitSet { reg: Register::CrmStatus, bits: 1 })
            &&& program[n - 3] == (Op::Write { reg: Register::CrmStatus, value: 1 })
            &&& program[n - 2] == (Op::WaitSet { reg: Register::CrmStatus, bits: 1 })
            &&& program[n - 1] == (Op::Read { reg: Register::CrmStatus })
        }),
{
}

/// The sources are armed bit by bit: the timer in bit 0, the RTC in bits 1 and 17, and pin
/// `4 + n` in bit `4 + n`, with its edge in bit `8 + n` and its polarity in bit `12 + n`. No other
/// bit is ever set.
pub proof fn law_sources_are_armed_as_asked(sources: WakeSources, n: u32, bit: u32)
    requires
        n < 4,
        bit == 2 || bit == 3 || bit == 16 || 18 <= bit < 32,
    ensures
        ({
            let word = spec_wu_cntl(sources);
            let pin = sources.kbi@[n as int];
            &&& word & (1u32 << 0u32) != 0 <==> sources.timer is Some
            &&& word & (1u32 << 1u32) != 0 <==> sources.rtc is Some
            &&& word & (1u32 << 17u32) != 0 <==> sources.rtc is Some
            &&& word & (1u32 << (4 + n) as u32) != 0 <==> pin is Some
            &&& word & (1u32 << (8 + n) as u32) != 0 <==> (pin matches Some(armed) && armed.edge)
            &&& word & (1u32 << (12 + n) as u32) != 0 <==> (pin matches Some(armed)
                && armed.active_high)
            &&& word & (1u32 << bit) == 0
        }),
        sources.spec_any() <==> sources.timer is Some || sources.rtc is Some || sources.kbi@[0]
            is Some || sources.kbi@[1] is Some || sources.kbi@[2] is Some || sources.kbi@[3]
            is Some,
{
    law_wu_cntl_bits(sources, 0);
    law_wu_cntl_bits(sources, 1);
    law_wu_cntl_bits(sources, 17);
    law_wu_cntl_bits(sources, (4 + n) as u32);
    law_wu_cntl_bits(sources, (8 + n) as u32);
    law_wu_cntl_bits(sources, (12 + n) as u32);
    law_wu_cntl_bits(sources, bit);
}

/// The reason for waking is one that the status reports, and the one that comes first: the RTC
/// before the timer, which counts whichever mode it fired in, before the pins, the lowest of
/// which counts, before the calibration and the watchdog.
pub proof fn law_wake_reason_is_reported(status: u32)
    ensures
        ({
            let reason = spec_wake_reason(status);
            let clocks = status & 0x8 != 0 || status & 0x4 != 0 || status & 0x2 != 0;
            let pins = status & 0x10 != 0 || status & 0x20 != 0 || status & 0x40 != 0 || status
                & 0x80 != 0;
            &&& reason == WakeReason::Rtc <==> status & 0x8 != 0
            &&& reason == WakeReason::Timer <==> status & 0x8 == 0 && clocks
            &&& reason is Kbi <==> !clocks && pins
            &&& reason matches WakeReason::Kbi(pin) ==> {
                &&& 4 <= pin <= 7
                &&& pin == 4 <==> status & 0x10 != 0
                &&& pin == 5 <==> status & 0x10 == 0 && status & 0x20 != 0
                &&& pin == 6 <==> status & 0x10 == 0 && status & 0x20 == 0 && status & 0x40 != 0
            }
            &&& reason == WakeReason::CalDone <==> !clocks && !pins && status & 0x200 != 0
            &&& reason == WakeReason::Cop <==> !clocks && !pins && status & 0x200 == 0 && status
                & 0x400 != 0
        }),
{
    assert((0x2u32 | 0x4u32) == 0x6u32) by (bit_vector);
    assert(status & 0x6 != 0 <==> status & 0x2 != 0 || status & 0x4 != 0) by (bit_vector);
}

} // verus!
