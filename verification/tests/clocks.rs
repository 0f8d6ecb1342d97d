use std::sync::atomic::{AtomicUsize, Ordering};
use std::sync::Arc;
use std::task::{Wake, Waker};

use mc1322x::delay::{rtc_isr, Delay, RtcWait};
use mc1322x::embassy;
use mc1322x::port::{Call, Op, Progress, Register};
use mc1322x::rtc::{RtcCrystal, RtcRingOscillator};
use mc1322x::sleep::{
    sleep, sleep_cntl, woken, wu_cntl, KbiWake, RamRetention, Retention, SleepMode, WakeReason,
    WakeSources,
};
use mc1322x::time_driver::{init, started, tmr0_isr, TmrDriver, PERIOD};

struct Counter(AtomicUsize);

impl Wake for Counter {
    fn wake(self: Arc<Self>) {
        self.0.fetch_add(1, Ordering::SeqCst);
    }
}

fn counting_waker() -> (Arc<Counter>, Waker) {
    let counter = Arc::new(Counter(AtomicUsize::new(0)));
    (counter.clone(), Waker::from(counter))
}

fn wakes(counter: &Arc<Counter>) -> usize {
    counter.0.load(Ordering::SeqCst)
}

fn light() -> Retention {
    Retention { mcu: true, gpio_pads: false, ram: RamRetention::Kb96 }
}

#[test]
fn sleep_programs_timeouts_sources_and_mode() {
    let mut sources = WakeSources::default();
    sources.rtc = Some(1000);
    let program = sleep(SleepMode::Hibernate, sources, light());
    assert_eq!(
        program,
        vec![
            Op::Write { reg: Register::CrmRtcTimeout, value: 1000 },
            Op::Write { reg: Register::CrmWuCntl, value: 0x2_0002 },
            Op::Write { reg: Register::CrmSleepCntl, value: 0x71 },
            Op::WaitSet { reg: Register::CrmStatus, bits: 1 },
            Op::Write { reg: Register::CrmStatus, value: 1 },
            Op::WaitSet { reg: Register::CrmStatus, bits: 1 },
            Op::Read { reg: Register::CrmStatus },
        ]
    );
    sources.timer = Some(5);
    let program = sleep(SleepMode::Doze, sources, light());
    assert_eq!(program[0], Op::Write { reg: Register::CrmWuTimeout, value: 5 });
    assert_eq!(program[2], Op::Write { reg: Register::CrmWuCntl, value: 0x2_0003 });
}

#[test]
fn pins_have_enable_edge_and_polarity_bits() {
    let mut sources = WakeSources::default();
    assert!(!sources.any());
    sources.kbi[0] = Some(KbiWake { edge: true, active_high: false });
    sources.kbi[3] = Some(KbiWake { edge: false, active_high: true });
    assert!(sources.any());
    assert_eq!(wu_cntl(&sources), 0x10 | 0x100 | 0x80 | 0x8000);
}

#[test]
fn retention_is_packed() {
    let retention = |mcu, gpio_pads, ram| Retention { mcu, gpio_pads, ram };
    assert_eq!(sleep_cntl(SleepMode::Hibernate, retention(false, true, RamRetention::Kb8)), 0x01);
    assert_eq!(sleep_cntl(SleepMode::Doze, retention(true, true, RamRetention::Kb32)), 0xD2);
    assert_eq!(sleep_cntl(SleepMode::Doze, retention(true, false, RamRetention::Kb64)), 0x62);
}

#[test]
fn the_wake_reason_follows_the_status() {
    let reason = |status| woken(status).1;
    assert_eq!(reason(0x0008 | 0x0002 | 0x00F0), WakeReason::Rtc);
    assert_eq!(reason(0x0002 | 0x0010), WakeReason::Timer);
    assert_eq!(reason(0x0004), WakeReason::Timer);
    assert_eq!(reason(0x0010), WakeReason::Kbi(4));
    assert_eq!(reason(0x00C0), WakeReason::Kbi(6));
    assert_eq!(reason(0x0080 | 0x0200), WakeReason::Kbi(7));
    assert_eq!(reason(0x0200 | 0x0400), WakeReason::CalDone);
    assert_eq!(reason(0x0400), WakeReason::Cop);
    assert_eq!(reason(0x000C_0001), WakeReason::Unknown);
    assert_eq!(woken(0x000C_0009).0, Op::Write { reg: Register::CrmStatus, value: 0x000C_0009 });
}

#[test]
fn short_delays_are_counted() {
    let (delay, op) = Delay::new();
    assert_eq!(op, Op::Call(Call::RtcInitOsc { crystal: 0 }));
    assert_eq!(delay.delay_us(5), Op::Spin { iterations: 60 });
    assert_eq!(delay.delay_us(u32::MAX), Op::Spin { iterations: u32::MAX });
    assert_eq!(delay.delay_us(357_913_941), Op::Spin { iterations: 4_294_967_292 });
    assert_eq!(delay.delay_ns(1000), Op::Spin { iterations: 12 });
    assert_eq!(delay.delay_ns(83), Op::Spin { iterations: 0 });
    assert_eq!(delay.delay_ns(u32::MAX), Op::Spin { iterations: 51_539_607 });
    assert_eq!(delay.delay_ms(9), Op::Call(Call::RtcDelayMs { ms: 9 }));
}

#[test]
fn milliseconds_are_at_least_a_tick() {
    let (delay, _) = Delay::new();
    assert_eq!(delay.rtc_ticks(5, 2000), 10);
    assert_eq!(delay.rtc_ticks(0, 2000), 1);
    assert_eq!(delay.rtc_ticks(1, 999), 1);
    assert_eq!(delay.rtc_ticks(4_000_000_000, 2000), (8_000_000_000u64 % (1 << 32)) as u32);
}

#[test]
fn a_wait_ends_only_when_the_counter_says_so() {
    let (delay, _) = Delay::new();
    assert_eq!(
        delay.wait_rtc_ticks(),
        vec![
            Op::Write { reg: Register::IntEnnum, value: 3 },
            Op::Read { reg: Register::CrmRtcCount },
        ]
    );
    let mut wait = RtcWait::new(100, u32::MAX - 9);
    assert_eq!(
        wait.arm(),
        vec![
            Op::ClearBits { reg: Register::CrmWuCntl, bits: 0x2_0002 },
            Op::Write { reg: Register::CrmStatus, value: 8 },
            Op::Write { reg: Register::CrmRtcTimeout, value: 100 },
        ]
    );
    assert_eq!(wait.poll(0xFFFF_FFF7), Progress::Pending);
    assert_eq!(wait.enable_interrupt(), Op::SetBits { reg: Register::CrmWuCntl, bits: 0x2_0002 });
    assert_eq!(wait.poll(8), Progress::Ready(()));
    // The counter has wrapped: 40 ticks have gone by.
    assert!(!wait.woken(30));
    assert_eq!(wait.remaining, 60);
    assert!(!wait.woken(89));
    assert_eq!(wait.remaining, 1);
    assert!(wait.woken(90));
    assert_eq!(rtc_isr(), Op::ClearBits { reg: Register::CrmWuCntl, bits: 0x2_0000 });
}

#[test]
fn a_wait_for_nothing_programs_one_tick() {
    let mut wait = RtcWait::new(0, 7);
    assert_eq!(wait.remaining, 1);
    assert!(wait.woken(7));
}

#[test]
fn tick_counts_become_instants() {
    let (ring, op) = RtcRingOscillator::new();
    assert_eq!(op, Op::Call(Call::RtcInitOsc { crystal: 0 }));
    assert_eq!(ring.now(1234).as_ticks(), 1234);
    assert_eq!(ring.ticks(), Op::Read { reg: Register::CrmRtcCount });
    assert_eq!(ring.frequency_hz(), Op::Call(Call::RtcFreq));
    assert_eq!(ring.recalibrate(), Op::Call(Call::RtcCalibrate));
    let (crystal, op) = RtcCrystal::new();
    assert_eq!(op, Op::Call(Call::RtcInitOsc { crystal: 1 }));
    assert_eq!(crystal.now(u32::MAX).as_ticks(), u32::MAX);
    assert_eq!(crystal.ticks(), Op::Read { reg: Register::CrmRtcCount });
    assert_eq!(RtcCrystal::FREQUENCY_HZ, 32_000);
}

#[test]
fn the_timebase_is_started_once() {
    let mut driver = TmrDriver::new();
    let program = embassy::init(&mut driver);
    assert_eq!(program.len(), 6);
    assert_eq!(program[4], Op::Write { reg: Register::TmrCtrl, value: 0x3C00 });
    assert_eq!(program[5], Op::Read { reg: Register::TmrCntr });
    let (inside, outside) = started(&mut driver, 65_500);
    assert_eq!(
        inside,
        vec![
            Op::Write { reg: Register::TmrComp1, value: 339 },
            Op::Write { reg: Register::TmrEnbl, value: 0x0f },
        ]
    );
    assert_eq!(outside, Op::Write { reg: Register::IntEnnum, value: 5 });
    assert!(init(&mut driver).is_empty());
    assert!(embassy::init(&mut driver).is_empty());
    assert_eq!(tmr0_isr().len(), 3);
}

#[test]
fn time_is_read_from_the_counter() {
    let mut driver = TmrDriver::new();
    init(&mut driver);
    started(&mut driver, 65_000);
    assert_eq!(driver.now(65_000), 0);
    assert_eq!(driver.now(65_374), 0);
    assert_eq!(driver.now(65_375), 1);
    // Two periods on, past the turn of the counter.
    assert_eq!(driver.now(214), 2);
}

#[test]
fn a_late_interrupt_recovers_whole_periods() {
    let mut driver = TmrDriver::new();
    started(&mut driver, 100);
    let before = driver.now(100 + 3 * PERIOD + 74);
    let op = driver.on_tick(100 + 3 * PERIOD + 74);
    assert_eq!(op, Op::Write { reg: Register::TmrComp1, value: 100 + 4 * 375 });
    assert_eq!(driver.base, 3);
    assert_eq!(driver.last_boundary, 100 + 3 * PERIOD);
    assert_eq!(driver.now(100 + 3 * PERIOD + 74), before);
    // An early one changes nothing, and arms the same compare.
    assert_eq!(driver.on_tick(100 + 3 * PERIOD + 75), op);
    assert_eq!(driver.base, 3);
    assert_eq!(driver.last_boundary, 100 + 3 * PERIOD);
}

#[test]
fn a_late_interrupt_does_not_move_the_time() {
    let mut driver = TmrDriver::new();
    init(&mut driver);
    started(&mut driver, 0);
    driver.on_tick(560);
    assert_eq!(driver.now(560), 1);
    assert_eq!(driver.now(749), 1);
    assert_eq!(driver.now(750), 2);
}

#[test]
fn late_interrupts_do_not_add_up() {
    let mut driver = TmrDriver::new();
    started(&mut driver, 65_500);
    // A second of interrupts, each up to half a period late.
    for tick in 1..=1000u64 {
        let counts = tick * 375 + tick * 7 % 180;
        let cntr = ((65_500 + counts) % 65_536) as u16;
        let op = driver.on_tick(cntr);
        let compare = (65_500 + (tick + 1) * 375) % 65_536;
        assert_eq!(op, Op::Write { reg: Register::TmrComp1, value: compare as u32 });
        assert_eq!(driver.base, tick);
    }
}

#[test]
fn a_compare_that_has_passed_is_noticed() {
    let mut driver = TmrDriver::new();
    started(&mut driver, 65_300);
    assert!(!driver.is_overdue(65_300));
    assert!(!driver.is_overdue(65_535));
    assert!(!driver.is_overdue(138));
    assert!(driver.is_overdue(139));
    driver.on_tick(139);
    assert!(!driver.is_overdue(513));
    assert!(driver.is_overdue(514));
}

#[test]
fn timers_are_woken_when_they_are_due() {
    let mut driver = TmrDriver::new();
    started(&mut driver, 0);
    let (soon, soon_waker) = counting_waker();
    let (later, later_waker) = counting_waker();
    driver.schedule_wake(1, &soon_waker);
    driver.schedule_wake(3, &later_waker);
    driver.on_tick(PERIOD - 1);
    assert_eq!((wakes(&soon), wakes(&later)), (0, 0));
    driver.on_tick(PERIOD);
    assert_eq!((wakes(&soon), wakes(&later)), (1, 0));
    driver.on_tick(2 * PERIOD);
    assert_eq!((wakes(&soon), wakes(&later)), (1, 0));
    driver.on_tick(3 * PERIOD);
    assert_eq!((wakes(&soon), wakes(&later)), (1, 1));
    driver.on_tick(4 * PERIOD);
    assert_eq!((wakes(&soon), wakes(&later)), (1, 1));
}

#[test]
fn a_task_keeps_its_earliest_timer() {
    let mut driver = TmrDriver::new();
    started(&mut driver, 0);
    let (counter, waker) = counting_waker();
    driver.schedule_wake(5, &waker);
    driver.schedule_wake(2, &waker);
    driver.schedule_wake(9, &waker);
    driver.on_tick(2 * PERIOD);
    assert_eq!(wakes(&counter), 1);
    driver.on_tick(12 * PERIOD);
    assert_eq!(wakes(&counter), 1);
}

#[test]
fn a_full_queue_wakes_one_timer_early() {
    let mut driver = TmrDriver::new();
    let wakers: Vec<(Arc<Counter>, Waker)> = (0..65).map(|_| counting_waker()).collect();
    for (_, waker) in &wakers[..64] {
        driver.schedule_wake(1_000, waker);
    }
    assert_eq!(wakers.iter().map(|(counter, _)| wakes(counter)).sum::<usize>(), 0);
    driver.schedule_wake(1_000, &wakers[64].1);
    assert_eq!(wakers.iter().map(|(counter, _)| wakes(counter)).sum::<usize>(), 1);
    assert_eq!(wakes(&wakers[64].0), 0);
}

#[test]
fn the_tick_count_wraps_around() {
    let mut driver = TmrDriver::new();
    driver.base = u64::MAX;
    driver.on_tick(PERIOD);
    assert_eq!(driver.base, 0);
}

#[test]
fn wake_sources_compare_by_what_they_hold() {
    let timer = WakeSources { timer: Some(7), ..WakeSources::default() };
    assert_eq!(timer, WakeSources { timer: Some(7), ..WakeSources::default() });
    assert_ne!(timer, WakeSources::default());
}
