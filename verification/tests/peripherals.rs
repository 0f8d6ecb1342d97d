use mc1322x::adc::Adc;
use mc1322x::board;
use mc1322x::critical::{acquire, release};
use mc1322x::gpio::Pin;
use mc1322x::port::{Call, Op, Progress, Register, Width};
use mc1322x::power::{board_xtal_cntl, power_up_regulators, trim_xtal, XtalTrim};
use mc1322x::pwm::Pwm;
use mc1322x::rng::{ensure_maca_ready, maca_bring_up, Rng};
use mc1322x::util::{yield_now, WakerCell};
use portable_atomic::AtomicBool;

#[test]
fn samples_are_selected_by_channel() {
    let (adc, op) = Adc::new();
    assert_eq!(op, Op::Call(Call::AdcInit));
    assert_eq!(adc.enable_channel(7), Op::Call(Call::AdcSetupChan { channel: 7 }));
    assert_eq!(adc.read(), Op::Call(Call::AdcFlush));
    assert_eq!(adc.select(3, 0x3ABC), Some(0xABC));
    assert_eq!(adc.select(8, 0x3ABC), None);
    assert_eq!(adc.select(8, 0x8FFF), Some(4095));
    assert_eq!(adc.select(255, 0xFFFF), None);
}

#[test]
fn readings_become_millivolts() {
    let (adc, _) = Adc::new();
    assert_eq!(adc.voltage(1489, 1489), 1200);
    assert_eq!(adc.voltage(2000, 1000), 600);
    assert_eq!(adc.voltage(1, 4095), 4_914_000);
    assert_eq!(adc.battery_voltage(1489), 4_914_000 / 1489 + 183);
    assert_eq!(adc.battery_voltage(4095), 1383);
}

#[test]
fn an_output_gets_its_level_before_its_direction() {
    let pin = Pin::new(23);
    assert_eq!(pin.pin_number(), 23);
    let (same, program) = pin.into_output(true);
    assert_eq!(same, pin);
    assert_eq!(
        program,
        vec![
            Op::Call(Call::GpioSelectFunction { pin: 23, function: 0 }),
            Op::Call(Call::GpioSet { pin: 23 }),
            Op::Call(Call::GpioSetPadDir { pin: 23, dir: 1 }),
        ]
    );
    assert_eq!(pin.into_output(false).1[1], Op::Call(Call::GpioReset { pin: 23 }));
    assert_eq!(
        pin.into_input().1,
        vec![
            Op::Call(Call::GpioSelectFunction { pin: 23, function: 0 }),
            Op::Call(Call::GpioSetPadDir { pin: 23, dir: 0 }),
        ]
    );
    assert_eq!(pin.set_low(), Op::Call(Call::GpioReset { pin: 23 }));
    assert_eq!(pin.set_high(), Op::Call(Call::GpioSet { pin: 23 }));
    assert_eq!(pin.read(), Op::Call(Call::GpioRead { pin: 23 }));
}

#[test]
fn a_timer_is_never_started_at_zero() {
    let mut pwm = Pwm::new(2, 50_000);
    assert_eq!(pwm.max_duty_cycle(), 65535);
    assert_eq!(
        pwm.set_duty_cycle(0),
        vec![
            Op::Call(Call::PwmInit { timer: 2, rate: 50_000, duty: 32768, enable: 1 }),
            Op::Call(Call::PwmDuty { timer: 2, duty: 0 }),
        ]
    );
    assert_eq!(pwm.set_duty_cycle(0), vec![Op::Call(Call::PwmDuty { timer: 2, duty: 0 })]);
    let mut pwm = Pwm::new(1, 100);
    assert_eq!(
        pwm.set_duty_cycle(1),
        vec![Op::Call(Call::PwmInit { timer: 1, rate: 100, duty: 1, enable: 1 })]
    );
    assert_eq!(
        pwm.set_duty_cycle(65535),
        vec![Op::Call(Call::PwmDuty { timer: 1, duty: 65535 })]
    );
}

#[test]
fn the_radio_block_is_brought_up_once() {
    let mut ready = AtomicBool::new(false);
    let program = ensure_maca_ready(&mut ready);
    assert_eq!(program, maca_bring_up(false));
    assert_eq!(program.len(), 8);
    assert_eq!(program[0], trim_xtal());
    assert_eq!(program[7], Op::Call(Call::MacaInit));
    assert!(ensure_maca_ready(&mut ready).is_empty());
    assert!(ensure_maca_ready(&mut ready).is_empty());
    assert!(maca_bring_up(true).is_empty());
}

#[test]
fn numbers_are_made_of_reads() {
    let rng = Rng::new();
    assert_eq!(rng, Rng::default());
    assert_eq!(rng.seed(5), Op::Write { reg: Register::MacaRandom, value: 5 });
    assert_eq!(rng.read(), Op::Read { reg: Register::MacaRandom });
    assert_eq!(rng.seed_and_read(5), vec![rng.seed(5), rng.read()]);
    assert_eq!(rng.try_next_u64(0x0102_0304, 0xA0B0_C0D0), 0x0102_0304_A0B0_C0D0);
    assert_eq!(rng.reads_for(0), 0);
    assert_eq!(rng.reads_for(4), 1);
    assert_eq!(rng.reads_for(5), 2);
    let mut bytes = [0u8; 6];
    rng.try_fill_bytes(&mut bytes, &[0x0403_0201, 0x0807_0605]);
    assert_eq!(bytes, [1, 2, 3, 4, 5, 6]);
}

#[test]
fn the_trim_is_packed() {
    let trim = XtalTrim { ctune_4pf: 1, ctune: 2, ftune: 3, ibias: 4 };
    assert_eq!(trim.pack(), (1 << 25) + (2 << 21) + (3 << 16) + (4 << 8) + 0x52);
    assert_eq!(board::xtal_trim().pack(), 0x0367_1F52);
    assert_eq!(board_xtal_cntl(), 0x0367_1F52);
    assert_eq!(trim_xtal(), Op::Write { reg: Register::CrmXtalCntl, value: 0x0367_1F52 });
}

#[test]
fn the_regulators_are_waited_for() {
    let program = power_up_regulators();
    assert_eq!(
        program,
        vec![
            Op::Write { reg: Register::CrmSysCntl, value: 0x18 },
            Op::Write { reg: Register::CrmVregCntl, value: 0xf04 },
            Op::Spin { iterations: 0x161a8 },
            Op::Write { reg: Register::CrmVregCntl, value: 0xff8 },
            Op::WaitSet { reg: Register::CrmStatus, bits: 1 << 19 },
            Op::WaitSet { reg: Register::CrmStatus, bits: 1 << 18 },
        ]
    );
}

#[test]
fn a_critical_section_puts_the_enables_back() {
    assert_eq!(
        acquire(),
        vec![
            Op::Read { reg: Register::IntEnable },
            Op::Write { reg: Register::IntEnable, value: 0 },
        ]
    );
    assert_eq!(release(0x2A), Op::Write { reg: Register::IntEnable, value: 0x2A });
}

#[test]
fn registers_have_addresses_and_widths() {
    assert_eq!(Register::CrmStatus.address(), 0x8000_3018);
    assert_eq!(Register::CrmStatus.width(), Width::Word);
    assert_eq!(Register::I2cDr.address(), 0x8000_6010);
    assert_eq!(Register::I2cDr.width(), Width::Byte);
    assert_eq!(Register::TmrCntr.address(), 0x8000_700A);
    assert_eq!(Register::TmrCntr.width(), Width::Half);
    assert_eq!(Register::MacaRandom.address(), 0x8000_4008);
    assert_eq!(Register::IntEnable.address(), 0x8002_0010);
}

#[test]
fn a_waker_is_taken_once() {
    let mut cell = WakerCell::new();
    assert_eq!(cell.wake(), None);
    cell.set(1);
    cell.set(2);
    assert_eq!(cell.wake(), Some(2));
    assert_eq!(cell.wake(), None);
}

#[test]
fn yielding_is_done_once() {
    let mut future = yield_now();
    assert_eq!(future.poll(), Progress::Pending);
    assert_eq!(future.poll(), Progress::Ready(()));
    assert_eq!(future.poll(), Progress::Ready(()));
}

#[test]
fn an_enable_inside_a_critical_section_does_not_last() {
    let mut enables = 0x0000_0402u32;
    let saved = enables;
    let mut program = acquire();
    program.push(Op::Write { reg: Register::IntEnnum, value: 5 });
    program.push(release(saved));
    for op in program {
        match op {
            Op::Write { reg: Register::IntEnable, value } => enables = value,
            Op::Write { reg: Register::IntEnnum, value } => {
                enables |= 1 << value;
                assert_eq!(enables, 0x20);
            }
            other => assert_eq!(other, Op::Read { reg: Register::IntEnable }),
        }
    }
    assert_eq!(enables, 0x0000_0402);
}
