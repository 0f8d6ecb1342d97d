use mc1322x::port::{Call, Op, Progress, Register};
use mc1322x::spi::{spi_isr, spi_sck_freq_divisor, Mode, Spi};
use mc1322x::uart::{uart_isr_common, Uart, UartId, UartNeed};

#[test]
fn uart1_is_set_up() {
    let (uart, program) = Uart::new(UartId::Uart1, 115_200);
    assert_eq!(uart, Uart { id: UartId::Uart1 });
    assert_eq!(
        program,
        vec![
            Op::Write { reg: Register::Ucon(UartId::Uart1), value: 0x6003 },
            Op::Write { reg: Register::Urxcon(UartId::Uart1), value: 1 },
            Op::Write { reg: Register::Utxcon(UartId::Uart1), value: 1 },
            Op::Call(Call::GpioSelectFunction { pin: 14, function: 1 }),
            Op::Call(Call::GpioSelectFunction { pin: 15, function: 1 }),
            Op::Call(Call::GpioSetPadDir { pin: 14, dir: 1 }),
            Op::Call(Call::GpioSetPadDir { pin: 15, dir: 0 }),
            Op::Call(Call::UartSetBaud { id: UartId::Uart1, baud: 115_200 }),
            Op::Write { reg: Register::IntEnnum, value: 1 },
        ]
    );
}

#[test]
fn uart2_has_its_own_pins_and_interrupt() {
    let (uart, program) = Uart::new(UartId::Uart2, 9600);
    assert_eq!(program[3], Op::Call(Call::GpioSelectFunction { pin: 18, function: 1 }));
    assert_eq!(program[6], Op::Call(Call::GpioSetPadDir { pin: 19, dir: 0 }));
    assert_eq!(program[8], Op::Write { reg: Register::IntEnnum, value: 2 });
    assert_eq!(
        uart.set_flow_control(true),
        Op::Call(Call::UartFlowctl { id: UartId::Uart2, on: 1 })
    );
    assert_eq!(
        uart.set_flow_control(false),
        Op::Call(Call::UartFlowctl { id: UartId::Uart2, on: 0 })
    );
    assert_eq!(Register::Udata(UartId::Uart2).address(), 0x8000_B008);
    assert_eq!(Register::Udata(UartId::Uart1).address(), 0x8000_5008);
}

#[test]
fn fifo_levels_are_six_bits() {
    let (uart, _) = Uart::new(UartId::Uart1, 9600);
    assert_eq!(uart.tx_free(0xFFE0), 32);
    assert_eq!(uart.rx_count(0x45), 5);
    assert!(uart.flush(0x20));
    assert!(!uart.flush(0x1F));
    assert_eq!(uart.wait_rx_ready(0x40), Progress::Pending);
    assert_eq!(uart.wait_rx_ready(0x41), Progress::Ready(()));
    assert_eq!(uart.wait_tx_ready(0), Progress::Pending);
    assert_eq!(uart.wait_tx_ready(1), Progress::Ready(()));
    assert_eq!(
        uart.unmask_rx(),
        Op::ClearBits { reg: Register::Ucon(UartId::Uart1), bits: 0x4000 }
    );
    assert_eq!(
        uart.unmask_tx(),
        Op::ClearBits { reg: Register::Ucon(UartId::Uart1), bits: 0x2000 }
    );
}

#[test]
fn a_read_waits_for_the_first_byte_only() {
    let (uart, _) = Uart::new(UartId::Uart1, 9600);
    let mut reading = uart.read(4);
    assert_eq!(reading.need(0), UartNeed::Wait);
    assert_eq!(reading.need(2), UartNeed::Move);
    reading.received(0x0000_0141);
    assert_eq!(reading.need(1), UartNeed::Move);
    reading.received(0x42);
    assert_eq!(reading.need(0), UartNeed::Nothing);
    assert_eq!(reading.bytes, vec![0x41, 0x42]);
}

#[test]
fn a_read_stops_when_it_is_full() {
    let (uart, _) = Uart::new(UartId::Uart1, 9600);
    assert_eq!(uart.read(0).need(5), UartNeed::Nothing);
    let mut reading = uart.read(1);
    reading.received(7);
    assert_eq!(reading.need(31), UartNeed::Nothing);
}

#[test]
fn a_write_sends_every_byte_in_order() {
    let (uart, _) = Uart::new(UartId::Uart2, 9600);
    let mut writing = uart.write(&[1, 2, 3]);
    let mut sent = Vec::new();
    assert_eq!(writing.need(0), UartNeed::Wait);
    while writing.need(32) == UartNeed::Move {
        sent.push(writing.send(UartId::Uart2));
    }
    let data = |value| Op::Write { reg: Register::Udata(UartId::Uart2), value };
    assert_eq!(sent, vec![data(1), data(2), data(3)]);
    assert_eq!(writing.need(0), UartNeed::Nothing);
    assert_eq!(uart.write(&[]).need(0), UartNeed::Nothing);
}

#[test]
fn the_interrupt_masks_what_is_ready() {
    let set = |bits| Some(Op::SetBits { reg: Register::Ucon(UartId::Uart1), bits });
    let both = uart_isr_common(UartId::Uart1, 0xC0);
    assert_eq!((both.mask, both.rx, both.tx), (set(0x6000), true, true));
    let rx = uart_isr_common(UartId::Uart1, 0x40);
    assert_eq!((rx.mask, rx.rx, rx.tx), (set(0x4000), true, false));
    let tx = uart_isr_common(UartId::Uart1, 0x80);
    assert_eq!((tx.mask, tx.rx, tx.tx), (set(0x2000), false, true));
    let none = uart_isr_common(UartId::Uart1, 0x3F);
    assert_eq!((none.mask, none.rx, none.tx), (None, false, false));
}

#[test]
fn the_clock_does_not_exceed_what_was_asked_for() {
    assert_eq!(spi_sck_freq_divisor(24_000_000), 0);
    assert_eq!(spi_sck_freq_divisor(12_000_000), 0);
    assert_eq!(spi_sck_freq_divisor(11_999_999), 1);
    assert_eq!(spi_sck_freq_divisor(1_000_000), 4);
    assert_eq!(spi_sck_freq_divisor(93_750), 7);
    assert_eq!(spi_sck_freq_divisor(0), 7);
}

#[test]
fn the_bus_is_set_up_for_its_mode() {
    let setup = |mode| Spi::new(1_000_000, mode).1[6];
    let write = |value| Op::Write { reg: Register::SpiSetup, value };
    assert_eq!(setup(Mode::Mode0), write(0x4032));
    assert_eq!(setup(Mode::Mode1), write(0x4232));
    assert_eq!(setup(Mode::Mode2), write(0x4132));
    assert_eq!(setup(Mode::Mode3), write(0x4332));
    let (_, program) = Spi::new(1, Mode::Mode0);
    assert_eq!(program[5], Op::Call(Call::GpioSetPadDir { pin: 5, dir: 0 }));
    assert_eq!(program[6], write(0x7032));
}

#[test]
fn a_byte_goes_out_on_top_and_comes_in_below() {
    let (spi, _) = Spi::new(1_000_000, Mode::Mode0);
    assert_eq!(
        spi.start_transfer(0xA5),
        vec![
            Op::Write { reg: Register::SpiTxData, value: 0xA500_0000 },
            Op::Write { reg: Register::SpiClkCtrl, value: 0x788 },
        ]
    );
    assert_eq!(spi.poll_transfer_status(0xFFFF_FFFE), Progress::Pending);
    assert_eq!(
        spi.poll_transfer_status(1),
        Progress::Ready(vec![
            Op::Read { reg: Register::SpiRxData },
            Op::Write { reg: Register::SpiStatus, value: 1 },
        ])
    );
    assert_eq!(spi.received(0x1234_56FE), 0xFE);
    assert_eq!(spi.enable_interrupt(), Op::Write { reg: Register::IntEnnum, value: 10 });
    assert_eq!(spi_isr(), Op::Write { reg: Register::IntDisnum, value: 10 });
}

#[test]
fn transfers_last_as_long_as_the_longer_side() {
    let (spi, _) = Spi::new(1_000_000, Mode::Mode0);
    assert_eq!(spi.transfer(4, &[1, 2]).words, vec![1, 2, 0xFF, 0xFF]);
    assert_eq!(spi.transfer(1, &[1, 2, 3]).words, vec![1, 2, 3]);
    assert_eq!(spi.read(2).words, vec![0xFF, 0xFF]);
    assert_eq!(spi.write(&[5, 6]).words, vec![5, 6]);
    assert_eq!(spi.transfer_in_place(&[5, 6]).words, vec![5, 6]);
    assert!(spi.transfer(0, &[]).next().is_none());
}

#[test]
fn every_byte_gets_its_reply() {
    let (spi, _) = Spi::new(1_000_000, Mode::Mode0);
    let mut transfer = spi.transfer(3, &[10, 20]);
    let mut sent = Vec::new();
    while let Some(word) = transfer.next() {
        sent.push(word);
        transfer.replied(word.wrapping_add(1));
    }
    assert_eq!(sent, vec![10, 20, 0xFF]);
    assert_eq!(transfer.replies, vec![11, 21, 0]);
}
