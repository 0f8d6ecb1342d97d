//! UARTs with 32-byte FIFOs.
use crate::port::{
    Call, Op, Progress, Register, INT_NUM_UART1, INT_NUM_UART2, PAD_DIR_INPUT, PAD_DIR_OUTPUT,
};
use vstd::prelude::*;

pub use crate::port::UartId;

verus! {

/// Control: transmitter and receiver on, both ready interrupts masked.
pub const UCON_ON_MASKED: u32 = 0x6003;
/// Control: mask of the transmit-ready interrupt.
pub const UCON_MTXR: u32 = 0x2000;
/// Control: mask of the receive-ready interrupt.
pub const UCON_MRXR: u32 = 0x4000;
/// Status: the receive FIFO has reached its watermark.
pub const USTAT_RXRDY: u32 = 0x40;
/// Status: the transmit FIFO has reached its watermark.
pub const USTAT_TXRDY: u32 = 0x80;
/// The lowest watermark: one byte, or one free slot.
pub const FIFO_WATERMARK: u32 = 1;
/// Slots of the transmit FIFO.
pub const TX_FIFO_DEPTH: u32 = 32;
/// Pad function of the UART pins.
pub const UART_FUNCTION: u8 = 1;

/// The transmit pin of a UART.
pub open spec fn tx_pin(id: UartId) -> u8 {
    match id {
        UartId::Uart1 => 14,
        UartId::Uart2 => 18,
    }
}

/// The receive pin of a UART.
pub open spec fn rx_pin(id: UartId) -> u8 {
    match id {
        UartId::Uart1 => 15,
        UartId::Uart2 => 19,
    }
}

/// The interrupt number of a UART.
pub open spec fn int_num(id: UartId) -> u32 {
    match id {
        UartId::Uart1 => INT_NUM_UART1,
        UartId::Uart2 => INT_NUM_UART2,
    }
}

/// The fill level in a FIFO level register.
pub open spec fn level(value: u32) -> u32 {
    value & 0x3F
}

/// UART on the given peripheral: 8 data bits, no parity, one stop bit.
#[derive(Debug, PartialEq, Eq, Structural)]
pub struct Uart {
    /// The peripheral.
    pub id: UartId,
}

impl Uart {
    /// A UART, with the program that configures and enables it at a baud rate.
    ///
    /// The UART is enabled before its pads are muxed, or they would stay in GPIO mode, and both
    /// ready interrupts stay masked until a wait unmasks them.
    pub fn new(id: UartId, baud: u32) -> (made: (Uart, Vec<Op>))
        ensures
            made.0 == (Uart { id }),
            made.1@ == seq![
                Op::Write { reg: Register::Ucon(id), value: UCON_ON_MASKED },
                Op::Write { reg: Register::Urxcon(id), value: FIFO_WATERMARK },
                Op::Write { reg: Register::Utxcon(id), value: FIFO_WATERMARK },
                Op::Call(Call::GpioSelectFunction { pin: tx_pin(id), function: UART_FUNCTION }),
                Op::Call(Call::GpioSelectFunction { pin: rx_pin(id), function: UART_FUNCTION }),
                Op::Call(Call::GpioSetPadDir { pin: tx_pin(id), dir: PAD_DIR_OUTPUT }),
                Op::Call(Call::GpioSetPadDir { pin: rx_pin(id), dir: PAD_DIR_INPUT }),
                Op::Call(Call::UartSetBaud { id, baud }),
                Op::Write { reg: Register::IntEnnum, value: int_num(id) },
            ],
    {
        let (tx, rx, number): (u8, u8, u32) = match id {
            UartId::Uart1 => (14, 15, INT_NUM_UART1),
            UartId::Uart2 => (18, 19, INT_NUM_UART2),
        };
        let program: Vec<Op> = vec![
            Op::Write { reg: Register::Ucon(id), value: UCON_ON_MASKED },
            Op::Write { reg: Register::Urxcon(id), value: FIFO_WATERMARK },
            Op::Write { reg: Register::Utxcon(id), value: FIFO_WATERMARK },
            Op::Call(Call::GpioSelectFunction { pin: tx, function: UART_FUNCTION }),
            Op::Call(Call::GpioSelectFunction { pin: rx, function: UART_FUNCTION }),
            Op::Call(Call::GpioSetPadDir { pin: tx, dir: PAD_DIR_OUTPUT }),
            Op::Call(Call::GpioSetPadDir { pin: rx, dir: PAD_DIR_INPUT }),
            Op::Call(Call::UartSetBaud { id, baud }),
            Op::Write { reg: Register::IntEnnum, value: number },
        ];
        (Uart { id }, program)
    }

    /// Enable or disable hardware RTS/CTS flow control.
    pub fn set_flow_control(&self, on: bool) -> (op: Op)
        ensures
            op == Op::Call(
                Call::UartFlowctl {
                    id: self.id,
                    on: if on {
                        1
                    } else {
                        0
                    },
                },
            ),
    {
        Op::Call(
            Call::UartFlowctl {
                id: self.id,
                on: if on {
                    1
                } else {
                    0
                },
            },
        )
    }

    /// Free slots in the transmit FIFO, from its level register.
    pub fn tx_free(&self, utxcon: u32) -> (free: u32)
        ensures
            free == level(utxcon),
    {
        utxcon & 0x3F
    }

    /// Bytes waiting in the receive FIFO, from its level register.
    pub fn rx_count(&self, urxcon: u32) -> (count: u32)
        ensures
            count == level(urxcon),
    {
        urxcon & 0x3F
    }

    /// Wait until the receive FIFO holds a byte: ready if it does, and otherwise to be asked
    /// again once [`Uart::unmask_rx`] has been performed and the interrupt has come.
    pub fn wait_rx_ready(&self, urxcon: u32) -> (progress: Progress<()>)
        ensures
            progress == (if level(urxcon) > 0 {
                Progress::Ready(())
            } else {
                Progress::Pending
            }),
    {
        if self.rx_count(urxcon) > 0 {
            Progress::Ready(())
        } else {
            Progress::Pending
        }
    }

    /// Wait until the transmit FIFO has a free slot, as [`Uart::wait_rx_ready`] does.
    pub fn wait_tx_ready(&self, utxcon: u32) -> (progress: Progress<()>)
        ensures
            progress == (if level(utxcon) > 0 {
                Progress::Ready(())
            } else {
                Progress::Pending
            }),
    {
        if self.tx_free(utxcon) > 0 {
            Progress::Ready(())
        } else {
            Progress::Pending
        }
    }

    /// Unmask the receive-ready interrupt.
    pub fn unmask_rx(&self) -> (op: Op)
        ensures
            op == (Op::ClearBits { reg: Register::Ucon(self.id), bits: UCON_MRXR }),
    {
        Op::ClearBits { reg: Register::Ucon(self.id), bits: UCON_MRXR }
    }

    /// Unmask the transmit-ready interrupt.
    pub fn unmask_tx(&self) -> (op: Op)
        ensures
            op == (Op::ClearBits { reg: Register::Ucon(self.id), bits: UCON_MTXR }),
    {
        Op::ClearBits { reg: Register::Ucon(self.id), bits: UCON_MTXR }
    }

    /// Begin to read up to `capacity` bytes.
    pub fn read(&self, capacity: usize) -> (reading: UartRead)
        ensures
            reading.bytes@ == Seq::<u8>::empty(),
            reading.capacity == capacity,
    {
        UartRead { bytes: Vec::new(), capacity }
    }

    /// Begin to write bytes.
    pub fn write(&self, bytes: &[u8]) -> (writing: UartWrite)
        ensures
            writing.well_formed(),
            writing.bytes@ == bytes@,
            writing.written == 0,
    {
        UartWrite { bytes: vstd::slice::slice_to_vec(bytes), written: 0 }
    }

    /// Whether everything has left the transmit FIFO, from its level register.
    pub fn flush(&self, utxcon: u32) -> (flushed: bool)
        ensures
            flushed == (level(utxcon) == TX_FIFO_DEPTH),
    {
        self.tx_free(utxcon) == TX_FIFO_DEPTH
    }
}

/// What a transfer needs next.
#[derive(Debug, Copy, Clone, PartialEq, Eq, Structural)]
pub enum UartNeed {
    /// Wait until the FIFO is ready, and ask again.
    Wait,
    /// Move one byte through the data register.
    Move,
    /// Nothing: the transfer is done.
    Nothing,
}

/// A read under way.
#[derive(Debug)]
pub struct UartRead {
    /// The bytes that were read so far.
    pub bytes: Vec<u8>,
    /// How many bytes may be read.
    pub capacity: usize,
}

impl UartRead {
    /// What is needed next: bytes are taken as long as there are any and there is room, and only
    /// the first is waited for.
    pub open spec fn spec_need(self, urxcon: u32) -> UartNeed {
        if self.bytes@.len() >= self.capacity {
            UartNeed::Nothing
        } else if level(urxcon) > 0 {
            UartNeed::Move
        } else if self.bytes@.len() == 0 {
            UartNeed::Wait
        } else {
            UartNeed::Nothing
        }
    }

    /// What is needed next, from the level register of the receive FIFO.
    pub fn need(&self, urxcon: u32) -> (need: UartNeed)
        ensures
            need == self.spec_need(urxcon),
    {
        if self.bytes.len() >= self.capacity {
            UartNeed::Nothing
        } else if urxcon & 0x3F > 0 {
            UartNeed::Move
        } else if self.bytes.len() == 0 {
            UartNeed::Wait
        } else {
            UartNeed::Nothing
        }
    }

    /// The data register held this value: its low byte was received.
    pub fn received(&mut self, udata: u32)
        requires
            old(self).bytes@.len() < old(self).capacity,
        ensures
            final(self).capacity == old(self).capacity,
            final(self).bytes@ == old(self).bytes@.push((udata % 0x100) as u8),
            final(self).bytes@.len() <= final(self).capacity,
    {
        self.bytes.push((udata % 0x100) as u8);
    }
}

/// A write under way.
#[derive(Debug)]
pub struct UartWrite {
    /// All bytes of the write.
    pub bytes: Vec<u8>,
    /// How many of them were written.
    pub written: usize,
}

impl UartWrite {
    /// No more was written than there is.
    pub open spec fn well_formed(self) -> bool {
        self.written <= self.bytes@.len()
    }

    /// What is needed next: every byte waits for a free slot.
    pub open spec fn spec_need(self, utxcon: u32) -> UartNeed {
        if self.written >= self.bytes@.len() {
            UartNeed::Nothing
        } else if level(utxcon) > 0 {
            UartNeed::Move
        } else {
            UartNeed::Wait
        }
    }

    /// What is needed next, from the level register of the transmit FIFO.
    pub fn need(&self, utxcon: u32) -> (need: UartNeed)
        ensures
            need == self.spec_need(utxcon),
    {
        if self.written >= self.bytes.len() {
            UartNeed::Nothing
        } else if utxcon & 0x3F > 0 {
            UartNeed::Move
        } else {
            UartNeed::Wait
        }
    }

    /// The write of the next byte to the data register.
    pub fn send(&mut self, id: UartId) -> (op: Op)
        requires
            old(self).written < old(self).bytes@.len(),
        ensures
            op == (Op::Write {
                reg: Register::Udata(id),
                value: old(self).bytes@[old(self).written as int] as u32,
            }),
            final(self).well_formed(),
            final(self).bytes == old(self).bytes,
            final(self).written == old(self).written + 1,
    {
        let byte: u8 = self.bytes[self.written];
        assert(self.written < self.bytes.len());
        self.written = self.written + 1;
        Op::Write { reg: Register::Udata(id), value: byte as u32 }
    }
}

/// What a ready interrupt leads to.
#[derive(Debug, Copy, Clone, PartialEq, Eq, Structural)]
pub struct UartWake {
    /// The operation that masks what has become ready, if anything has.
    pub mask: Option<Op>,
    /// Wake the task that waits to receive.
    pub rx: bool,
    /// Wake the task that waits to transmit.
    pub tx: bool,
}

/// A UART's ready interrupt, from its status register: mask exactly what has become ready, which
/// is all that lets the interrupt end, and wake whoever waits for it.
pub fn uart_isr_common(id: UartId, ustat: u32) -> (wake: UartWake)
    ensures
        wake.rx == (ustat & USTAT_RXRDY != 0),
        wake.tx == (ustat & USTAT_TXRDY != 0),
        wake.mask == (if wake.rx && wake.tx {
            Some(Op::SetBits { reg: Register::Ucon(id), bits: 0x6000 })
        } else if wake.rx {
            Some(Op::SetBits { reg: Register::Ucon(id), bits: UCON_MRXR })
        } else if wake.tx {
            Some(Op::SetBits { reg: Register::Ucon(id), bits: UCON_MTXR })
        } else {
            None
        }),
{
    let rx: bool = ustat & USTAT_RXRDY != 0;
    let tx: bool = ustat & USTAT_TXRDY != 0;
    let mut bits: u32 = 0;
    if rx {
        bits = bits + UCON_MRXR;
    }
    if tx {
        bits = bits + UCON_MTXR;
    }
    let mask: Option<Op> = if bits != 0 {
        Some(Op::SetBits { reg: Register::Ucon(id), bits })
    } else {
        None
    };
    UartWake { mask, rx, tx }
}

/// The UARTs share neither registers nor pins nor interrupts.
pub proof fn law_uarts_are_independent(register: Register)
    requires
        register == Register::Ucon(UartId::Uart1) || register == Register::Ustat(UartId::Uart1)
            || register == Register::Udata(UartId::Uart1) || register == Register::Urxcon(
            UartId::Uart1,
        ) || register == Register::Utxcon(UartId::Uart1),
    ensures
        register.spec_address() != Register::Ucon(UartId::Uart2).spec_address(),
        register.spec_address() != Register::Ustat(UartId::Uart2).spec_address(),
        register.spec_address() != Register::Udata(UartId::Uart2).spec_address(),
        register.spec_address() != Register::Urxcon(UartId::Uart2).spec_address(),
        register.spec_address() != Register::Utxcon(UartId::Uart2).spec_address(),
        tx_pin(UartId::Uart1) != tx_pin(UartId::Uart2),
        rx_pin(UartId::Uart1) != rx_pin(UartId::Uart2),
        int_num(UartId::Uart1) != int_num(UartId::Uart2),
{
}

/// The fill level is the number in the low six bits of a level register, whatever its other bits
/// say.
pub proof fn law_level_is_in_the_low_bits(value: u32)
    ensures
        level(value) == value % 64,
{
    assert(value & 0x3F == value % 64) by (bit_vector);
}

/// UART1 transmits on GPIO14 and receives on GPIO15, UART2 on GPIO18 and GPIO19; their interrupts
/// are numbers 1 and 2.
pub proof fn law_uart_pins(id: UartId)
    ensures
        tx_pin(id) == (if id == UartId::Uart1 {
            14int
        } else {
            18int
        }),
        rx_pin(id) == tx_pin(id) + 1,
        int_num(id) == (if id == UartId::Uart1 {
            1int
        } else {
            2int
        }),
{
}

/// A read takes what there is as long as there is room for it; it waits for its first byte only,
/// and is over once it is full, or has something and finds no more.
pub proof fn law_read_takes_what_there_is(reading: UartRead, urxcon: u32)
    ensures
        ({
            let need = reading.spec_need(urxcon);
            let room = reading.bytes@.len() < reading.capacity;
            &&& need == UartNeed::Move <==> room && urxcon % 64 > 0
            &&& need == UartNeed::Wait <==> room && urxcon % 64 == 0 && reading.bytes@.len() == 0
        }),
{
    law_level_is_in_the_low_bits(urxcon);
}

/// A write is over exactly once every byte was written, and each byte waits for a free slot.
pub proof fn law_write_sends_every_byte(writing: UartWrite, utxcon: u32)
    ensures
        ({
            let need = writing.spec_need(utxcon);
            let left = writing.written < writing.bytes@.len();
            &&& need == UartNeed::Move <==> left && utxcon % 64 > 0
            &&& need == UartNeed::Wait <==> left && utxcon % 64 == 0
        }),
{
    law_level_is_in_the_low_bits(utxcon);
}

} // verus!
