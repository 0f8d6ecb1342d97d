//! Master-mode SPI bus on GPIO5 (MISO), GPIO6 (MOSI) and GPIO7 (SCK).
use crate::port::{
    Call, Op, Progress, Register, INT_NUM_SPI, PAD_DIR_INPUT, PAD_DIR_OUTPUT, REF_OSC,
};
use vstd::prelude::*;

verus! {

/// Status: a transfer is complete.
pub const SPI_INT: u32 = 1;
/// Setup: idle levels and slave select timing.
pub const SPI_IDLE_SETUP: u32 = 0x32;
/// Clock control: start a transfer of eight bits, one clock period for each.
pub const SPI_START_BYTE: u32 = 0x788;
/// What is sent where only the reply counts.
pub const FILLER: u8 = 0xFF;
/// Pad function of the SPI pins.
pub const SPI_ALT_FUNCTION: u8 = 1;
/// GPIO of the clock.
pub const SPI_SCK_PIN: u8 = 7;
/// GPIO of the output.
pub const SPI_MOSI_PIN: u8 = 6;
/// GPIO of the input.
pub const SPI_MISO_PIN: u8 = 5;

/// SPI bus clock mode.
#[derive(Debug, Copy, Clone, PartialEq, Eq, Structural)]
pub enum Mode {
    /// CPOL = 0, CPHA = 0
    Mode0,
    /// CPOL = 0, CPHA = 1
    Mode1,
    /// CPOL = 1, CPHA = 0
    Mode2,
    /// CPOL = 1, CPHA = 1
    Mode3,
}

impl Mode {
    /// The setup bits of the mode: polarity in bit 8, phase in bit 9.
    pub open spec fn spec_bits(self) -> int {
        match self {
            Mode::Mode0 => 0,
            Mode::Mode1 => 0x200,
            Mode::Mode2 => 0x100,
            Mode::Mode3 => 0x300,
        }
    }

    /// The setup bits of the mode: polarity in bit 8, phase in bit 9.
    pub fn bits(self) -> (bits: u32)
        ensures
            bits == self.spec_bits(),
            bits / 0x100 % 2 == 1 <==> self == Mode::Mode2 || self == Mode::Mode3,
            bits / 0x200 % 2 == 1 <==> self == Mode::Mode1 || self == Mode::Mode3,
            bits % 0x100 == 0 && bits < 0x400,
    {
        match self {
            Mode::Mode0 => 0,
            Mode::Mode1 => 0x200,
            Mode::Mode2 => 0x100,
            Mode::Mode3 => 0x300,
        }
    }
}

/// The clock rate of a divider field: the reference clock over two to the field plus one.
pub open spec fn sck_rate(field: int) -> int {
    if field == 0 {
        12_000_000
    } else if field == 1 {
        6_000_000
    } else if field == 2 {
        3_000_000
    } else if field == 3 {
        1_500_000
    } else if field == 4 {
        750_000
    } else if field == 5 {
        375_000
    } else if field == 6 {
        187_500
    } else {
        93_750
    }
}

/// `field` gives the highest clock rate that does not exceed `frequency`, or the lowest of all
/// where none is low enough.
pub open spec fn is_sck_field(frequency: u32, field: int) -> bool {
    &&& 0 <= field <= 7
    &&& field < 7 ==> sck_rate(field) <= frequency
    &&& forall|faster: int| 0 <= faster < field ==> #[trigger] sck_rate(faster) > frequency
}

/// One divider field answers a frequency.
pub proof fn law_sck_field_is_unique(frequency: u32, a: int, b: int)
    requires
        is_sck_field(frequency, a),
        is_sck_field(frequency, b),
    ensures
        a == b,
{
    if a < b {
        assert(sck_rate(a) > frequency);
    } else if b < a {
        assert(sck_rate(b) > frequency);
    }
}

/// The divider field for a frequency.
pub fn spi_sck_freq_divisor(frequency: u32) -> (field: u8)
    ensures
        is_sck_field(frequency, field as int),
{
    let mut field: u8 = 0;
    let mut rate: u32 = REF_OSC / 2;
    while field < 7 && rate > frequency
        invariant
            field <= 7,
            rate == sck_rate(field as int),
            forall|faster: int| 0 <= faster < field ==> #[trigger] sck_rate(faster) > frequency,
        decreases 7 - field,
    {
        field = field + 1;
        rate = rate / 2;
    }
    field
}

/// Master-mode SPI bus. The chip-select pin is not managed here.
#[derive(Debug, PartialEq, Eq, Structural)]
pub struct Spi;

/// The program of a bus whose divider field is `field`.
pub open spec fn setup_program(field: int, mode: Mode) -> Seq<Op> {
    seq![
        Op::Call(Call::GpioSelectFunction { pin: SPI_SCK_PIN, function: SPI_ALT_FUNCTION }),
        Op::Call(Call::GpioSelectFunction { pin: SPI_MOSI_PIN, function: SPI_ALT_FUNCTION }),
        Op::Call(Call::GpioSelectFunction { pin: SPI_MISO_PIN, function: SPI_ALT_FUNCTION }),
        Op::Call(Call::GpioSetPadDir { pin: SPI_SCK_PIN, dir: PAD_DIR_OUTPUT }),
        Op::Call(Call::GpioSetPadDir { pin: SPI_MOSI_PIN, dir: PAD_DIR_OUTPUT }),
        Op::Call(Call::GpioSetPadDir { pin: SPI_MISO_PIN, dir: PAD_DIR_INPUT }),
        Op::Write {
            reg: Register::SpiSetup,
            value: (field * 0x1000 + mode.spec_bits() + SPI_IDLE_SETUP) as u32,
        },
    ]
}

impl Spi {
    /// A bus, with the program that sets it up at the highest clock rate that does not exceed
    /// `frequency`, or at the lowest there is.
    pub fn new(frequency: u32, mode: Mode) -> (made: (Spi, Vec<Op>))
        ensures
            made.0 == Spi,
            exists|field: int|
                #[trigger] is_sck_field(frequency, field) && made.1@ == setup_program(field, mode),
    {
        let field: u8 = spi_sck_freq_divisor(frequency);
        let setup: u32 = field as u32 * 0x1000 + mode.bits() + SPI_IDLE_SETUP;
        let program: Vec<Op> = vec![
            Op::Call(Call::GpioSelectFunction { pin: SPI_SCK_PIN, function: SPI_ALT_FUNCTION }),
            Op::Call(Call::GpioSelectFunction { pin: SPI_MOSI_PIN, function: SPI_ALT_FUNCTION }),
            Op::Call(Call::GpioSelectFunction { pin: SPI_MISO_PIN, function: SPI_ALT_FUNCTION }),
            Op::Call(Call::GpioSetPadDir { pin: SPI_SCK_PIN, dir: PAD_DIR_OUTPUT }),
            Op::Call(Call::GpioSetPadDir { pin: SPI_MOSI_PIN, dir: PAD_DIR_OUTPUT }),
            Op::Call(Call::GpioSetPadDir { pin: SPI_MISO_PIN, dir: PAD_DIR_INPUT }),
            Op::Write { reg: Register::SpiSetup, value: setup },
        ];
        assert(program@ =~= setup_program(field as int, mode));
        (Spi, program)
    }

    /// Kick off one 8-bit transfer: the byte goes into the top of the data register.
    pub fn start_transfer(&self, tx: u8) -> (program: Vec<Op>)
        ensures
            program@ == seq![
                Op::Write { reg: Register::SpiTxData, value: (tx * 0x100_0000) as u32 },
                Op::Write { reg: Register::SpiClkCtrl, value: SPI_START_BYTE },
            ],
    {
        vec![
            Op::Write { reg: Register::SpiTxData, value: tx as u32 * 0x100_0000 },
            Op::Write { reg: Register::SpiClkCtrl, value: SPI_START_BYTE },
        ]
    }

    /// Judge the status of a transfer: once it is complete, the program that reads the data
    /// register and clears the flag. [`Spi::received`] takes what it reads.
    pub fn poll_transfer_status(&self, status: u32) -> (progress: Progress<Vec<Op>>)
        ensures
            status & SPI_INT == 0 ==> progress is Pending,
            status & SPI_INT != 0 ==> (progress matches Progress::Ready(program) && program@
                == seq![
                Op::Read { reg: Register::SpiRxData },
                Op::Write { reg: Register::SpiStatus, value: SPI_INT },
            ]),
    {
        if status & SPI_INT == 0 {
            return Progress::Pending;
        }
        let program: Vec<Op> = vec![
            Op::Read { reg: Register::SpiRxData },
            Op::Write { reg: Register::SpiStatus, value: SPI_INT },
        ];
        Progress::Ready(program)
    }

    /// The byte that was received: the low byte of the data register.
    pub fn received(&self, rx_data: u32) -> (byte: u8)
        ensures
            byte == rx_data % 0x100,
    {
        (rx_data % 0x100) as u8
    }

    /// Enable the completion interrupt before waiting for it. The module has no mask of its own.
    pub fn enable_interrupt(&self) -> (op: Op)
        ensures
            op == (Op::Write { reg: Register::IntEnnum, value: INT_NUM_SPI }),
    {
        Op::Write { reg: Register::IntEnnum, value: INT_NUM_SPI }
    }

    /// Begin a transfer that sends `write` and receives `read_length` bytes: it lasts as long as
    /// the longer of the two needs, with filler behind the end of `write`. The first
    /// `read_length` replies are the bytes received.
    pub fn transfer(&self, read_length: usize, write: &[u8]) -> (transfer: SpiTransfer)
        ensures
            transfer.replies@ == Seq::<u8>::empty(),
            transfer.words@ == Seq::new(
                if read_length > write@.len() {
                    read_length as nat
                } else {
                    write@.len()
                },
                |i: int|
                    if i < write@.len() {
                        write@[i]
                    } else {
                        FILLER
                    },
            ),
    {
        let mut words: Vec<u8> = vstd::slice::slice_to_vec(write);
        while words.len() < read_length
            invariant
                write@.len() <= words@.len(),
                words@.len() <= read_length || words@.len() == write@.len(),
                forall|i: int| 0 <= i < write@.len() ==> words@[i] == write@[i],
                forall|i: int| write@.len() <= i < words@.len() ==> words@[i] == FILLER,
            decreases read_length - words@.len(),
        {
            words.push(FILLER);
        }
        SpiTransfer { words, replies: Vec::new() }
    }

    /// Begin to receive `length` bytes: filler is sent, and every reply is a byte received.
    pub fn read(&self, length: usize) -> (transfer: SpiTransfer)
        ensures
            transfer.replies@ == Seq::<u8>::empty(),
            transfer.words@ == Seq::new(length as nat, |i: int| FILLER),
    {
        let nothing: Vec<u8> = Vec::new();
        self.transfer(length, nothing.as_slice())
    }

    /// Begin to send bytes, whose replies do not matter.
    pub fn write(&self, words: &[u8]) -> (transfer: SpiTransfer)
        ensures
            transfer.replies@ == Seq::<u8>::empty(),
            transfer.words@ == words@,
    {
        self.transfer(0, words)
    }

    /// Begin to send bytes, each to be replaced by its reply.
    pub fn transfer_in_place(&self, words: &[u8]) -> (transfer: SpiTransfer)
        ensures
            transfer.replies@ == Seq::<u8>::empty(),
            transfer.words@ == words@,
    {
        self.transfer(words.len(), words)
    }
}

/// A transfer under way: one reply for each byte that was sent.
#[derive(Debug)]
pub struct SpiTransfer {
    /// All bytes to send.
    pub words: Vec<u8>,
    /// The replies so far.
    pub replies: Vec<u8>,
}

impl SpiTransfer {
    /// The byte to send next, or nothing once every byte has its reply.
    pub fn next(&self) -> (word: Option<u8>)
        ensures
            word == (if self.replies@.len() < self.words@.len() {
                Some(self.words@[self.replies@.len() as int])
            } else {
                None
            }),
    {
        if self.replies.len() < self.words.len() {
            Some(self.words[self.replies.len()])
        } else {
            None
        }
    }

    /// The byte was sent, and this is its reply.
    pub fn replied(&mut self, reply: u8)
        requires
            old(self).replies@.len() < old(self).words@.len(),
        ensures
            final(self).words == old(self).words,
            final(self).replies@ == old(self).replies@.push(reply),
    {
        self.replies.push(reply);
    }
}

/// The completion interrupt: disable it, which is all that lets it end. The flag and the byte
/// are left for the task that waits.
pub fn spi_isr() -> (op: Op)
    ensures
        op == (Op::Write { reg: Register::IntDisnum, value: INT_NUM_SPI }),
{
    Op::Write { reg: Register::IntDisnum, value: INT_NUM_SPI }
}

/// Every step of the divider field halves the clock, from half of the 24 MHz reference on.
pub proof fn law_fields_halve_the_clock(field: int)
    requires
        0 <= field < 7,
    ensures
        2 * sck_rate(0) == 24_000_000,
        2 * sck_rate(field + 1) == sck_rate(field),
{
}

/// The clock never exceeds the frequency that was asked for, unless even the lowest rate of all
/// does, and no faster rate would have done.
pub proof fn law_clock_is_the_highest_allowed(frequency: u32, field: int)
    requires
        is_sck_field(frequency, field),
    ensures
        0 <= field <= 7,
        sck_rate(field) <= frequency || field == 7,
        field > 0 ==> 2 * sck_rate(field) > frequency,
        frequency >= 12_000_000 ==> field == 0,
        frequency < 187_500 ==> field == 7,
{
    if field > 0 {
        assert(sck_rate(field - 1) > frequency);
        law_fields_halve_the_clock(field - 1);
    }
}

/// The setup word holds the divider in its bits 12 and up, the polarity in bit 8 and the phase in
/// bit 9, as the mode has them, above the fixed idle setup; before that the clock and the output
/// are muxed and driven, and the input is muxed and left to the other side.
pub proof fn law_setup_holds_rate_and_mode(field: int, mode: Mode)
    requires
        0 <= field <= 7,
    ensures
        ({
            let program = setup_program(field, mode);
            &&& program.len() == 7
            &&& program[0] == Op::Call(Call::GpioSelectFunction { pin: 7, function: 1 })
            &&& program[1] == Op::Call(Call::GpioSelectFunction { pin: 6, function: 1 })
            &&& program[2] == Op::Call(Call::GpioSelectFunction { pin: 5, function: 1 })
            &&& program[3] == Op::Call(Call::GpioSetPadDir { pin: 7, dir: 1 })
            &&& program[4] == Op::Call(Call::GpioSetPadDir { pin: 6, dir: 1 })
            &&& program[5] == Op::Call(Call::GpioSetPadDir { pin: 5, dir: 0 })
            &&& program[6] is Write && program[6]->Write_reg == Register::SpiSetup
            &&& program[6]->Write_value / 0x1000 == field
            &&& program[6]->Write_value / 0x400 % 4 == 0
            &&& program[6]->Write_value / 0x100 % 2 == 1 <==> mode == Mode::Mode2 || mode
                == Mode::Mode3
            &&& program[6]->Write_value / 0x200 % 2 == 1 <==> mode == Mode::Mode1 || mode
                == Mode::Mode3
            &&& program[6]->Write_value % 0x100 == 0x32
        }),
{
}

} // verus!
