//! The vocabulary in which drivers talk to the chip.
//!
//! A driver never touches memory-mapped registers itself. It returns a list of [`Op`]s, the
//! program that the chip has to run, and takes the values that the program read as plain
//! integers. Whoever owns the bus runs the program one operation after the other.
use vstd::prelude::*;

verus! {

/// The two UART peripherals.
#[derive(Debug, Copy, Clone, PartialEq, Eq, Structural)]
pub enum UartId {
    /// UART1: TX on GPIO14, RX on GPIO15.
    Uart1,
    /// UART2: TX on GPIO18, RX on GPIO19.
    Uart2,
}

/// A memory-mapped register of the MC1322x.
#[derive(Debug, Copy, Clone, PartialEq, Eq, Structural)]
pub enum Register {
    /// GPIO block 0 pull-up enable.
    GpioPadPuEn0,
    /// GPIO block 0 pull-up select.
    GpioPadPuSel0,
    /// SPI transmit data.
    SpiTxData,
    /// SPI receive data.
    SpiRxData,
    /// SPI clock control.
    SpiClkCtrl,
    /// SPI setup.
    SpiSetup,
    /// SPI status.
    SpiStatus,
    /// CRM system control.
    CrmSysCntl,
    /// CRM wake-up control.
    CrmWuCntl,
    /// CRM sleep control.
    CrmSleepCntl,
    /// CRM status.
    CrmStatus,
    /// CRM wake-up timer timeout.
    CrmWuTimeout,
    /// CRM real-time counter.
    CrmRtcCount,
    /// CRM real-time counter timeout.
    CrmRtcTimeout,
    /// CRM crystal control.
    CrmXtalCntl,
    /// CRM voltage regulator control.
    CrmVregCntl,
    /// MACA random number register.
    MacaRandom,
    /// UART control.
    Ucon(UartId),
    /// UART status.
    Ustat(UartId),
    /// UART data.
    Udata(UartId),
    /// UART receive FIFO level.
    Urxcon(UartId),
    /// UART transmit FIFO level.
    Utxcon(UartId),
    /// I2C own address (8 bits wide).
    I2cAdr,
    /// I2C frequency divider (8 bits wide).
    I2cFdr,
    /// I2C control (8 bits wide).
    I2cCr,
    /// I2C status (8 bits wide).
    I2cSr,
    /// I2C data (8 bits wide).
    I2cDr,
    /// I2C clock enable (8 bits wide).
    I2cCker,
    /// TMR0 compare 1 (16 bits wide).
    TmrComp1,
    /// TMR0 counter (16 bits wide).
    TmrCntr,
    /// TMR0 control (16 bits wide).
    TmrCtrl,
    /// TMR0 status and control (16 bits wide).
    TmrSctrl,
    /// TMR0 comparator status and control (16 bits wide).
    TmrCsctrl,
    /// TMR channel enable (16 bits wide).
    TmrEnbl,
    /// AES key, one of four words.
    AsmKey(u8),
    /// AES data, one of four words.
    AsmData(u8),
    /// AES counter, one of four words.
    AsmCtr(u8),
    /// AES counter-mode result, one of four words.
    AsmCtrResult(u8),
    /// AES CBC-MAC result, one of four words.
    AsmCbcResult(u8),
    /// AES control 0.
    AsmControl0,
    /// AES control 1.
    AsmControl1,
    /// AES status.
    AsmStatus,
    /// Interrupt controller: number of the source to enable.
    IntEnnum,
    /// Interrupt controller: number of the source to disable.
    IntDisnum,
    /// Interrupt controller: all enables.
    IntEnable,
}

/// How many bytes one access to a register moves.
#[derive(Debug, Copy, Clone, PartialEq, Eq, Structural)]
pub enum Width {
    /// One byte.
    Byte,
    /// Two bytes.
    Half,
    /// Four bytes.
    Word,
}

/// Base of a UART's register block.
pub open spec fn uart_base(id: UartId) -> u32 {
    match id {
        UartId::Uart1 => 0x8000_5000,
        UartId::Uart2 => 0x8000_B000,
    }
}

impl Register {
    /// Bus address of the register.
    pub open spec fn spec_address(self) -> int {
        match self {
            Register::GpioPadPuEn0 => 0x8000_0010,
            Register::GpioPadPuSel0 => 0x8000_0030,
            Register::SpiTxData => 0x8000_2000,
            Register::SpiRxData => 0x8000_2004,
            Register::SpiClkCtrl => 0x8000_2008,
            Register::SpiSetup => 0x8000_200C,
            Register::SpiStatus => 0x8000_2010,
            Register::CrmSysCntl => 0x8000_3000,
            Register::CrmWuCntl => 0x8000_3004,
            Register::CrmSleepCntl => 0x8000_3008,
            Register::CrmStatus => 0x8000_3018,
            Register::CrmWuTimeout => 0x8000_3024,
            Register::CrmRtcCount => 0x8000_3028,
            Register::CrmRtcTimeout => 0x8000_302C,
            Register::CrmXtalCntl => 0x8000_3040,
            Register::CrmVregCntl => 0x8000_3048,
            Register::MacaRandom => 0x8000_4008,
            Register::Ucon(id) => uart_base(id) as int,
            Register::Ustat(id) => uart_base(id) + 0x04,
            Register::Udata(id) => uart_base(id) + 0x08,
            Register::Urxcon(id) => uart_base(id) + 0x0C,
            Register::Utxcon(id) => uart_base(id) + 0x10,
            Register::I2cAdr => 0x8000_6000,
            Register::I2cFdr => 0x8000_6004,
            Register::I2cCr => 0x8000_6008,
            Register::I2cSr => 0x8000_600C,
            Register::I2cDr => 0x8000_6010,
            Register::I2cCker => 0x8000_6018,
            Register::TmrComp1 => 0x8000_7000,
            Register::TmrCntr => 0x8000_700A,
            Register::TmrCtrl => 0x8000_700C,
            Register::TmrSctrl => 0x8000_700E,
            Register::TmrCsctrl => 0x8000_7014,
            Register::TmrEnbl => 0x8000_701E,
            Register::AsmKey(n) => 0x8000_8000 + 4 * n,
            Register::AsmData(n) => 0x8000_8010 + 4 * n,
            Register::AsmCtr(n) => 0x8000_8020 + 4 * n,
            Register::AsmCtrResult(n) => 0x8000_8030 + 4 * n,
            Register::AsmCbcResult(n) => 0x8000_8040 + 4 * n,
            Register::AsmControl0 => 0x8000_8050,
            Register::AsmControl1 => 0x8000_8054,
            Register::AsmStatus => 0x8000_8058,
            Register::IntEnnum => 0x8002_0008,
            Register::IntDisnum => 0x8002_000C,
            Register::IntEnable => 0x8002_0010,
        }
    }

    /// Width of one access to the register.
    pub open spec fn spec_width(self) -> Width {
        match self {
            Register::I2cAdr
            | Register::I2cFdr
            | Register::I2cCr
            | Register::I2cSr
            | Register::I2cDr
            | Register::I2cCker => Width::Byte,
            Register::TmrComp1
            | Register::TmrCntr
            | Register::TmrCtrl
            | Register::TmrSctrl
            | Register::TmrCsctrl
            | Register::TmrEnbl => Width::Half,
            _ => Width::Word,
        }
    }

    /// Bus address of the register.
    pub fn address(self) -> (address: u32)
        ensures
            address == self.spec_address(),
    {
        match self {
            Register::GpioPadPuEn0 => 0x8000_0010,
            Register::GpioPadPuSel0 => 0x8000_0030,
            Register::SpiTxData => 0x8000_2000,
            Register::SpiRxData => 0x8000_2004,
            Register::SpiClkCtrl => 0x8000_2008,
            Register::SpiSetup => 0x8000_200C,
            Register::SpiStatus => 0x8000_2010,
            Register::CrmSysCntl => 0x8000_3000,
            Register::CrmWuCntl => 0x8000_3004,
            Register::CrmSleepCntl => 0x8000_3008,
            Register::CrmStatus => 0x8000_3018,
            Register::CrmWuTimeout => 0x8000_3024,
            Register::CrmRtcCount => 0x8000_3028,
            Register::CrmRtcTimeout => 0x8000_302C,
            Register::CrmXtalCntl => 0x8000_3040,
            Register::CrmVregCntl => 0x8000_3048,
            Register::MacaRandom => 0x8000_4008,
            Register::Ucon(UartId::Uart1) => 0x8000_5000,
            Register::Ustat(UartId::Uart1) => 0x8000_5004,
            Register::Udata(UartId::Uart1) => 0x8000_5008,
            Register::Urxcon(UartId::Uart1) => 0x8000_500C,
            Register::Utxcon(UartId::Uart1) => 0x8000_5010,
            Register::Ucon(UartId::Uart2) => 0x8000_B000,
            Register::Ustat(UartId::Uart2) => 0x8000_B004,
            Register::Udata(UartId::Uart2) => 0x8000_B008,
            Register::Urxcon(UartId::Uart2) => 0x8000_B00C,
            Register::Utxcon(UartId::Uart2) => 0x8000_B010,
            Register::I2cAdr => 0x8000_6000,
            Register::I2cFdr => 0x8000_6004,
            Register::I2cCr => 0x8000_6008,
            Register::I2cSr => 0x8000_600C,
            Register::I2cDr => 0x8000_6010,
            Register::I2cCker => 0x8000_6018,
            Register::TmrComp1 => 0x8000_7000,
            Register::TmrCntr => 0x8000_700A,
            Register::TmrCtrl => 0x8000_700C,
            Register::TmrSctrl => 0x8000_700E,
            Register::TmrCsctrl => 0x8000_7014,
            Register::TmrEnbl => 0x8000_701E,
            Register::AsmKey(n) => 0x8000_8000 + 4 * (n as u32),
            Register::AsmData(n) => 0x8000_8010 + 4 * (n as u32),
            Register::AsmCtr(n) => 0x8000_8020 + 4 * (n as u32),
            Register::AsmCtrResult(n) => 0x8000_8030 + 4 * (n as u32),
            Register::AsmCbcResult(n) => 0x8000_8040 + 4 * (n as u32),
            Register::AsmControl0 => 0x8000_8050,
            Register::AsmControl1 => 0x8000_8054,
            Register::AsmStatus => 0x8000_8058,
            Register::IntEnnum => 0x8002_0008,
            Register::IntDisnum => 0x8002_000C,
            Register::IntEnable => 0x8002_0010,
        }
    }

    /// Width of one access to the register.
    pub fn width(self) -> (width: Width)
        ensures
            width == self.spec_width(),
    {
        match self {
            Register::I2cAdr
            | Register::I2cFdr
            | Register::I2cCr
            | Register::I2cSr
            | Register::I2cDr
            | Register::I2cCker => Width::Byte,
            Register::TmrComp1
            | Register::TmrCntr
            | Register::TmrCtrl
            | Register::TmrSctrl
            | Register::TmrCsctrl
            | Register::TmrEnbl => Width::Half,
            _ => Width::Word,
        }
    }
}

/// A routine of the boot ROM or of the chip support library, with its arguments.
#[derive(Debug, Copy, Clone, PartialEq, Eq, Structural)]
pub enum Call {
    /// Mux a pad to one of its functions.
    GpioSelectFunction { pin: u8, function: u8 },
    /// Set the direction of a pad: 0 for input, 1 for output.
    GpioSetPadDir { pin: u8, dir: u8 },
    /// Drive a pin high.
    GpioSet { pin: u8 },
    /// Drive a pin low.
    GpioReset { pin: u8 },
    /// Read the level of a pin; the value read is 0 or 1.
    GpioRead { pin: u8 },
    /// Set one pin's bit in a GPIO register.
    GpioRegSet { reg: Register, pin: u8 },
    /// Program a UART's baud rate divider.
    UartSetBaud { id: UartId, baud: u32 },
    /// Turn a UART's hardware flow control on (1) or off (0).
    UartFlowctl { id: UartId, on: u8 },
    /// Power up and calibrate the ADC.
    AdcInit,
    /// Include a channel in the ADC conversion sequence.
    AdcSetupChan { channel: u8 },
    /// Empty the ADC FIFO.
    AdcFlush,
    /// Take one tagged sample from the ADC FIFO.
    AdcRead,
    /// Start a timer as a PWM generator.
    PwmInit { timer: u8, rate: u32, duty: u32, enable: u8 },
    /// Change the duty cycle of a running PWM timer.
    PwmDuty { timer: u8, duty: u32 },
    /// Start the RTC on the ring oscillator (0) or on the crystal (1).
    RtcInitOsc { crystal: u8 },
    /// Calibrate the ring oscillator.
    RtcCalibrate,
    /// Read the calibrated RTC frequency in Hz.
    RtcFreq,
    /// Busy-wait a number of milliseconds on the RTC.
    RtcDelayMs { ms: u32 },
    /// Reset and bring up the MACA radio block.
    MacaInit,
    /// Wake the MACA.
    MacaOn,
    /// Put the MACA to sleep.
    MacaOff,
    /// Program the MACA channel index.
    MacaSetChannel { index: u8 },
    /// Program the MACA power level.
    MacaSetPower { power: u8 },
    /// Read the link quality of the last received packet.
    MacaGetLqi,
    /// Set the ROM flash driver's secure variable.
    NvmSetsvar { value: u32 },
    /// Initialize the ROM's own RAM state.
    RomDataInit,
    /// Mask interrupts and give every privileged mode its stack.
    SetModeStacks { fiq: u32, irq: u32, svc: u32, und: u32, abt: u32 },
}

/// One operation that a driver asks the chip to perform.
#[derive(Debug, Copy, Clone, PartialEq, Eq, Structural)]
pub enum Op {
    /// Store `value` in `reg`.
    Write { reg: Register, value: u32 },
    /// Load `reg` and hand the value back.
    Read { reg: Register },
    /// Load `reg` and drop the value.
    Discard { reg: Register },
    /// Load `reg`, set `bits` in the value and store it.
    SetBits { reg: Register, bits: u32 },
    /// Load `reg`, clear `bits` in the value and store it.
    ClearBits { reg: Register, bits: u32 },
    /// Load `reg` until one of `bits` is set in the value.
    WaitSet { reg: Register, bits: u32 },
    /// Load `reg` a number of times, dropping the values.
    ReadLoop { reg: Register, count: u32 },
    /// Spin a number of loop iterations.
    Spin { iterations: u32 },
    /// Call a routine of the ROM or the support library; a routine that reads something hands
    /// the value back.
    Call(Call),
}

/// Outcome of one poll of something that may not be ready yet.
#[derive(Debug, PartialEq, Eq, Structural)]
pub enum Progress<T> {
    /// Not ready: ask again later.
    Pending,
    /// Ready, with the outcome.
    Ready(T),
}

/// Interrupt controller number of UART1.
pub const INT_NUM_UART1: u32 = 1;
/// Interrupt controller number of UART2.
pub const INT_NUM_UART2: u32 = 2;
/// Interrupt controller number of the CRM.
pub const INT_NUM_CRM: u32 = 3;
/// Interrupt controller number of the I2C module.
pub const INT_NUM_I2C: u32 = 4;
/// Interrupt controller number of the timers.
pub const INT_NUM_TMR: u32 = 5;
/// Interrupt controller number of the SPI module.
pub const INT_NUM_SPI: u32 = 10;

/// Pad direction: input.
pub const PAD_DIR_INPUT: u8 = 0;
/// Pad direction: output.
pub const PAD_DIR_OUTPUT: u8 = 1;

/// Frequency of the reference oscillator in Hz.
pub const REF_OSC: u32 = 24_000_000;

/// Append the operations of `tail` to `program`.
pub(crate) fn append(program: &mut Vec<Op>, tail: &Vec<Op>)
    ensures
        final(program)@ == old(program)@ + tail@,
{
    let mut i: usize = 0;
    while i < tail.len()
        invariant
            i <= tail.len(),
            program@ == old(program)@ + tail@.subrange(0, i as int),
        decreases tail.len() - i,
    {
        program.push(tail[i]);
        i = i + 1;
    }
    assert(tail@.subrange(0, tail@.len() as int) =~= tail@);
}

/// Every register has an address of its own, so that no access to one is an access to another;
/// each of the groups of four words counts as four registers.
pub proof fn law_registers_do_not_overlap(a: Register, b: Register)
    requires
        a != b,
        a matches Register::AsmKey(n) ==> n < 4,
        a matches Register::AsmData(n) ==> n < 4,
        a matches Register::AsmCtr(n) ==> n < 4,
        a matches Register::AsmCtrResult(n) ==> n < 4,
        a matches Register::AsmCbcResult(n) ==> n < 4,
        b matches Register::AsmKey(n) ==> n < 4,
        b matches Register::AsmData(n) ==> n < 4,
        b matches Register::AsmCtr(n) ==> n < 4,
        b matches Register::AsmCtrResult(n) ==> n < 4,
        b matches Register::AsmCbcResult(n) ==> n < 4,
    ensures
        a.spec_address() != b.spec_address(),
{
}

/// The width of an access goes by the block that a register lies in: bytes in the I2C block,
/// halves in the timer block, and words everywhere else; every address is a multiple of it.
pub proof fn law_width_goes_by_the_block(register: Register)
    ensures
        register.spec_width() == Width::Byte <==> 0x8000_6000 <= register.spec_address()
            < 0x8000_7000,
        register.spec_width() == Width::Half <==> 0x8000_7000 <= register.spec_address()
            < 0x8000_8000,
        register.spec_width() == Width::Half ==> register.spec_address() % 2 == 0,
        register.spec_width() == Width::Word ==> register.spec_address() % 4 == 0,
{
}

/// The registers lie at the offsets of their blocks.
pub proof fn law_registers_lie_in_their_blocks(id: UartId, n: u8)
    ensures
        Register::GpioPadPuEn0.spec_address() == 0x8000_0000 + 0x10,
        Register::GpioPadPuSel0.spec_address() == 0x8000_0000 + 0x30,
        Register::SpiTxData.spec_address() == 0x8000_2000,
        Register::SpiRxData.spec_address() == 0x8000_2000 + 0x04,
        Register::SpiClkCtrl.spec_address() == 0x8000_2000 + 0x08,
        Register::SpiSetup.spec_address() == 0x8000_2000 + 0x0C,
        Register::SpiStatus.spec_address() == 0x8000_2000 + 0x10,
        Register::CrmSysCntl.spec_address() == 0x8000_3000,
        Register::CrmWuCntl.spec_address() == 0x8000_3000 + 0x04,
        Register::CrmSleepCntl.spec_address() == 0x8000_3000 + 0x08,
        Register::CrmStatus.spec_address() == 0x8000_3000 + 0x18,
        Register::CrmWuTimeout.spec_address() == 0x8000_3000 + 0x24,
        Register::CrmRtcCount.spec_address() == 0x8000_3000 + 0x28,
        Register::CrmRtcTimeout.spec_address() == 0x8000_3000 + 0x2C,
        Register::CrmXtalCntl.spec_address() == 0x8000_3000 + 0x40,
        Register::CrmVregCntl.spec_address() == 0x8000_3000 + 0x48,
        Register::MacaRandom.spec_address() == 0x8000_4000 + 0x08,
        Register::Ucon(UartId::Uart1).spec_address() == 0x8000_5000,
        Register::Ucon(UartId::Uart2).spec_address() == 0x8000_B000,
        Register::Ustat(id).spec_address() == Register::Ucon(id).spec_address() + 0x04,
        Register::Udata(id).spec_address() == Register::Ucon(id).spec_address() + 0x08,
        Register::Urxcon(id).spec_address() == Register::Ucon(id).spec_address() + 0x0C,
        Register::Utxcon(id).spec_address() == Register::Ucon(id).spec_address() + 0x10,
        Register::I2cAdr.spec_address() == 0x8000_6000,
        Register::I2cFdr.spec_address() == 0x8000_6000 + 0x04,
        Register::I2cCr.spec_address() == 0x8000_6000 + 0x08,
        Register::I2cSr.spec_address() == 0x8000_6000 + 0x0C,
        Register::I2cDr.spec_address() == 0x8000_6000 + 0x10,
        Register::I2cCker.spec_address() == 0x8000_6000 + 0x18,
        Register::TmrComp1.spec_address() == 0x8000_7000,
        Register::TmrCntr.spec_address() == 0x8000_7000 + 0x0A,
        Register::TmrCtrl.spec_address() == 0x8000_7000 + 0x0C,
        Register::TmrSctrl.spec_address() == 0x8000_7000 + 0x0E,
        Register::TmrCsctrl.spec_address() == 0x8000_7000 + 0x14,
        Register::TmrEnbl.spec_address() == 0x8000_7000 + 0x1E,
        Register::AsmKey(n).spec_address() == 0x8000_8000 + 4 * n,
        Register::AsmData(n).spec_address() == 0x8000_8000 + 0x10 + 4 * n,
        Register::AsmCtr(n).spec_address() == 0x8000_8000 + 0x20 + 4 * n,
        Register::AsmCtrResult(n).spec_address() == 0x8000_8000 + 0x30 + 4 * n,
        Register::AsmCbcResult(n).spec_address() == 0x8000_8000 + 0x40 + 4 * n,
        Register::AsmControl0.spec_address() == 0x8000_8000 + 0x50,
        Register::AsmControl1.spec_address() == 0x8000_8000 + 0x54,
        Register::AsmStatus.spec_address() == 0x8000_8000 + 0x58,
        Register::IntEnnum.spec_address() == 0x8002_0000 + 0x08,
        Register::IntDisnum.spec_address() == 0x8002_0000 + 0x0C,
        Register::IntEnable.spec_address() == 0x8002_0000 + 0x10,
{
}

} // verus!
