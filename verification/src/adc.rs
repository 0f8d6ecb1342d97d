//! 12-bit ADC in automatic mode: every enabled channel is converted in turn, and each sample
//! carries its channel number in its upper four bits.
use crate::port::{Call, Op};
use vstd::prelude::*;

verus! {

/// Millivolts of the internal reference.
pub const INTERNAL_REFERENCE_MV: u32 = 1200;
/// Per-unit offset of the battery reading.
pub const ADC_VBATT_TRIM: u32 = 183;
/// Number of channels: GPIO0-7 plus the internal reference on channel 8.
pub const ADC_CHANNELS: u8 = 9;
/// Channel of the internal reference.
pub const REFERENCE_CHANNEL: u8 = 8;
/// Largest sample.
pub const FULL_SCALE: u32 = 4095;

/// The ADC.
#[derive(Debug, PartialEq, Eq, Structural)]
pub struct Adc;

impl Adc {
    /// The ADC, with the call that powers it up, calibrates it and starts the conversions.
    pub fn new() -> (made: (Adc, Op))
        ensures
            made.0 == Adc,
            made.1 == Op::Call(Call::AdcInit),
    {
        (Adc, Op::Call(Call::AdcInit))
    }

    /// Include a channel (0-7) in the conversion sequence. The reference always is.
    pub fn enable_channel(&self, channel: u8) -> (op: Op)
        requires
            channel < 8,
        ensures
            op == Op::Call(Call::AdcSetupChan { channel }),
    {
        Op::Call(Call::AdcSetupChan { channel })
    }

    /// Begin to read a channel: empty the FIFO, so that what comes is fresh. Then samples are
    /// taken with [`Call::AdcRead`] until [`Adc::select`] accepts one.
    pub fn read(&self) -> (op: Op)
        ensures
            op == Op::Call(Call::AdcFlush),
    {
        Op::Call(Call::AdcFlush)
    }

    /// The reading in a sample, if it is of the wanted channel.
    pub fn select(&self, channel: u8, sample: u16) -> (reading: Option<u16>)
        ensures
            reading == (if sample / 4096 == channel {
                Some((sample % 4096) as u16)
            } else {
                None
            }),
    {
        if (sample / 4096) as u8 == channel {
            Some(sample % 4096)
        } else {
            None
        }
    }

    /// A reading in millivolts, from it and a reading of the reference channel.
    pub fn voltage(&self, reference: u16, reading: u16) -> (millivolts: u32)
        requires
            reference != 0,
        ensures
            millivolts == reading * INTERNAL_REFERENCE_MV as int / reference as int,
    {
        reading as u32 * INTERNAL_REFERENCE_MV / reference as u32
    }

    /// Battery voltage in millivolts, from a reading of the reference channel.
    pub fn battery_voltage(&self, reference: u16) -> (millivolts: u32)
        requires
            reference != 0,
        ensures
            millivolts == FULL_SCALE * INTERNAL_REFERENCE_MV / reference as int + ADC_VBATT_TRIM,
    {
        let full: u32 = FULL_SCALE * INTERNAL_REFERENCE_MV;
        let scaled: u32 = full / reference as u32;
        assert(scaled <= full) by (nonlinear_arith)
            requires
                scaled == full / reference as u32,
                reference != 0,
        ;
        scaled + ADC_VBATT_TRIM
    }
}

/// The reference channel reads as the reference voltage, whatever the supply.
pub proof fn law_reference_reads_as_itself(reference: u16)
    requires
        reference != 0,
    ensures
        reference * INTERNAL_REFERENCE_MV as int / reference as int == INTERNAL_REFERENCE_MV,
{
    assert(reference * 1200 / reference as int == 1200) by (nonlinear_arith)
        requires
            reference != 0,
    ;
}

} // verus!
