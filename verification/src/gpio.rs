//! General-purpose pins.
use crate::port::{Call, Op, PAD_DIR_INPUT, PAD_DIR_OUTPUT};
use vstd::prelude::*;

verus! {

/// A single GPIO pin (GPIO_00 through GPIO_63).
#[derive(Debug, Copy, Clone, PartialEq, Eq, Structural)]
pub struct Pin {
    num: u8,
}

impl Pin {
    /// The GPIO number of the pin.
    pub closed spec fn number(self) -> u8 {
        self.num
    }

    /// A pin from its GPIO number (0-63).
    pub fn new(num: u8) -> (pin: Pin)
        ensures
            pin.number() == num,
    {
        Pin { num }
    }

    /// The GPIO number of the pin.
    pub fn pin_number(&self) -> (num: u8)
        ensures
            num == self.number(),
    {
        self.num
    }

    /// Make the pin a push-pull output at a level: the program to run. The level is set before
    /// the direction is, so that no glitch is driven.
    pub fn into_output(self, state: bool) -> (made: (Pin, Vec<Op>))
        ensures
            made.0 == self,
            made.1@ == seq![
                Op::Call(Call::GpioSelectFunction { pin: self.number(), function: 0 }),
                Op::Call(
                    if state {
                        Call::GpioSet { pin: self.number() }
                    } else {
                        Call::GpioReset { pin: self.number() }
                    },
                ),
                Op::Call(Call::GpioSetPadDir { pin: self.number(), dir: PAD_DIR_OUTPUT }),
            ],
    {
        let level: Op = if state {
            self.set_high()
        } else {
            self.set_low()
        };
        let program: Vec<Op> = vec![
            Op::Call(Call::GpioSelectFunction { pin: self.num, function: 0 }),
            level,
            Op::Call(Call::GpioSetPadDir { pin: self.num, dir: PAD_DIR_OUTPUT }),
        ];
        (self, program)
    }

    /// Make the pin a high-impedance input: the program to run.
    pub fn into_input(self) -> (made: (Pin, Vec<Op>))
        ensures
            made.0 == self,
            made.1@ == seq![
                Op::Call(Call::GpioSelectFunction { pin: self.number(), function: 0 }),
                Op::Call(Call::GpioSetPadDir { pin: self.number(), dir: PAD_DIR_INPUT }),
            ],
    {
        let program: Vec<Op> = vec![
            Op::Call(Call::GpioSelectFunction { pin: self.num, function: 0 }),
            Op::Call(Call::GpioSetPadDir { pin: self.num, dir: PAD_DIR_INPUT }),
        ];
        (self, program)
    }

    /// Drive the pin low.
    pub fn set_low(&self) -> (op: Op)
        ensures
            op == Op::Call(Call::GpioReset { pin: self.number() }),
    {
        Op::Call(Call::GpioReset { pin: self.num })
    }

    /// Drive the pin high.
    pub fn set_high(&self) -> (op: Op)
        ensures
            op == Op::Call(Call::GpioSet { pin: self.number() }),
    {
        Op::Call(Call::GpioSet { pin: self.num })
    }

    /// Read the level of the pin, 0 or 1.
    pub fn read(&self) -> (op: Op)
        ensures
            op == Op::Call(Call::GpioRead { pin: self.number() }),
    {
        Op::Call(Call::GpioRead { pin: self.num })
    }
}

} // verus!
