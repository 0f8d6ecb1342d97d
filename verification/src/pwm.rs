//! Pulse width modulation on a timer.
use crate::port::{Call, Op};
use vstd::prelude::*;

verus! {

/// Half of the full duty cycle.
pub const HALF_DUTY: u32 = 32768;

/// A PWM output on a timer, at a rate in Hz.
#[derive(Debug, PartialEq, Eq, Structural)]
pub struct Pwm {
    /// The timer.
    pub timer_num: u8,
    /// The rate in Hz.
    pub rate: u32,
    /// Whether the timer was started.
    pub initialized: bool,
}

impl Pwm {
    /// A PWM output that is not running yet.
    pub fn new(timer_num: u8, rate: u32) -> (pwm: Pwm)
        ensures
            pwm == (Pwm { timer_num, rate, initialized: false }),
    {
        Pwm { timer_num, rate, initialized: false }
    }

    /// The duty cycle that means always on.
    pub fn max_duty_cycle(&self) -> (duty: u16)
        ensures
            duty == u16::MAX,
    {
        u16::MAX
    }

    /// The program that sets a duty cycle.
    pub open spec fn duty_program(self, duty: u16) -> Seq<Op> {
        if self.initialized {
            seq![Op::Call(Call::PwmDuty { timer: self.timer_num, duty: duty as u32 })]
        } else if duty == 0 {
            seq![
                Op::Call(
                    Call::PwmInit {
                        timer: self.timer_num,
                        rate: self.rate,
                        duty: HALF_DUTY,
                        enable: 1,
                    },
                ),
                Op::Call(Call::PwmDuty { timer: self.timer_num, duty: 0 }),
            ]
        } else {
            seq![
                Op::Call(
                    Call::PwmInit {
                        timer: self.timer_num,
                        rate: self.rate,
                        duty: duty as u32,
                        enable: 1,
                    },
                ),
            ]
        }
    }

    /// Set the duty cycle: the program to run. The first one starts the timer.
    ///
    /// A timer that is started at zero duty never counts, and the next change would wait for it
    /// forever. So it is started at half duty, and then set to zero.
    pub fn set_duty_cycle(&mut self, duty: u16) -> (program: Vec<Op>)
        ensures
            program@ == old(self).duty_program(duty),
            *final(self) == (Pwm { initialized: true, ..*old(self) }),
    {
        let mut program: Vec<Op> = Vec::new();
        if !self.initialized {
            let init_duty: u32 = if duty == 0 {
                HALF_DUTY
            } else {
                duty as u32
            };
            program.push(
                Op::Call(
                    Call::PwmInit {
                        timer: self.timer_num,
                        rate: self.rate,
                        duty: init_duty,
                        enable: 1,
                    },
                ),
            );
            if duty == 0 {
                program.push(Op::Call(Call::PwmDuty { timer: self.timer_num, duty: 0 }));
            }
            self.initialized = true;
        } else {
            program.push(Op::Call(Call::PwmDuty { timer: self.timer_num, duty: duty as u32 }));
        }
        assert(program@ =~= old(self).duty_program(duty));
        program
    }
}

/// The duty cycle that a timer has after a call.
pub open spec fn duty_after(op: Op, before: u32) -> u32 {
    match op {
        Op::Call(Call::PwmInit { duty, .. }) => duty,
        Op::Call(Call::PwmDuty { duty, .. }) => duty,
        _ => before,
    }
}

/// No timer is ever started at zero duty, a running timer is never started again, and the last
/// call of every program leaves the duty cycle that was asked for.
pub proof fn law_pwm_programs(pwm: Pwm, duty: u16)
    ensures
        ({
            let program = pwm.duty_program(duty);
            &&& program.len() > 0
            &&& duty_after(program.last(), 0) == duty
            &&& forall|i: int|
                0 <= i < program.len() ==> (#[trigger] program[i] matches Op::Call(
                    Call::PwmInit { duty: started, .. },
                ) ==> started != 0 && !pwm.initialized)
        }),
{
}

/// Every call of a program is for the timer of the output, and starts it, if it does, at its rate;
/// a running timer is given its duty in a single call, a timer at rest is started first.
pub proof fn law_pwm_drives_its_own_timer(pwm: Pwm, duty: u16, i: int)
    requires
        0 <= i < pwm.duty_program(duty).len(),
    ensures
        ({
            let program = pwm.duty_program(duty);
            &&& pwm.initialized ==> program.len() == 1
            &&& !pwm.initialized ==> program.len() == (if duty == 0 {
                2int
            } else {
                1int
            })
            &&& program[0] is Call && (program[0]->Call_0 is PwmInit <==> !pwm.initialized)
            &&& match program[i] {
                Op::Call(Call::PwmInit { timer, rate, duty: started, enable }) => timer
                    == pwm.timer_num && rate == pwm.rate && enable == 1 && started == (if duty
                    == 0 {
                    32768int
                } else {
                    duty as int
                }),
                Op::Call(Call::PwmDuty { timer, duty: set }) => timer == pwm.timer_num && set
                    == duty,
                _ => false,
            }
        }),
{
}

} // verus!
