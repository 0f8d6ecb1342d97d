//! Critical sections: all interrupt enables sit in one register of the interrupt controller,
//! which a section saves, clears, and puts back.
use crate::port::{Op, Register};
use vstd::prelude::*;

verus! {

/// Enter a critical section: the program to run. What it reads is to be handed to [`release`].
pub fn acquire() -> (program: Vec<Op>)
    ensures
        program@ == seq![
            Op::Read { reg: Register::IntEnable },
            Op::Write { reg: Register::IntEnable, value: 0 },
        ],
{
    vec![
        Op::Read { reg: Register::IntEnable },
        Op::Write { reg: Register::IntEnable, value: 0 },
    ]
}

/// Leave the critical section that was entered with these enables.
pub fn release(restore_state: u32) -> (op: Op)
    ensures
        op == (Op::Write { reg: Register::IntEnable, value: restore_state }),
{
    Op::Write { reg: Register::IntEnable, value: restore_state }
}

/// The interrupt enables after an operation: one register holds them all, and two others set and
/// clear the one of a source by its number.
pub open spec fn enables_after(enables: u32, op: Op) -> u32 {
    match op {
        Op::Write { reg: Register::IntEnable, value } => value,
        Op::Write { reg: Register::IntEnnum, value } => enables | (1u32 << value),
        Op::Write { reg: Register::IntDisnum, value } => enables & !(1u32 << value),
        _ => enables,
    }
}

/// A critical section inside another one masks everything, and leaving it keeps everything
/// masked; leaving the outer one brings back the enables from before it.
pub proof fn law_sections_nest(enables: u32)
    ensures
        ({
            let outer = Op::Write { reg: Register::IntEnable, value: 0 };
            let inside = enables_after(enables, outer);
            let nested = enables_after(inside, outer);
            let left_inner = enables_after(
                nested,
                Op::Write { reg: Register::IntEnable, value: inside },
            );
            let left_outer = enables_after(
                left_inner,
                Op::Write { reg: Register::IntEnable, value: enables },
            );
            &&& inside == 0
            &&& nested == 0
            &&& left_inner == 0
            &&& left_outer == enables
        }),
{
}

/// A source that is enabled or disabled by its number inside a critical section is back as it was
/// once the section is left, so whoever needs an interrupt enables it outside.
pub proof fn law_leaving_undoes_enables(enables: u32, number: u32)
    requires
        number < 32,
    ensures
        ({
            let masked = enables_after(enables, Op::Write { reg: Register::IntEnable, value: 0 });
            let enabled = enables_after(
                masked,
                Op::Write { reg: Register::IntEnnum, value: number },
            );
            let disabled = enables_after(
                masked,
                Op::Write { reg: Register::IntDisnum, value: number },
            );
            let leave = Op::Write { reg: Register::IntEnable, value: enables };
            &&& enabled & (1u32 << number) != 0
            &&& enables_after(enabled, leave) == enables
            &&& enables_after(disabled, leave) == enables
        }),
{
    assert((0u32 | (1u32 << number)) & (1u32 << number) != 0) by (bit_vector)
        requires
            number < 32,
    ;
}

} // verus!
