//! Voltage regulator power-up and crystal trim, shared by peripherals whose bring-up needs them.
use crate::port::{Op, Register};
use vstd::prelude::*;

verus! {

/// `CRM_XTAL_CNTL` trim values for the 24 MHz reference crystal oscillator.
///
/// They compensate for one specific crystal and its load capacitance on the board.
#[derive(Debug, Copy, Clone, PartialEq, Eq, Structural)]
pub struct XtalTrim {
    /// 4 pF load capacitor switch.
    pub ctune_4pf: u32,
    /// Coarse load capacitance.
    pub ctune: u32,
    /// Fine load capacitance.
    pub ftune: u32,
    /// Oscillator bias current.
    pub ibias: u32,
}

impl XtalTrim {
    /// Whether every value fits its field of the register.
    pub open spec fn fits(self) -> bool {
        &&& self.ctune_4pf < 2
        &&& self.ctune < 16
        &&& self.ftune < 32
        &&& self.ibias < 256
    }

    /// The packed register value.
    pub open spec fn spec_pack(self) -> u32 {
        (self.ctune_4pf << 25u32) | (self.ctune << 21u32) | (self.ftune << 16u32) | (self.ibias
            << 8u32) | 0x52u32
    }

    /// Pack the trim into the raw `CRM_XTAL_CNTL` value.
    pub fn pack(self) -> (value: u32)
        ensures
            value == self.spec_pack(),
            value == (self.ctune_4pf << 25u32) | (self.ctune << 21u32) | (self.ftune << 16u32) | (
            self.ibias << 8u32) | 0x52u32,
    {
        (self.ctune_4pf << 25u32) | (self.ctune << 21u32) | (self.ftune << 16u32) | (self.ibias
            << 8u32) | 0x52u32
    }
}

/// The value that a trim packs to, where each of its parts fits its field: the fields side by
/// side, none disturbing another, above the constant low byte.
pub proof fn law_pack_is_positional(trim: XtalTrim)
    requires
        trim.ctune_4pf < 2,
        trim.ctune < 16,
        trim.ftune < 32,
        trim.ibias < 256,
    ensures
        trim.fits(),
        trim.spec_pack() == trim.ctune_4pf * 0x200_0000 + trim.ctune * 0x20_0000 + trim.ftune
            * 0x1_0000 + trim.ibias * 0x100 + 0x52,
{
    let a = trim.ctune_4pf;
    let b = trim.ctune;
    let c = trim.ftune;
    let d = trim.ibias;
    assert((a << 25u32) | (b << 21u32) | (c << 16u32) | (d << 8u32) | 0x52u32 == a * 0x200_0000 + b
        * 0x20_0000 + c * 0x1_0000 + d * 0x100 + 0x52) by (bit_vector)
        requires
            a < 2,
            b < 16,
            c < 32,
            d < 256,
    ;
}

/// The board's trim as a register value.
pub fn board_xtal_cntl() -> (value: u32)
    ensures
        value == 0x0367_1F52,
{
    proof {
        law_pack_is_positional(crate::board::spec_xtal_trim());
    }
    crate::board::xtal_trim().pack()
}

/// Trim the 24 MHz reference crystal oscillator to the board's value.
///
/// An untrimmed crystal is an out-of-spec reference clock for the radio's frequency
/// synthesizer.
pub fn trim_xtal() -> (op: Op)
    ensures
        op == (Op::Write { reg: Register::CrmXtalCntl, value: 0x0367_1F52 }),
{
    Op::Write { reg: Register::CrmXtalCntl, value: board_xtal_cntl() }
}

/// `CRM_STATUS`: the 1.5 V regulator is ready.
pub const VREG_1P5V_RDY: u32 = 0x0008_0000;
/// `CRM_STATUS`: the 1.8 V regulator is ready.
pub const VREG_1P8V_RDY: u32 = 0x0004_0000;

/// The program that turns on the regulators.
pub open spec fn power_up_program() -> Seq<Op> {
    seq![
        Op::Write { reg: Register::CrmSysCntl, value: 0x0000_0018 },
        Op::Write { reg: Register::CrmVregCntl, value: 0x0000_0f04 },
        Op::Spin { iterations: 0x161a8 },
        Op::Write { reg: Register::CrmVregCntl, value: 0x0000_0ff8 },
        Op::WaitSet { reg: Register::CrmStatus, bits: VREG_1P5V_RDY },
        Op::WaitSet { reg: Register::CrmStatus, bits: VREG_1P8V_RDY },
    ]
}

/// Turn on the 1.5 V and 1.8 V regulators that flash access, the crypto block and the radio
/// need: bypass the buck, wait for the bypass to take, start the regulators, and wait until
/// both report ready.
pub fn power_up_regulators() -> (program: Vec<Op>)
    ensures
        program@ == power_up_program(),
{
    vec![
        Op::Write { reg: Register::CrmSysCntl, value: 0x0000_0018 },
        Op::Write { reg: Register::CrmVregCntl, value: 0x0000_0f04 },
        Op::Spin { iterations: 0x161a8 },
        Op::Write { reg: Register::CrmVregCntl, value: 0x0000_0ff8 },
        Op::WaitSet { reg: Register::CrmStatus, bits: VREG_1P5V_RDY },
        Op::WaitSet { reg: Register::CrmStatus, bits: VREG_1P8V_RDY },
    ]
}

/// The regulators are started behind a bypass that has been given its time, and nothing goes on
/// before both have reported that they are ready.
pub proof fn law_regulators_are_awaited()
    ensures
        ({
            let program = power_up_program();
            &&& program.len() == 6
            &&& program[0] == (Op::Write { reg: Register::CrmSysCntl, value: 0x18 })
            &&& program[1] == (Op::Write { reg: Register::CrmVregCntl, value: 0xf04 })
            &&& program[2] == (Op::Spin { iterations: 0x161a8 })
            &&& program[3] == (Op::Write { reg: Register::CrmVregCntl, value: 0xff8 })
            &&& program[4] == (Op::WaitSet { reg: Register::CrmStatus, bits: 0x0008_0000 })
            &&& program[5] == (Op::WaitSet { reg: Register::CrmStatus, bits: 0x0004_0000 })
        }),
{
}

} // verus!
