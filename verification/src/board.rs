//! Fixed properties of the Redbee Econotag.
use crate::nvm::NvmInterface;
use crate::power::XtalTrim;
use vstd::prelude::*;

verus! {

/// 24 MHz reference crystal trim of the board.
pub open spec fn spec_xtal_trim() -> XtalTrim {
    XtalTrim { ctune_4pf: 1, ctune: 11, ftune: 7, ibias: 0x1F }
}

/// 24 MHz reference crystal trim of the board.
pub fn xtal_trim() -> (trim: XtalTrim)
    ensures
        trim == spec_xtal_trim(),
        trim == (XtalTrim { ctune_4pf: 1, ctune: 11, ftune: 7, ibias: 0x1F }),
{
    XtalTrim { ctune_4pf: 1, ctune: 11, ftune: 7, ibias: 0x1F }
}

/// Which bus the board's serial flash is wired to.
pub const NVM_INTERFACE: NvmInterface = NvmInterface::Internal;

/// `I2C_FDR[5:0]` divider index that gives about 150 kHz SCL on the board.
pub const I2C_CLOCK_DIVIDER: u8 = 0x20;

} // verus!
