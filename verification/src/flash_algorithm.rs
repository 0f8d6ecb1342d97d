//! The flash algorithm that a debug probe loads into RAM to program the chip's serial flash.
//!
//! Every operation checks its arguments, names the ROM call to make, and judges what the call
//! returned. Failures carry the code that the probe's host reports.
use crate::nvm::{has_sector, NvmCall};
use crate::port::{Call, Op, Register};
use crate::power::{VREG_1P5V_RDY, VREG_1P8V_RDY};
use vstd::prelude::*;

verus! {

/// Bytes per sector.
pub const FLASH_SECTOR_SIZE: u32 = 4096;
/// Sectors of the part.
pub const FLASH_NUM_SECTORS: u32 = 32;
/// Bytes of the part.
pub const FLASH_SIZE: u32 = 0x0002_0000;
/// Bytes per programming page.
pub const PAGE_SIZE: u32 = 0x100;
/// Value of an erased byte.
pub const EMPTY_VALUE: u8 = 0xFF;
/// Milliseconds that programming a page may take.
pub const PROGRAM_TIME_OUT: u32 = 1000;
/// Milliseconds that erasing a sector may take.
pub const ERASE_TIME_OUT: u32 = 2000;

/// ROM code of the internal interface, the only one that the algorithm drives.
pub const INTERNAL_INTERFACE: u32 = 0;
/// Every sector but the top one, which is reserved for factory use.
pub const ALL_SECTORS: u32 = 0x7FFF_FFFF;

/// The ROM failed to detect the flash.
pub const CODE_DETECT: u32 = 0x7001;
/// The ROM found no flash.
pub const CODE_NO_NVM: u32 = 0x7002;
/// Erasing the part failed.
pub const CODE_ERASE_ALL: u32 = 0x7003;
/// There is no such sector.
pub const CODE_BAD_SECTOR: u32 = 0x7004;
/// Erasing a sector failed.
pub const CODE_ERASE_SECTOR: u32 = 0x7005;
/// A page leaves the part.
pub const CODE_OUT_OF_RANGE: u32 = 0x7006;
/// Programming a page failed.
pub const CODE_PROGRAM: u32 = 0x7007;
/// The ROM gave an unknown type code.
pub const CODE_UNKNOWN_NVM: u32 = 0x7008;

/// Types of serial flash that the ROM tells apart.
#[derive(Debug, Copy, Clone, PartialEq, Eq, Structural)]
pub enum NvmType {
    /// No flash.
    NoNvm,
    /// SST-compatible.
    SST,
    /// ST-compatible.
    ST,
    /// Atmel-compatible.
    ATM,
}

impl NvmType {
    /// The ROM's code of the type.
    pub open spec fn spec_as_raw(self) -> u32 {
        match self {
            NvmType::NoNvm => 0,
            NvmType::SST => 1,
            NvmType::ST => 2,
            NvmType::ATM => 3,
        }
    }

    /// The ROM's code of the type.
    pub fn as_raw(self) -> (code: u32)
        ensures
            code == self.spec_as_raw(),
    {
        match self {
            NvmType::NoNvm => 0,
            NvmType::SST => 1,
            NvmType::ST => 2,
            NvmType::ATM => 3,
        }
    }

    /// The type that a code stands for, if any.
    pub open spec fn spec_from_raw(code: u32) -> Option<NvmType> {
        if code == 0 {
            Some(NvmType::NoNvm)
        } else if code == 1 {
            Some(NvmType::SST)
        } else if code == 2 {
            Some(NvmType::ST)
        } else if code == 3 {
            Some(NvmType::ATM)
        } else {
            None
        }
    }

    /// The type that a code stands for, or `None` if it stands for none.
    pub fn from_raw(code: u32) -> (found: Option<NvmType>)
        ensures
            found == NvmType::spec_from_raw(code),
            found is Some <==> code <= 3,
            found matches Some(t) ==> t.spec_as_raw() == code,
    {
        match code {
            0 => Some(NvmType::NoNvm),
            1 => Some(NvmType::SST),
            2 => Some(NvmType::ST),
            3 => Some(NvmType::ATM),
            _ => None,
        }
    }
}

/// Statuses of the ROM's routines.
#[derive(Debug, Copy, Clone, PartialEq, Eq, Structural)]
pub enum NvmErr {
    /// Success.
    NoError,
    /// No such interface.
    InvalidInterface,
    /// No such type of flash.
    InvalidNvmType,
    /// A bad pointer.
    InvalidPointer,
    /// The flash is write protected.
    WriteProtect,
    /// What was written does not read back.
    VerifyError,
    /// An address beyond the part.
    AddressSpaceOverflow,
    /// The flash is not blank.
    BlankCheckError,
    /// A reserved area.
    RestrictedArea,
    /// Any code that the ROM is not documented to return.
    Unknown,
}

impl NvmErr {
    /// The status that a code stands for.
    pub open spec fn spec_from_raw(code: u32) -> NvmErr {
        if code == 0 {
            NvmErr::NoError
        } else if code == 1 {
            NvmErr::InvalidInterface
        } else if code == 2 {
            NvmErr::InvalidNvmType
        } else if code == 3 {
            NvmErr::InvalidPointer
        } else if code == 4 {
            NvmErr::WriteProtect
        } else if code == 5 {
            NvmErr::VerifyError
        } else if code == 6 {
            NvmErr::AddressSpaceOverflow
        } else if code == 7 {
            NvmErr::BlankCheckError
        } else if code == 8 {
            NvmErr::RestrictedArea
        } else {
            NvmErr::Unknown
        }
    }

    /// The status that a code stands for.
    pub fn from_raw(code: u32) -> (status: NvmErr)
        ensures
            status == NvmErr::spec_from_raw(code),
            status is NoError <==> code == 0,
    {
        match code {
            0 => NvmErr::NoError,
            1 => NvmErr::InvalidInterface,
            2 => NvmErr::InvalidNvmType,
            3 => NvmErr::InvalidPointer,
            4 => NvmErr::WriteProtect,
            5 => NvmErr::VerifyError,
            6 => NvmErr::AddressSpaceOverflow,
            7 => NvmErr::BlankCheckError,
            8 => NvmErr::RestrictedArea,
            _ => NvmErr::Unknown,
        }
    }
}

/// What a ROM code gives when only zero means success.
pub open spec fn zero_or(code: u32, failure: u32) -> Result<(), u32> {
    if code == 0 {
        Ok(())
    } else {
        Err(failure)
    }
}

fn judge(code: u32, failure: u32) -> (outcome: Result<(), u32>)
    ensures
        outcome == zero_or(code, failure),
{
    match NvmErr::from_raw(code) {
        NvmErr::NoError => Ok(()),
        _ => Err(failure),
    }
}

/// A running flash algorithm: it knows what flash it drives.
#[derive(Debug, Copy, Clone, PartialEq, Eq, Structural)]
pub struct Algorithm {
    /// The flash that was detected.
    pub nvm_type: NvmType,
}

/// Whether `size` bytes from `address` lie within the part.
pub open spec fn in_flash(address: int, size: int) -> bool {
    0 <= address < FLASH_SIZE && address + size <= FLASH_SIZE
}

impl Algorithm {
    /// The program that brings the chip up, and then the ROM call that detects the flash.
    ///
    /// Every privileged mode gets a stack of its own and interrupts stay masked, since the ROM
    /// may switch modes; the ROM's own RAM state is set up before any other ROM call; then the
    /// regulators are started as in a normal boot.
    pub fn bring_up() -> (begun: (Vec<Op>, NvmCall))
        ensures
            begun.0@ == seq![
                Op::Call(
                    Call::SetModeStacks {
                        fiq: 0x403100,
                        irq: 0x403200,
                        svc: 0x403300,
                        und: 0x403400,
                        abt: 0x403500,
                    },
                ),
                Op::Call(Call::RomDataInit),
                Op::Write { reg: Register::CrmSysCntl, value: 0x0000_0018 },
                Op::Write { reg: Register::CrmVregCntl, value: 0x0000_0f04 },
                Op::ReadLoop { reg: Register::CrmStatus, count: 0x161a8 },
                Op::Write { reg: Register::CrmVregCntl, value: 0x0000_0ff8 },
                Op::WaitSet { reg: Register::CrmStatus, bits: VREG_1P5V_RDY },
                Op::WaitSet { reg: Register::CrmStatus, bits: VREG_1P8V_RDY },
            ],
            begun.1 == (NvmCall::Detect { interface: INTERNAL_INTERFACE }),
    {
        let program: Vec<Op> = vec![
            Op::Call(
                Call::SetModeStacks {
                    fiq: 0x403100,
                    irq: 0x403200,
                    svc: 0x403300,
                    und: 0x403400,
                    abt: 0x403500,
                },
            ),
            Op::Call(Call::RomDataInit),
            Op::Write { reg: Register::CrmSysCntl, value: 0x0000_0018 },
            Op::Write { reg: Register::CrmVregCntl, value: 0x0000_0f04 },
            Op::ReadLoop { reg: Register::CrmStatus, count: 0x161a8 },
            Op::Write { reg: Register::CrmVregCntl, value: 0x0000_0ff8 },
            Op::WaitSet { reg: Register::CrmStatus, bits: VREG_1P5V_RDY },
            Op::WaitSet { reg: Register::CrmStatus, bits: VREG_1P8V_RDY },
        ];
        (program, NvmCall::Detect { interface: INTERNAL_INTERFACE })
    }

    /// The algorithm, from the status and the type code that detection gave, with the ROM call
    /// that readies the flash driver; or the code of the failure.
    pub fn new(status: u32, type_code: u32) -> (made: Result<(Algorithm, Op), u32>)
        ensures
            made == (if status != 0 {
                Err(CODE_DETECT)
            } else {
                match NvmType::spec_from_raw(type_code) {
                    None => Err(CODE_UNKNOWN_NVM),
                    Some(NvmType::NoNvm) => Err(CODE_NO_NVM),
                    Some(nvm_type) => Ok(
                        (Algorithm { nvm_type }, Op::Call(Call::NvmSetsvar { value: 0 })),
                    ),
                }
            }),
    {
        match NvmErr::from_raw(status) {
            NvmErr::NoError => {},
            _ => {
                return Err(CODE_DETECT);
            },
        }
        match NvmType::from_raw(type_code) {
            None => Err(CODE_UNKNOWN_NVM),
            Some(NvmType::NoNvm) => Err(CODE_NO_NVM),
            Some(nvm_type) => Ok(
                (Algorithm { nvm_type }, Op::Call(Call::NvmSetsvar { value: 0 })),
            ),
        }
    }

    /// Erase the whole part but its top sector: the ROM call to make.
    pub fn erase_all(&self) -> (call: NvmCall)
        ensures
            call == (NvmCall::Erase {
                interface: INTERNAL_INTERFACE,
                nvm_type: self.nvm_type.spec_as_raw(),
                sectors: ALL_SECTORS,
            }),
    {
        NvmCall::Erase {
            interface: INTERNAL_INTERFACE,
            nvm_type: self.nvm_type.as_raw(),
            sectors: ALL_SECTORS,
        }
    }

    /// Judge the status of erasing the part.
    pub fn erased_all(&self, status: u32) -> (outcome: Result<(), u32>)
        ensures
            outcome == zero_or(status, CODE_ERASE_ALL),
    {
        judge(status, CODE_ERASE_ALL)
    }

    /// Erase the sector that holds `addr`: the ROM call to make, or the failure if no sector
    /// does.
    pub fn erase_sector(&self, addr: u32) -> (asked: Result<NvmCall, u32>)
        ensures
            addr >= FLASH_SIZE ==> asked == Err::<NvmCall, u32>(CODE_BAD_SECTOR),
            addr < FLASH_SIZE ==> asked == Ok::<NvmCall, u32>(
                NvmCall::Erase {
                    interface: INTERNAL_INTERFACE,
                    nvm_type: self.nvm_type.spec_as_raw(),
                    sectors: 1u32 << (addr / FLASH_SECTOR_SIZE),
                },
            ),
    {
        let sector_num: u32 = addr / FLASH_SECTOR_SIZE;
        if sector_num >= FLASH_NUM_SECTORS {
            return Err(CODE_BAD_SECTOR);
        }
        Ok(
            NvmCall::Erase {
                interface: INTERNAL_INTERFACE,
                nvm_type: self.nvm_type.as_raw(),
                sectors: 1u32 << sector_num,
            },
        )
    }

    /// Judge the status of erasing a sector.
    pub fn erased_sector(&self, status: u32) -> (outcome: Result<(), u32>)
        ensures
            outcome == zero_or(status, CODE_ERASE_SECTOR),
    {
        judge(status, CODE_ERASE_SECTOR)
    }

    /// Program `length` bytes at `addr`: the ROM call to make, nothing at all for no bytes, or
    /// the failure if the bytes leave the part.
    pub fn program_page(&self, addr: u32, length: usize) -> (asked: Result<Option<NvmCall>, u32>)
        ensures
            asked == (if length == 0 {
                Ok(None)
            } else if !in_flash(addr as int, length as int) {
                Err(CODE_OUT_OF_RANGE)
            } else {
                Ok(
                    Some(
                        NvmCall::Write {
                            interface: INTERNAL_INTERFACE,
                            nvm_type: self.nvm_type.spec_as_raw(),
                            address: addr,
                            length: length as u32,
                        },
                    ),
                )
            }),
    {
        if length == 0 {
            return Ok(None);
        }
        if addr >= FLASH_SIZE || length > (FLASH_SIZE - addr) as usize {
            return Err(CODE_OUT_OF_RANGE);
        }
        Ok(
            Some(
                NvmCall::Write {
                    interface: INTERNAL_INTERFACE,
                    nvm_type: self.nvm_type.as_raw(),
                    address: addr,
                    length: length as u32,
                },
            ),
        )
    }

    /// Judge the error count of programming a page.
    pub fn programmed_page(&self, error_count: u32) -> (outcome: Result<(), u32>)
        ensures
            outcome == zero_or(error_count, CODE_PROGRAM),
    {
        if error_count != 0 {
            return Err(CODE_PROGRAM);
        }
        Ok(())
    }

    /// Verify `size` bytes at `address`: the ROM call to make, nothing at all where there is
    /// nothing to compare, or the failing address if the bytes leave the part.
    pub fn verify(&self, address: u32, size: u32, has_data: bool) -> (asked: Result<
        Option<NvmCall>,
        u32,
    >)
        ensures
            asked == (if !has_data || size == 0 {
                Ok(None)
            } else if !in_flash(address as int, size as int) {
                Err(address)
            } else {
                Ok(
                    Some(
                        NvmCall::Verify {
                            interface: INTERNAL_INTERFACE,
                            nvm_type: self.nvm_type.spec_as_raw(),
                            address,
                            length: size,
                        },
                    ),
                )
            }),
    {
        if !has_data {
            return Ok(None);
        }
        if size == 0 {
            return Ok(None);
        }
        if address >= FLASH_SIZE || size > FLASH_SIZE - address {
            return Err(address);
        }
        Ok(
            Some(
                NvmCall::Verify {
                    interface: INTERNAL_INTERFACE,
                    nvm_type: self.nvm_type.as_raw(),
                    address,
                    length: size,
                },
            ),
        )
    }

    /// Judge the status of verifying bytes at `address`. The ROM reports no position, so the
    /// failing address is the start of the region.
    pub fn verified(&self, address: u32, status: u32) -> (outcome: Result<(), u32>)
        ensures
            outcome == zero_or(status, address),
    {
        judge(status, address)
    }
}

/// Erasing the part leaves exactly the top sector alone.
pub proof fn law_erase_all_spares_the_top_sector(sector: u32)
    requires
        sector < 32,
    ensures
        has_sector(ALL_SECTORS, sector) <==> sector != 31,
{
    assert((0x7FFF_FFFFu32 & (1u32 << sector) != 0) <==> sector != 31) by (bit_vector)
        requires
            sector < 32,
    ;
}

/// Erasing the sector of an address selects that sector and no other.
pub proof fn law_erase_sector_is_single(addr: u32, sector: u32)
    requires
        addr < FLASH_SIZE,
        sector < 32,
    ensures
        has_sector(1u32 << (addr / FLASH_SECTOR_SIZE), sector) <==> sector * FLASH_SECTOR_SIZE
            <= addr < (sector + 1) * FLASH_SECTOR_SIZE,
{
    let own = addr / FLASH_SECTOR_SIZE;
    assert(((1u32 << own) & (1u32 << sector) != 0) <==> own == sector) by (bit_vector)
        requires
            own < 32,
            sector < 32,
    ;
}

/// Codes and types of flash stand for each other: a type has its own code, which gives the type
/// back, and no code above 3 stands for any.
pub proof fn law_type_codes_round_trip(code: u32, nvm_type: NvmType)
    ensures
        NvmType::spec_from_raw(nvm_type.spec_as_raw()) == Some(nvm_type),
        code > 3 ==> NvmType::spec_from_raw(code) is None,
        code <= 3 ==> (NvmType::spec_from_raw(code) matches Some(found) && found.spec_as_raw()
            == code),
        NvmType::NoNvm.spec_as_raw() == 0,
        NvmType::SST.spec_as_raw() == 1,
        NvmType::ST.spec_as_raw() == 2,
        NvmType::ATM.spec_as_raw() == 3,
{
}

/// Every documented status has a code of its own, success the code zero, and no other code stands
/// for any of them.
pub proof fn law_statuses_have_codes_of_their_own(code: u32)
    ensures
        NvmErr::spec_from_raw(code) is NoError <==> code == 0,
        NvmErr::spec_from_raw(code) is InvalidInterface <==> code == 1,
        NvmErr::spec_from_raw(code) is InvalidNvmType <==> code == 2,
        NvmErr::spec_from_raw(code) is InvalidPointer <==> code == 3,
        NvmErr::spec_from_raw(code) is WriteProtect <==> code == 4,
        NvmErr::spec_from_raw(code) is VerifyError <==> code == 5,
        NvmErr::spec_from_raw(code) is AddressSpaceOverflow <==> code == 6,
        NvmErr::spec_from_raw(code) is BlankCheckError <==> code == 7,
        NvmErr::spec_from_raw(code) is RestrictedArea <==> code == 8,
        NvmErr::spec_from_raw(code) is Unknown <==> code > 8,
{
}

/// An operation succeeded exactly if the ROM said zero; otherwise it failed with the code that
/// stands for the operation, whatever the ROM said.
pub proof fn law_only_zero_is_success(code: u32, failure: u32)
    ensures
        code == 0 ==> zero_or(code, failure) == Ok::<(), u32>(()),
        code != 0 ==> zero_or(code, failure) == Err::<(), u32>(failure),
{
}

/// Bytes lie in the flash exactly if the first and the last of them lie below 128 KiB.
pub proof fn law_flash_is_128_kib(address: u32, size: u32)
    requires
        size > 0,
    ensures
        in_flash(address as int, size as int) <==> address + size <= 0x2_0000,
{
}

} // verus!
