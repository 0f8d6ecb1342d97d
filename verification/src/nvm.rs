//! Serial flash behind the boot ROM's `nvm_*` routines.
//!
//! The chip has no on-die flash. The ROM bit-bangs a serial flash part that is wired either to
//! the chip's internal interface or to external pins. A method of [`Nvm`] checks its arguments
//! and returns the ROM call to make; [`check_rom`] turns the ROM's status into the outcome.
use crate::port::{Call, Op};
use crate::power::{power_up_program, power_up_regulators};
use vstd::prelude::*;

verus! {

/// Number of erase sectors of the SST-compatible part.
pub const SECTOR_COUNT: usize = 32;
/// Bytes per erase sector.
pub const SECTOR_SIZE: usize = 4096;
/// Bytes of the whole part.
pub const CAPACITY: usize = 131072;

/// ROM type code of the SST-compatible part.
pub const NVM_TYPE_SST: u32 = 1;
/// ROM status: no error.
pub const NVM_ERR_NO_ERROR: u32 = 0;
/// ROM status: an address beyond the part.
pub const NVM_ERR_ADDRESS_SPACE_OVERFLOW: u32 = 6;

/// Which bus the boot ROM's `nvm_*` routines drive.
#[derive(Debug, Copy, Clone, PartialEq, Eq, Structural)]
pub enum NvmInterface {
    /// The internal NVM interface.
    Internal,
    /// The external NVM interface, brought out on GPIO4-7.
    External,
}

impl NvmInterface {
    /// The ROM's code of the interface.
    pub open spec fn spec_as_raw(self) -> u32 {
        match self {
            NvmInterface::Internal => 0,
            NvmInterface::External => 1,
        }
    }

    /// The ROM's code of the interface.
    pub fn as_raw(self) -> (raw: u32)
        ensures
            raw == self.spec_as_raw(),
    {
        match self {
            NvmInterface::Internal => 0,
            NvmInterface::External => 1,
        }
    }
}

/// Why an argument was refused, in the terms of a NOR flash.
#[derive(Debug, Copy, Clone, PartialEq, Eq, Structural)]
pub enum NorFlashErrorKind {
    /// The arguments are not properly aligned.
    NotAligned,
    /// The arguments are out of bounds.
    OutOfBounds,
    /// Anything else.
    Other,
}

/// NVM error.
#[derive(Debug, Copy, Clone, PartialEq, Eq, Structural)]
pub enum Error {
    /// Detection found no flash, or a type other than the SST-compatible part.
    UnsupportedFlash,
    /// An out-of-bounds or misaligned argument, caught before calling into the ROM.
    Bounds(NorFlashErrorKind),
    /// A ROM routine reported this status.
    Rom(u32),
}

impl Error {
    /// The generic kind of the error.
    pub open spec fn spec_kind(self) -> NorFlashErrorKind {
        match self {
            Error::UnsupportedFlash => NorFlashErrorKind::Other,
            Error::Bounds(kind) => kind,
            Error::Rom(status) => if status == NVM_ERR_ADDRESS_SPACE_OVERFLOW {
                NorFlashErrorKind::OutOfBounds
            } else {
                NorFlashErrorKind::Other
            },
        }
    }

    /// The generic kind of the error.
    pub fn kind(&self) -> (kind: NorFlashErrorKind)
        ensures
            kind == self.spec_kind(),
    {
        match *self {
            Error::UnsupportedFlash => NorFlashErrorKind::Other,
            Error::Bounds(kind) => kind,
            Error::Rom(status) => {
                if status == NVM_ERR_ADDRESS_SPACE_OVERFLOW {
                    NorFlashErrorKind::OutOfBounds
                } else {
                    NorFlashErrorKind::Other
                }
            },
        }
    }
}

/// What a ROM status means.
pub open spec fn rom_outcome(status: u32) -> Result<(), Error> {
    if status == NVM_ERR_NO_ERROR {
        Ok(())
    } else {
        Err(Error::Rom(status))
    }
}

/// Turn a ROM status into the outcome of the operation.
pub fn check_rom(status: u32) -> (outcome: Result<(), Error>)
    ensures
        outcome == rom_outcome(status),
{
    if status == NVM_ERR_NO_ERROR {
        Ok(())
    } else {
        Err(Error::Rom(status))
    }
}

/// A call of one of the ROM's `nvm_*` routines. Whoever makes it supplies the memory that a
/// read fills, or that a write or a verification takes its bytes from.
#[derive(Debug, Copy, Clone, PartialEq, Eq, Structural)]
pub enum NvmCall {
    /// Find out the type of the part.
    Detect { interface: u32 },
    /// Read `length` bytes from `address`.
    Read { interface: u32, nvm_type: u32, address: u32, length: u32 },
    /// Write `length` bytes at `address`.
    Write { interface: u32, nvm_type: u32, address: u32, length: u32 },
    /// Erase every sector whose bit is set in `sectors`.
    Erase { interface: u32, nvm_type: u32, sectors: u32 },
    /// Compare `length` bytes at `address`.
    Verify { interface: u32, nvm_type: u32, address: u32, length: u32 },
}

/// Whether bytes `offset..offset + length` lie within the part.
pub open spec fn in_bounds(offset: int, length: int) -> bool {
    0 <= offset && 0 <= length && offset + length <= CAPACITY
}

/// Check a read or a write. Single bytes can be read and written, so no alignment is asked.
fn check_slice(offset: u32, length: usize) -> (checked: Result<(), NorFlashErrorKind>)
    ensures
        checked == (if in_bounds(offset as int, length as int) {
            Ok::<(), NorFlashErrorKind>(())
        } else {
            Err(NorFlashErrorKind::OutOfBounds)
        }),
{
    if length > CAPACITY || offset as usize > CAPACITY - length {
        return Err(NorFlashErrorKind::OutOfBounds);
    }
    Ok(())
}

/// What is wrong with erasing `from..to`, if anything.
pub open spec fn erase_refusal(from: int, to: int) -> Option<NorFlashErrorKind> {
    if from > to || to > CAPACITY {
        Some(NorFlashErrorKind::OutOfBounds)
    } else if from % SECTOR_SIZE as int != 0 || to % SECTOR_SIZE as int != 0 {
        Some(NorFlashErrorKind::NotAligned)
    } else {
        None
    }
}

/// Check an erase.
fn check_erase(from: u32, to: u32) -> (checked: Result<(), NorFlashErrorKind>)
    ensures
        checked == (match erase_refusal(from as int, to as int) {
            Some(kind) => Err(kind),
            None => Ok::<(), NorFlashErrorKind>(()),
        }),
{
    if from > to || to as usize > CAPACITY {
        return Err(NorFlashErrorKind::OutOfBounds);
    }
    if from % 4096 != 0 || to % 4096 != 0 {
        return Err(NorFlashErrorKind::NotAligned);
    }
    Ok(())
}

/// Whether bit `sector` is set in a sector bitfield.
pub open spec fn has_sector(sectors: u32, sector: u32) -> bool {
    sectors & (1u32 << sector) != 0
}

/// A bitfield selects exactly the sectors that lie in `from..to`.
pub open spec fn selects(sectors: u32, from: int, to: int) -> bool {
    forall|s: u32|
        0 <= s < 32 ==> (#[trigger] has_sector(sectors, s) <==> from <= s * SECTOR_SIZE < to)
}

proof fn lemma_add_sector(sectors: u32, added: u32)
    requires
        added < 32,
    ensures
        forall|s: u32|
            s < 32 ==> (#[trigger] has_sector(sectors | (1u32 << added), s) <==> has_sector(
                sectors,
                s,
            ) || s == added),
{
    assert forall|s: u32| s < 32 implies (#[trigger] has_sector(sectors | (1u32 << added), s)
        <==> has_sector(sectors, s) || s == added) by {
        assert(((sectors | (1u32 << added)) & (1u32 << s) != 0) <==> (sectors & (1u32 << s) != 0
            || s == added)) by (bit_vector)
            requires
                s < 32,
                added < 32,
        ;
    }
}

proof fn lemma_no_sectors()
    ensures
        forall|s: u32| s < 32 ==> !#[trigger] has_sector(0, s),
{
    assert forall|s: u32| s < 32 implies !#[trigger] has_sector(0, s) by {
        assert(0u32 & (1u32 << s) == 0) by (bit_vector);
    }
}

/// Two bitfields that select the sectors of one range are the same bitfield.
pub proof fn lemma_selection_is_unique(a: u32, b: u32, from: int, to: int)
    requires
        selects(a, from, to),
        selects(b, from, to),
    ensures
        a == b,
{
    if a != b {
        let d = a ^ b;
        assert(a != b ==> a ^ b != 0) by (bit_vector);
        let s = vstd::std_specs::bits::u32_trailing_zeros(d);
        assert((a & (1u32 << s) != 0) != (b & (1u32 << s) != 0)) by (bit_vector)
            requires
                s < 32,
                d == a ^ b,
                (d >> s) & 1u32 == 1u32,
        ;
        assert(has_sector(a, s) != has_sector(b, s));
    }
}

/// The sectors of `from..to` as a bitfield.
fn sector_bitfield(from: u32, to: u32) -> (sectors: u32)
    requires
        erase_refusal(from as int, to as int) is None,
    ensures
        selects(sectors, from as int, to as int),
{
    let first: u32 = from / 4096;
    let end: u32 = to / 4096;
    let mut sectors: u32 = 0;
    let mut s: u32 = first;
    proof {
        lemma_no_sectors();
    }
    while s < end
        invariant
            first <= s <= end <= 32,
            first * SECTOR_SIZE == from,
            end * SECTOR_SIZE == to,
            selects(sectors, from as int, s * SECTOR_SIZE),
        decreases end - s,
    {
        proof {
            lemma_add_sector(sectors, s);
        }
        sectors = sectors | (1u32 << s);
        s = s + 1;
    }
    sectors
}

/// Serial flash, driven through the boot ROM's `nvm_*` routines.
///
/// Only the SST-compatible geometry is supported: 32 sectors of 4096 bytes each, 128 KiB in all.
#[derive(Debug, Copy, Clone, PartialEq, Eq, Structural)]
pub struct Nvm {
    /// The ROM's code of the bus.
    pub interface: u32,
    /// The ROM's code of the part.
    pub nvm_type: u32,
}

/// The program that must run before any `nvm_*` routine is called.
pub open spec fn prepare_program() -> Seq<Op> {
    power_up_program().push(Op::Call(Call::NvmSetsvar { value: 0 }))
}

/// Power up the regulators that the ROM's flash routines need, and clear the ROM's secure
/// variable.
pub fn prepare_flash_access() -> (program: Vec<Op>)
    ensures
        program@ == prepare_program(),
{
    let mut program: Vec<Op> = power_up_regulators();
    program.push(Op::Call(Call::NvmSetsvar { value: 0 }));
    program
}

impl Nvm {
    /// Begin to detect the flash part on the board's interface: the program to run, and then the
    /// ROM call to make. [`Nvm::detected`] takes what the call gave.
    pub fn new() -> (begun: (Vec<Op>, NvmCall))
        ensures
            begun.0@ == prepare_program(),
            begun.1 == (NvmCall::Detect { interface: crate::board::NVM_INTERFACE.spec_as_raw() }),
            begun.1 == (NvmCall::Detect { interface: 0 }),
    {
        let call = NvmCall::Detect { interface: crate::board::NVM_INTERFACE.as_raw() };
        (prepare_flash_access(), call)
    }

    /// The flash part, from the status and the type code that detection gave.
    pub fn detected(status: u32, nvm_type: u32) -> (outcome: Result<Nvm, Error>)
        ensures
            outcome == (if status != NVM_ERR_NO_ERROR {
                Err(Error::Rom(status))
            } else if nvm_type != NVM_TYPE_SST {
                Err(Error::UnsupportedFlash)
            } else {
                Ok(
                    (Nvm {
                        interface: crate::board::NVM_INTERFACE.spec_as_raw(),
                        nvm_type: NVM_TYPE_SST,
                    }),
                )
            }),
            status == 0 && nvm_type == 1 ==> outcome == Ok::<Nvm, Error>(
                Nvm { interface: 0, nvm_type: 1 },
            ),
    {
        match check_rom(status) {
            Err(error) => Err(error),
            Ok(()) => {
                if nvm_type != NVM_TYPE_SST {
                    return Err(Error::UnsupportedFlash);
                }
                Ok(Nvm { interface: crate::board::NVM_INTERFACE.as_raw(), nvm_type })
            },
        }
    }

    /// The SST-compatible part on the board's interface, without detection, with the program to
    /// run before it is used.
    ///
    /// For situations where detection itself hangs or faults.
    pub fn new_assume_sst() -> (made: (Nvm, Vec<Op>))
        ensures
            made.0 == (Nvm {
                interface: crate::board::NVM_INTERFACE.spec_as_raw(),
                nvm_type: NVM_TYPE_SST,
            }),
            made.0 == (Nvm { interface: 0, nvm_type: 1 }),
            made.1@ == prepare_program(),
    {
        (
            Nvm { interface: crate::board::NVM_INTERFACE.as_raw(), nvm_type: NVM_TYPE_SST },
            prepare_flash_access(),
        )
    }

    /// Bytes of the whole part.
    pub fn capacity(&self) -> (capacity: usize)
        ensures
            capacity == SECTOR_COUNT * SECTOR_SIZE,
    {
        CAPACITY
    }

    /// The outcome of asking for a read.
    pub open spec fn read_call(self, offset: int, length: int) -> Result<NvmCall, Error> {
        if in_bounds(offset, length) {
            Ok(
                NvmCall::Read {
                    interface: self.interface,
                    nvm_type: self.nvm_type,
                    address: offset as u32,
                    length: length as u32,
                },
            )
        } else {
            Err(Error::Bounds(NorFlashErrorKind::OutOfBounds))
        }
    }

    /// Read `length` bytes from `offset`: the ROM call to make, unless the range leaves the part.
    pub fn read(&self, offset: u32, length: usize) -> (asked: Result<NvmCall, Error>)
        ensures
            asked == self.read_call(offset as int, length as int),
    {
        match check_slice(offset, length) {
            Err(kind) => Err(Error::Bounds(kind)),
            Ok(()) => Ok(
                NvmCall::Read {
                    interface: self.interface,
                    nvm_type: self.nvm_type,
                    address: offset,
                    length: length as u32,
                },
            ),
        }
    }

    /// The outcome of asking for a write.
    pub open spec fn write_call(self, offset: int, length: int) -> Result<NvmCall, Error> {
        if in_bounds(offset, length) {
            Ok(
                NvmCall::Write {
                    interface: self.interface,
                    nvm_type: self.nvm_type,
                    address: offset as u32,
                    length: length as u32,
                },
            )
        } else {
            Err(Error::Bounds(NorFlashErrorKind::OutOfBounds))
        }
    }

    /// Write `length` bytes at `offset`: the ROM call to make, unless the range leaves the part.
    pub fn write(&self, offset: u32, length: usize) -> (asked: Result<NvmCall, Error>)
        ensures
            asked == self.write_call(offset as int, length as int),
    {
        match check_slice(offset, length) {
            Err(kind) => Err(Error::Bounds(kind)),
            Ok(()) => Ok(
                NvmCall::Write {
                    interface: self.interface,
                    nvm_type: self.nvm_type,
                    address: offset,
                    length: length as u32,
                },
            ),
        }
    }

    /// Whether `asked` is the outcome of asking to erase `from..to`.
    pub open spec fn is_erase_call(
        self,
        from: int,
        to: int,
        asked: Result<NvmCall, Error>,
    ) -> bool {
        match erase_refusal(from, to) {
            Some(kind) => asked == Err::<NvmCall, Error>(Error::Bounds(kind)),
            None => asked matches Ok(NvmCall::Erase { interface, nvm_type, sectors })
                && interface == self.interface && nvm_type == self.nvm_type && selects(
                sectors,
                from,
                to,
            ),
        }
    }

    /// Erase `from..to`: the ROM call to make, unless the range leaves the part or does not
    /// consist of whole sectors. The call's bitfield names exactly the sectors in the range.
    pub fn erase(&self, from: u32, to: u32) -> (asked: Result<NvmCall, Error>)
        ensures
            self.is_erase_call(from as int, to as int, asked),
    {
        match check_erase(from, to) {
            Err(kind) => Err(Error::Bounds(kind)),
            Ok(()) => Ok(
                NvmCall::Erase {
                    interface: self.interface,
                    nvm_type: self.nvm_type,
                    sectors: sector_bitfield(from, to),
                },
            ),
        }
    }
}

/// Asking to erase a range has one outcome.
pub proof fn law_erase_call_is_unique(
    nvm: Nvm,
    from: int,
    to: int,
    a: Result<NvmCall, Error>,
    b: Result<NvmCall, Error>,
)
    requires
        nvm.is_erase_call(from, to, a),
        nvm.is_erase_call(from, to, b),
    ensures
        a == b,
{
    if erase_refusal(from, to) is None {
        let sa = a->Ok_0->Erase_sectors;
        let sb = b->Ok_0->Erase_sectors;
        lemma_selection_is_unique(sa, sb, from, to);
    }
}

/// Erasing two adjacent ranges erases exactly the sectors that erasing their union does, and no
/// sector twice.
pub proof fn law_adjacent_erases(
    nvm: Nvm,
    from: int,
    middle: int,
    to: int,
    low: Result<NvmCall, Error>,
    high: Result<NvmCall, Error>,
    whole: Result<NvmCall, Error>,
)
    requires
        0 <= from <= middle <= to,
        nvm.is_erase_call(from, middle, low),
        nvm.is_erase_call(middle, to, high),
        nvm.is_erase_call(from, to, whole),
        low is Ok,
        high is Ok,
    ensures
        whole is Ok,
        forall|s: u32|
            0 <= s < 32 ==> {
                let in_low = has_sector(low->Ok_0->Erase_sectors, s);
                let in_high = has_sector(high->Ok_0->Erase_sectors, s);
                &&& #[trigger] has_sector(whole->Ok_0->Erase_sectors, s) <==> in_low || in_high
                &&& !(in_low && in_high)
            },
{
}

/// A read or a write is handed to the ROM exactly if all of its bytes lie within the 128 KiB of
/// the part, with the address and the length that were asked for; otherwise it is out of bounds.
pub proof fn law_reads_and_writes_stay_within_the_part(nvm: Nvm, offset: u32, length: usize)
    ensures
        offset + length <= 0x2_0000 ==> nvm.read_call(offset as int, length as int) == Ok::<
            NvmCall,
            Error,
        >(
            NvmCall::Read {
                interface: nvm.interface,
                nvm_type: nvm.nvm_type,
                address: offset,
                length: length as u32,
            },
        ),
        offset + length <= 0x2_0000 ==> nvm.write_call(offset as int, length as int) == Ok::<
            NvmCall,
            Error,
        >(
            NvmCall::Write {
                interface: nvm.interface,
                nvm_type: nvm.nvm_type,
                address: offset,
                length: length as u32,
            },
        ),
        offset + length > 0x2_0000 ==> nvm.read_call(offset as int, length as int) == Err::<
            NvmCall,
            Error,
        >(Error::Bounds(NorFlashErrorKind::OutOfBounds)),
        offset + length > 0x2_0000 ==> nvm.write_call(offset as int, length as int) == Err::<
            NvmCall,
            Error,
        >(Error::Bounds(NorFlashErrorKind::OutOfBounds)),
{
}

/// An erase is handed to the ROM exactly if its range lies within the part and consists of whole
/// sectors of 4096 bytes, and then names every sector in the range and no other; a range that is
/// turned round or leaves the part is out of bounds, and any other is not aligned.
pub proof fn law_erase_names_the_sectors_of_its_range(
    nvm: Nvm,
    from: u32,
    to: u32,
    asked: Result<NvmCall, Error>,
    sector: u32,
)
    requires
        nvm.is_erase_call(from as int, to as int, asked),
        sector < 32,
    ensures
        if from > to || to > 0x2_0000 {
            asked == Err::<NvmCall, Error>(Error::Bounds(NorFlashErrorKind::OutOfBounds))
        } else if from % 4096 != 0 || to % 4096 != 0 {
            asked == Err::<NvmCall, Error>(Error::Bounds(NorFlashErrorKind::NotAligned))
        } else {
            asked matches Ok(NvmCall::Erase { interface, nvm_type, sectors }) && interface
                == nvm.interface && nvm_type == nvm.nvm_type && (sectors & (1u32 << sector) != 0
                <==> from <= 4096 * sector < to)
        },
{
    if asked is Ok {
        let sectors = asked->Ok_0->Erase_sectors;
        assert(has_sector(sectors, sector) <==> from <= 4096 * sector < to);
    }
}

/// A status of the ROM is a success exactly if it is zero, and otherwise comes back as the error;
/// an error counts as out of bounds where the ROM met the end of the part, and keeps the kind
/// with which it was refused.
pub proof fn law_statuses_come_back(status: u32, refused: NorFlashErrorKind)
    ensures
        status == 0 ==> rom_outcome(status) == Ok::<(), Error>(()),
        status != 0 ==> rom_outcome(status) == Err::<(), Error>(Error::Rom(status)),
        status == 6 ==> Error::Rom(status).spec_kind() == NorFlashErrorKind::OutOfBounds,
        status != 6 ==> Error::Rom(status).spec_kind() == NorFlashErrorKind::Other,
        Error::Bounds(refused).spec_kind() == refused,
        Error::UnsupportedFlash.spec_kind() == NorFlashErrorKind::Other,
        NvmInterface::Internal.spec_as_raw() == 0,
        NvmInterface::External.spec_as_raw() == 1,
{
}

/// Flash is accessed only after both regulators were reported ready, and with the ROM's secure
/// variable cleared.
pub proof fn law_flash_is_powered_first()
    ensures
        ({
            let program = prepare_program();
            &&& program.len() == 7
            &&& program.take(6) == power_up_program()
            &&& program[4] == (Op::WaitSet {
                reg: crate::port::Register::CrmStatus,
                bits: 0x0008_0000,
            })
            &&& program[5] == (Op::WaitSet {
                reg: crate::port::Register::CrmStatus,
                bits: 0x0004_0000,
            })
            &&& program[6] == Op::Call(Call::NvmSetsvar { value: 0 })
        }),
{
    assert(prepare_program().take(6) =~= power_up_program());
}

} // verus!
