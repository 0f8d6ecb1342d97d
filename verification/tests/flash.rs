use mc1322x::flash_algorithm::{Algorithm, NvmErr, NvmType};
use mc1322x::nvm::{check_rom, Error, NorFlashErrorKind, Nvm, NvmCall, NvmInterface};
use mc1322x::port::{Call, Op, Register};

fn sst() -> Nvm {
    Nvm::new_assume_sst().0
}

#[test]
fn the_part_is_prepared_before_it_is_used() {
    let (nvm, program) = Nvm::new_assume_sst();
    assert_eq!(nvm, Nvm { interface: 0, nvm_type: 1 });
    assert_eq!(program.len(), 7);
    assert_eq!(program[0], Op::Write { reg: Register::CrmSysCntl, value: 0x18 });
    assert_eq!(program[6], Op::Call(Call::NvmSetsvar { value: 0 }));
    let (again, call) = Nvm::new();
    assert_eq!(again, program);
    assert_eq!(call, NvmCall::Detect { interface: 0 });
    assert_eq!(NvmInterface::External.as_raw(), 1);
}

#[test]
fn detection_accepts_only_the_sst_part() {
    assert_eq!(Nvm::detected(0, 1), Ok(sst()));
    assert_eq!(Nvm::detected(0, 0), Err(Error::UnsupportedFlash));
    assert_eq!(Nvm::detected(0, 2), Err(Error::UnsupportedFlash));
    assert_eq!(Nvm::detected(5, 1), Err(Error::Rom(5)));
}

#[test]
fn reads_and_writes_stay_within_the_part() {
    let nvm = sst();
    assert_eq!(nvm.capacity(), 131072);
    assert_eq!(
        nvm.read(131071, 1),
        Ok(NvmCall::Read { interface: 0, nvm_type: 1, address: 131071, length: 1 })
    );
    assert_eq!(
        nvm.write(0, 131072),
        Ok(NvmCall::Write { interface: 0, nvm_type: 1, address: 0, length: 131072 })
    );
    assert_eq!(
        nvm.read(131072, 0),
        Ok(NvmCall::Read { interface: 0, nvm_type: 1, address: 131072, length: 0 })
    );
    let out = Err(Error::Bounds(NorFlashErrorKind::OutOfBounds));
    assert_eq!(nvm.read(131072, 1), out);
    assert_eq!(nvm.write(131000, 73), out);
    assert_eq!(nvm.write(u32::MAX, usize::MAX), out);
}

#[test]
fn erasing_names_the_sectors_of_the_range() {
    let nvm = sst();
    let erase = |sectors| Ok(NvmCall::Erase { interface: 0, nvm_type: 1, sectors });
    assert_eq!(nvm.erase(0, 4096), erase(1));
    assert_eq!(nvm.erase(8192, 16384), erase(0b1100));
    assert_eq!(nvm.erase(0, 131072), erase(u32::MAX));
    assert_eq!(nvm.erase(126976, 131072), erase(0x8000_0000));
    assert_eq!(nvm.erase(4096, 4096), erase(0));
}

#[test]
fn erasing_refuses_bad_ranges() {
    let nvm = sst();
    let out = Err(Error::Bounds(NorFlashErrorKind::OutOfBounds));
    let misaligned = Err(Error::Bounds(NorFlashErrorKind::NotAligned));
    assert_eq!(nvm.erase(8192, 4096), out);
    assert_eq!(nvm.erase(0, 135168), out);
    assert_eq!(nvm.erase(1, 4096), misaligned);
    assert_eq!(nvm.erase(0, 4095), misaligned);
}

#[test]
fn adjacent_erases_make_one() {
    let nvm = sst();
    let sectors = |from, to| match nvm.erase(from, to) {
        Ok(NvmCall::Erase { sectors, .. }) => sectors,
        other => panic!("{:?}", other),
    };
    let (low, high, whole) =
        (sectors(4096, 20480), sectors(20480, 65536), sectors(4096, 65536));
    assert_eq!(low | high, whole);
    assert_eq!(low & high, 0);
}

#[test]
fn errors_have_kinds() {
    assert_eq!(Error::UnsupportedFlash.kind(), NorFlashErrorKind::Other);
    assert_eq!(
        Error::Bounds(NorFlashErrorKind::NotAligned).kind(),
        NorFlashErrorKind::NotAligned
    );
    assert_eq!(Error::Rom(6).kind(), NorFlashErrorKind::OutOfBounds);
    assert_eq!(Error::Rom(5).kind(), NorFlashErrorKind::Other);
    assert_eq!(check_rom(0), Ok(()));
    assert_eq!(check_rom(4), Err(Error::Rom(4)));
}

#[test]
fn the_algorithm_brings_the_chip_up() {
    let (program, call) = Algorithm::bring_up();
    assert_eq!(program.len(), 8);
    assert_eq!(
        program[0],
        Op::Call(Call::SetModeStacks {
            fiq: 0x403100,
            irq: 0x403200,
            svc: 0x403300,
            und: 0x403400,
            abt: 0x403500
        })
    );
    assert_eq!(program[4], Op::ReadLoop { reg: Register::CrmStatus, count: 0x161a8 });
    assert_eq!(call, NvmCall::Detect { interface: 0 });
}

#[test]
fn the_algorithm_takes_any_known_flash() {
    let setsvar = Op::Call(Call::NvmSetsvar { value: 0 });
    assert_eq!(Algorithm::new(0, 1), Ok((Algorithm { nvm_type: NvmType::SST }, setsvar)));
    assert_eq!(Algorithm::new(0, 3), Ok((Algorithm { nvm_type: NvmType::ATM }, setsvar)));
    assert_eq!(Algorithm::new(1, 1), Err(0x7001));
    assert_eq!(Algorithm::new(0, 0), Err(0x7002));
    assert_eq!(Algorithm::new(0, 4), Err(0x7008));
}

#[test]
fn the_algorithm_erases() {
    let algorithm = Algorithm { nvm_type: NvmType::ST };
    assert_eq!(
        algorithm.erase_all(),
        NvmCall::Erase { interface: 0, nvm_type: 2, sectors: 0x7FFF_FFFF }
    );
    assert_eq!(algorithm.erased_all(0), Ok(()));
    assert_eq!(algorithm.erased_all(9), Err(0x7003));
    assert_eq!(
        algorithm.erase_sector(0x1FFFF),
        Ok(NvmCall::Erase { interface: 0, nvm_type: 2, sectors: 0x8000_0000 })
    );
    assert_eq!(
        algorithm.erase_sector(0x2FFF),
        Ok(NvmCall::Erase { interface: 0, nvm_type: 2, sectors: 0b100 })
    );
    assert_eq!(algorithm.erase_sector(0x20000), Err(0x7004));
    assert_eq!(algorithm.erased_sector(5), Err(0x7005));
    assert_eq!(algorithm.erased_sector(0), Ok(()));
}

#[test]
fn the_algorithm_programs_pages() {
    let algorithm = Algorithm { nvm_type: NvmType::SST };
    assert_eq!(
        algorithm.program_page(0x1FF00, 0x100),
        Ok(Some(NvmCall::Write { interface: 0, nvm_type: 1, address: 0x1FF00, length: 0x100 }))
    );
    assert_eq!(algorithm.program_page(0x30000, 0), Ok(None));
    assert_eq!(algorithm.program_page(0x1FF01, 0x100), Err(0x7006));
    assert_eq!(algorithm.program_page(0x20000, 1), Err(0x7006));
    assert_eq!(algorithm.programmed_page(0), Ok(()));
    assert_eq!(algorithm.programmed_page(3), Err(0x7007));
}

#[test]
fn the_algorithm_verifies() {
    let algorithm = Algorithm { nvm_type: NvmType::SST };
    assert_eq!(
        algorithm.verify(0x100, 0x40, true),
        Ok(Some(NvmCall::Verify { interface: 0, nvm_type: 1, address: 0x100, length: 0x40 }))
    );
    assert_eq!(algorithm.verify(0x30000, 4, false), Ok(None));
    assert_eq!(algorithm.verify(0x30000, 0, true), Ok(None));
    assert_eq!(algorithm.verify(0x20000, 4, true), Err(0x20000));
    assert_eq!(algorithm.verify(0x1FFFE, 3, true), Err(0x1FFFE));
    assert_eq!(algorithm.verify(0x10, u32::MAX, true), Err(0x10));
    assert_eq!(algorithm.verified(0x100, 0), Ok(()));
    assert_eq!(algorithm.verified(0x100, 5), Err(0x100));
}

#[test]
fn codes_are_told_apart() {
    assert_eq!(NvmErr::from_raw(0), NvmErr::NoError);
    assert_eq!(NvmErr::from_raw(6), NvmErr::AddressSpaceOverflow);
    assert_eq!(NvmErr::from_raw(8), NvmErr::RestrictedArea);
    assert_eq!(NvmErr::from_raw(9), NvmErr::Unknown);
    assert_eq!(NvmErr::from_raw(u32::MAX), NvmErr::Unknown);
    for code in 0..4 {
        assert_eq!(NvmType::from_raw(code).unwrap().as_raw(), code);
    }
    assert_eq!(NvmType::from_raw(4), None);
}
