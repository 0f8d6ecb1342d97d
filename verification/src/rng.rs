//! Random numbers from the radio block's linear feedback shift register, and the bring-up of
//! that block.
use crate::port::{append, Call, Op, Register};
use crate::power::{power_up_program, power_up_regulators, trim_xtal};
use vstd::prelude::*;

verus! {

/// `portable_atomic::AtomicBool`.
#[verifier::external_type_specification]
#[verifier::external_body]
pub struct ExAtomicBool(portable_atomic::AtomicBool);

/// Whether a flag is set: what `portable_atomic::AtomicBool::swap` finds in it.
pub uninterp spec fn is_set(flag: portable_atomic::AtomicBool) -> bool;

/// `portable_atomic::AtomicBool::swap`: puts a value into the flag and returns what was there.
/// Nobody else gets at the flag during the call, since it is borrowed for it.
#[verifier::external_body]
fn swap(flag: &mut portable_atomic::AtomicBool, value: bool) -> (found: bool)
    ensures
        found == is_set(*old(flag)),
        is_set(*final(flag)) == value,
{
    flag.swap(value, core::sync::atomic::Ordering::AcqRel)
}

/// The program that brings the radio block up: trim the crystal, start the regulators, and reset
/// the block, in that order.
pub open spec fn maca_program() -> Seq<Op> {
    seq![Op::Write { reg: Register::CrmXtalCntl, value: 0x0367_1F52 }] + power_up_program() + seq![
        Op::Call(Call::MacaInit),
    ]
}

/// The program that makes sure of the radio block: nothing if it is up already.
pub open spec fn bring_up_program(already_ready: bool) -> Seq<Op> {
    if already_ready {
        Seq::empty()
    } else {
        maca_program()
    }
}

/// The program that makes sure of the radio block: nothing if it is up already.
pub fn maca_bring_up(already_ready: bool) -> (program: Vec<Op>)
    ensures
        program@ == bring_up_program(already_ready),
{
    let mut program: Vec<Op> = Vec::new();
    if !already_ready {
        program.push(trim_xtal());
        append(&mut program, &power_up_regulators());
        program.push(Op::Call(Call::MacaInit));
        assert(program@ =~= maca_program());
    }
    program
}

/// Bring up the radio block if nobody has done so: the program to run.
///
/// Everyone who needs the block goes through one flag, so that whoever comes first brings it up
/// and the others find it up.
pub fn ensure_maca_ready(ready: &mut portable_atomic::AtomicBool) -> (program: Vec<Op>)
    ensures
        program@ == bring_up_program(is_set(*old(ready))),
        is_set(*final(ready)),
{
    maca_bring_up(swap(ready, true))
}

/// `programs` are what callers in turn are given to make sure of the radio block, call `i` with
/// the flag as `flags[i]` before it and as `flags[i + 1]` after it.
pub open spec fn made_sure_in_turn(
    flags: Seq<portable_atomic::AtomicBool>,
    programs: Seq<Seq<Op>>,
) -> bool {
    &&& flags.len() == programs.len() + 1
    &&& forall|i: int|
        0 <= i < programs.len() ==> #[trigger] programs[i] == bring_up_program(is_set(flags[i]))
    &&& forall|i: int| 0 < i < flags.len() ==> #[trigger] is_set(flags[i])
}

/// From a flag that is not set, the radio block is brought up exactly once, by the first of those
/// who make sure of it: the others are given nothing to run, and all together run the program
/// once.
pub proof fn law_brought_up_once(
    flags: Seq<portable_atomic::AtomicBool>,
    programs: Seq<Seq<Op>>,
)
    requires
        programs.len() > 0,
        made_sure_in_turn(flags, programs),
        !is_set(flags[0]),
    ensures
        programs[0] == maca_program(),
        forall|i: int| 0 < i < programs.len() ==> #[trigger] programs[i] == Seq::<Op>::empty(),
        programs.flatten() == maca_program(),
{
    assert forall|i: int| 0 < i < programs.len() implies #[trigger] programs[i] == Seq::<
        Op,
    >::empty() by {
        assert(is_set(flags[i]));
    }
    let others = programs.drop_first();
    assert forall|i: int| 0 <= i < others.len() implies #[trigger] others[i] == Seq::<
        Op,
    >::empty() by {
        assert(others[i] == programs[i + 1]);
    }
    lemma_nothing_to_run(others);
    assert(programs.flatten() =~= maca_program());
}

proof fn lemma_nothing_to_run(programs: Seq<Seq<Op>>)
    requires
        forall|i: int| 0 <= i < programs.len() ==> #[trigger] programs[i] == Seq::<Op>::empty(),
    ensures
        programs.flatten() == Seq::<Op>::empty(),
    decreases programs.len(),
{
    if programs.len() > 0 {
        let others = programs.drop_first();
        assert forall|i: int| 0 <= i < others.len() implies #[trigger] others[i] == Seq::<
            Op,
        >::empty() by {
            assert(others[i] == programs[i + 1]);
        }
        lemma_nothing_to_run(others);
    }
}

/// How many words fill this many bytes.
pub open spec fn words_for(length: int) -> int {
    (length + 3) / 4
}

/// A byte of a word, least significant first.
pub open spec fn le_byte(word: u32, j: int) -> u8 {
    if j == 0 {
        (word % 0x100) as u8
    } else if j == 1 {
        (word / 0x100 % 0x100) as u8
    } else if j == 2 {
        (word / 0x1_0000 % 0x100) as u8
    } else {
        (word / 0x100_0000) as u8
    }
}

/// Random number generator on the radio block's shift register.
///
/// The register is deterministic and free-running, not a source of entropy. The radio block must
/// be up.
#[derive(Debug, Copy, Clone, PartialEq, Eq, Structural)]
pub struct Rng;

impl Default for Rng {
    fn default() -> (rng: Rng)
        ensures
            rng == Rng,
    {
        Rng
    }
}

impl Rng {
    /// A generator. Nothing is done to the hardware.
    pub fn new() -> (rng: Rng)
        ensures
            rng == Rng,
    {
        Rng
    }

    /// Reseed the register.
    pub fn seed(&self, seed: u32) -> (op: Op)
        ensures
            op == (Op::Write { reg: Register::MacaRandom, value: seed }),
    {
        Op::Write { reg: Register::MacaRandom, value: seed }
    }

    /// Read the register.
    pub fn read(&self) -> (op: Op)
        ensures
            op == (Op::Read { reg: Register::MacaRandom }),
    {
        Op::Read { reg: Register::MacaRandom }
    }

    /// Reseed the register and read what follows: the program to run. Nothing comes between the
    /// write and the read, which is what makes the value depend on the seed alone.
    pub fn seed_and_read(&self, seed: u32) -> (program: Vec<Op>)
        ensures
            program@ == seq![
                Op::Write { reg: Register::MacaRandom, value: seed },
                Op::Read { reg: Register::MacaRandom },
            ],
    {
        vec![self.seed(seed), self.read()]
    }

    /// A 64-bit number from two reads, the first on top.
    pub fn try_next_u64(&self, first: u32, second: u32) -> (number: u64)
        ensures
            number == first * 0x1_0000_0000 + second,
    {
        first as u64 * 0x1_0000_0000 + second as u64
    }

    /// How many reads fill this many bytes.
    pub fn reads_for(&self, length: usize) -> (reads: usize)
        ensures
            reads == words_for(length as int),
    {
        length / 4 + if length % 4 == 0 {
            0
        } else {
            1
        }
    }

    /// Fill bytes from reads, four from each, least significant first.
    pub fn try_fill_bytes(&self, dst: &mut [u8], words: &[u32])
        requires
            words@.len() == words_for(old(dst)@.len() as int),
        ensures
            final(dst)@ == Seq::new(old(dst)@.len(), |i: int| le_byte(words@[i / 4], i % 4)),
    {
        let length: usize = dst.len();
        let mut i: usize = 0;
        while i < length
            invariant
                i <= length,
                length == old(dst)@.len(),
                dst@.len() == length,
                words@.len() == words_for(length as int),
                forall|k: int| 0 <= k < i ==> dst@[k] == le_byte(words@[k / 4], k % 4),
            decreases length - i,
        {
            let word: u32 = words[i / 4];
            let j: usize = i % 4;
            dst[i] = if j == 0 {
                (word % 0x100) as u8
            } else if j == 1 {
                (word / 0x100 % 0x100) as u8
            } else if j == 2 {
                (word / 0x1_0000 % 0x100) as u8
            } else {
                (word / 0x100_0000) as u8
            };
            i = i + 1;
        }
        assert(dst@ =~= Seq::new(old(dst)@.len(), |i: int| le_byte(words@[i / 4], i % 4)));
    }
}

/// Bytes are filled from just as many words as they need, four bytes from each, and the bytes of a
/// word add up to it by their places, the first the least significant.
pub proof fn law_words_are_used_up(length: int, word: u32)
    requires
        0 <= length,
    ensures
        length <= 4 * words_for(length) < length + 4,
        le_byte(word, 0) + 0x100 * le_byte(word, 1) + 0x1_0000 * le_byte(word, 2) + 0x100_0000
            * le_byte(word, 3) == word,
{
    assert(word == word % 0x100 + 0x100 * (word / 0x100 % 0x100) + 0x1_0000 * (word / 0x1_0000
        % 0x100) + 0x100_0000 * (word / 0x100_0000)) by (nonlinear_arith);
}

/// The radio block is reset only after the crystal was trimmed and both regulators were reported
/// ready; where it is up already, nothing at all is done.
pub proof fn law_block_is_reset_last()
    ensures
        bring_up_program(true).len() == 0,
        ({
            let program = bring_up_program(false);
            &&& program.len() == 8
            &&& program[0] == (Op::Write { reg: Register::CrmXtalCntl, value: 0x0367_1F52 })
            &&& program.subrange(1, 7) == power_up_program()
            &&& program[5] == (Op::WaitSet { reg: Register::CrmStatus, bits: 0x0008_0000 })
            &&& program[6] == (Op::WaitSet { reg: Register::CrmStatus, bits: 0x0004_0000 })
            &&& program[7] == Op::Call(Call::MacaInit)
        }),
{
    assert(bring_up_program(false).subrange(1, 7) =~= power_up_program());
}

} // verus!
