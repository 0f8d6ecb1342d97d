//! The ASM (AES security module): hardware AES-128, and AES-CCM-16-64-128 on top of it.
//!
//! The module computes `DATA xor AES(KEY, CTR)` in counter mode, and in CBC mode folds `DATA`
//! into an accumulator. The functions here return the register programs for an operation and
//! turn the words that a program read into its result. [`crate::ccm`] models the module, and
//! shows that the programs compute AES-CCM as RFC 3610 defines it, whatever the block cipher.
use crate::port::{append, Op, Register};
use crate::power::{power_up_program, power_up_regulators};
use vstd::prelude::*;

verus! {

/// `CONTROL0`: start the configured operation.
pub const CONTROL0_START: u32 = 0x0100_0000;
/// `CONTROL0`: clear the CBC-MAC accumulator.
pub const CONTROL0_CLEAR: u32 = 0x0200_0000;
/// `CONTROL0`: clear the done flag.
pub const CONTROL0_CLEAR_IRQ: u32 = 0x8000_0000;
/// `CONTROL1`: power on, and run the self-test.
pub const CONTROL1_TEST: u32 = 0x0400_0001;
/// `CONTROL1`: powered on, in normal mode, interrupt masked.
pub const CONTROL1_IDLE: u32 = 0x8000_0003;
/// `CONTROL1`: as idle, in counter mode.
pub const CONTROL1_IDLE_CTR: u32 = 0x8200_0003;
/// `CONTROL1`: as idle, in CBC mode.
pub const CONTROL1_IDLE_CBC: u32 = 0x8100_0003;
/// `STATUS`: the operation is done.
pub const STATUS_DONE: u32 = 0x0100_0000;
/// `STATUS`: the self-test passed.
pub const STATUS_TEST_PASS: u32 = 0x0200_0000;

/// Bytes of a block.
pub const BLOCK: usize = 16;

/// A word of a block, big-endian.
pub open spec fn be_word(block: Seq<u8>, n: int) -> u32 {
    (block[4 * n] * 0x100_0000 + block[4 * n + 1] * 0x1_0000 + block[4 * n + 2] * 0x100 + block[4
        * n + 3]) as u32
}

/// A byte of a word, most significant first.
pub open spec fn word_byte(word: u32, j: int) -> u8 {
    if j == 0 {
        (word / 0x100_0000) as u8
    } else if j == 1 {
        (word / 0x1_0000 % 0x100) as u8
    } else if j == 2 {
        (word / 0x100 % 0x100) as u8
    } else {
        (word % 0x100) as u8
    }
}

/// The four words of a block.
pub open spec fn words_of(block: Seq<u8>) -> Seq<u32> {
    Seq::new(4, |n: int| be_word(block, n))
}

/// The block that four words make.
pub open spec fn block_of(words: Seq<u32>) -> Seq<u8> {
    Seq::new(16, |i: int| word_byte(words[i / 4], i % 4))
}

proof fn lemma_bytes_of_word(a: u8, b: u8, c: u8, d: u8)
    ensures
        ({
            let word = (a * 0x100_0000 + b * 0x1_0000 + c * 0x100 + d) as u32;
            &&& word_byte(word, 0) == a
            &&& word_byte(word, 1) == b
            &&& word_byte(word, 2) == c
            &&& word_byte(word, 3) == d
        }),
{
    let word: int = a * 0x100_0000 + b * 0x1_0000 + c * 0x100 + d;
    assert(0 <= word <= 0xFFFF_FFFF);
    assert(word / 0x100_0000 == a);
    assert(word / 0x1_0000 == a * 0x100 + b);
    assert(word / 0x100 == a * 0x1_0000 + b * 0x100 + c);
}

proof fn lemma_word_of_bytes(word: u32)
    ensures
        word_byte(word, 0) * 0x100_0000 + word_byte(word, 1) * 0x1_0000 + word_byte(word, 2) * 0x100
            + word_byte(word, 3) == word,
{
}

/// Blocks and words convert back and forth without loss.
pub proof fn law_words_and_blocks(block: Seq<u8>, words: Seq<u32>)
    requires
        block.len() == 16,
        words.len() == 4,
    ensures
        block_of(words_of(block)) == block,
        words_of(block_of(words)) == words,
{
    lemma_words_to_block(block);
    assert forall|n: int| 0 <= n < 4 implies words_of(block_of(words))[n] == words[n] by {
        let b = block_of(words);
        lemma_word_of_bytes(words[n]);
        assert((4 * n) / 4 == n && (4 * n) % 4 == 0);
        assert((4 * n + 1) / 4 == n && (4 * n + 1) % 4 == 1);
        assert((4 * n + 2) / 4 == n && (4 * n + 2) % 4 == 2);
        assert((4 * n + 3) / 4 == n && (4 * n + 3) % 4 == 3);
        assert(b[4 * n] == word_byte(words[n], 0));
        assert(b[4 * n + 1] == word_byte(words[n], 1));
        assert(b[4 * n + 2] == word_byte(words[n], 2));
        assert(b[4 * n + 3] == word_byte(words[n], 3));
    }
    assert(words_of(block_of(words)) =~= words);
}

proof fn lemma_words_to_block(block: Seq<u8>)
    requires
        block.len() == 16,
    ensures
        block_of(words_of(block)) == block,
{
    lemma_bytes_of_word(block[0], block[1], block[2], block[3]);
    lemma_bytes_of_word(block[4], block[5], block[6], block[7]);
    lemma_bytes_of_word(block[8], block[9], block[10], block[11]);
    lemma_bytes_of_word(block[12], block[13], block[14], block[15]);
    let made = block_of(words_of(block));
    assert forall|i: int| 0 <= i < 16 implies made[i] == block[i] by {
        let n = i / 4;
        assert(words_of(block)[n] == be_word(block, n));
        assert(made[i] == word_byte(words_of(block)[n], i % 4));
    }
    assert(made =~= block);
}

/// The four words of a block.
pub fn block_to_words(block: &[u8; 16]) -> (words: [u32; 4])
    ensures
        words@ == words_of(block@),
{
    let mut words: [u32; 4] = [0, 0, 0, 0];
    let mut n: usize = 0;
    while n < 4
        invariant
            n <= 4,
            forall|k: int| 0 <= k < n ==> words@[k] == be_word(block@, k),
        decreases 4 - n,
    {
        words[n] = block[4 * n] as u32 * 0x100_0000 + block[4 * n + 1] as u32 * 0x1_0000 + block[4
            * n + 2] as u32 * 0x100 + block[4 * n + 3] as u32;
        n = n + 1;
    }
    words
}

fn byte_of(word: u32, j: usize) -> (byte: u8)
    ensures
        byte == word_byte(word, j as int),
{
    if j == 0 {
        (word / 0x100_0000) as u8
    } else if j == 1 {
        (word / 0x1_0000 % 0x100) as u8
    } else if j == 2 {
        (word / 0x100 % 0x100) as u8
    } else {
        (word % 0x100) as u8
    }
}

/// The block that four words make.
pub fn words_to_block(words: &[u32; 4]) -> (block: [u8; 16])
    ensures
        block@ == block_of(words@),
{
    let mut block: [u8; 16] = [0u8; 16];
    let mut i: usize = 0;
    while i < 16
        invariant
            i <= 16,
            forall|k: int| 0 <= k < i ==> block@[k] == word_byte(words@[k / 4], k % 4),
        decreases 16 - i,
    {
        block[i] = byte_of(words[i / 4], i % 4);
        i = i + 1;
    }
    block
}

/// A group of four word registers of the module.
#[derive(Debug, Copy, Clone, PartialEq, Eq, Structural)]
pub enum Bank {
    /// The key.
    Key,
    /// The data block.
    Data,
    /// The counter block.
    Ctr,
    /// The result of counter mode.
    CtrResult,
    /// The accumulator of CBC mode.
    CbcResult,
}

impl Bank {
    /// A register of the bank.
    pub open spec fn spec_reg(self, n: u8) -> Register {
        match self {
            Bank::Key => Register::AsmKey(n),
            Bank::Data => Register::AsmData(n),
            Bank::Ctr => Register::AsmCtr(n),
            Bank::CtrResult => Register::AsmCtrResult(n),
            Bank::CbcResult => Register::AsmCbcResult(n),
        }
    }

    /// A register of the bank.
    pub fn reg(self, n: u8) -> (reg: Register)
        ensures
            reg == self.spec_reg(n),
            reg == (match self {
                Bank::Key => Register::AsmKey(n),
                Bank::Data => Register::AsmData(n),
                Bank::Ctr => Register::AsmCtr(n),
                Bank::CtrResult => Register::AsmCtrResult(n),
                Bank::CbcResult => Register::AsmCbcResult(n),
            }),
    {
        match self {
            Bank::Key => Register::AsmKey(n),
            Bank::Data => Register::AsmData(n),
            Bank::Ctr => Register::AsmCtr(n),
            Bank::CtrResult => Register::AsmCtrResult(n),
            Bank::CbcResult => Register::AsmCbcResult(n),
        }
    }
}

/// The program that stores a block in a bank.
pub open spec fn write_words_program(bank: Bank, block: Seq<u8>) -> Seq<Op> {
    seq![
        Op::Write { reg: bank.spec_reg(0), value: be_word(block, 0) },
        Op::Write { reg: bank.spec_reg(1), value: be_word(block, 1) },
        Op::Write { reg: bank.spec_reg(2), value: be_word(block, 2) },
        Op::Write { reg: bank.spec_reg(3), value: be_word(block, 3) },
    ]
}

/// The program that loads a block from a bank.
pub open spec fn read_words_program(bank: Bank) -> Seq<Op> {
    seq![
        Op::Read { reg: bank.spec_reg(0) },
        Op::Read { reg: bank.spec_reg(1) },
        Op::Read { reg: bank.spec_reg(2) },
        Op::Read { reg: bank.spec_reg(3) },
    ]
}

/// The program that starts the configured operation, waits for it, and clears the done flag,
/// which a later start would not do.
pub open spec fn start_program() -> Seq<Op> {
    seq![
        Op::Write { reg: Register::AsmControl0, value: CONTROL0_START },
        Op::WaitSet { reg: Register::AsmStatus, bits: STATUS_DONE },
        Op::Write { reg: Register::AsmControl0, value: CONTROL0_CLEAR_IRQ },
    ]
}

/// The program of one counter-mode block.
pub open spec fn ctr_block_program(counter: Seq<u8>, data: Seq<u8>) -> Seq<Op> {
    seq![Op::Write { reg: Register::AsmControl1, value: CONTROL1_IDLE_CTR }]
        + write_words_program(Bank::Data, data) + write_words_program(Bank::Ctr, counter)
        + start_program() + read_words_program(Bank::CtrResult)
}

/// The program that folds one block into the CBC-MAC accumulator, cleared before the first.
pub open spec fn cbc_block_program(block: Seq<u8>, first: bool) -> Seq<Op> {
    seq![Op::Write { reg: Register::AsmControl1, value: CONTROL1_IDLE_CBC }]
        + write_words_program(Bank::Data, block) + (if first {
        seq![Op::Write { reg: Register::AsmControl0, value: CONTROL0_CLEAR }]
    } else {
        Seq::empty()
    }) + start_program()
}

fn push_write_words(program: &mut Vec<Op>, bank: Bank, block: &[u8; 16])
    ensures
        final(program)@ == old(program)@ + write_words_program(bank, block@),
{
    let words: [u32; 4] = block_to_words(block);
    program.push(Op::Write { reg: bank.reg(0), value: words[0] });
    program.push(Op::Write { reg: bank.reg(1), value: words[1] });
    program.push(Op::Write { reg: bank.reg(2), value: words[2] });
    program.push(Op::Write { reg: bank.reg(3), value: words[3] });
}

fn push_read_words(program: &mut Vec<Op>, bank: Bank)
    ensures
        final(program)@ == old(program)@ + read_words_program(bank),
{
    program.push(Op::Read { reg: bank.reg(0) });
    program.push(Op::Read { reg: bank.reg(1) });
    program.push(Op::Read { reg: bank.reg(2) });
    program.push(Op::Read { reg: bank.reg(3) });
}

fn push_start(program: &mut Vec<Op>)
    ensures
        final(program)@ == old(program)@ + start_program(),
{
    program.push(Op::Write { reg: Register::AsmControl0, value: CONTROL0_START });
    program.push(Op::WaitSet { reg: Register::AsmStatus, bits: STATUS_DONE });
    program.push(Op::Write { reg: Register::AsmControl0, value: CONTROL0_CLEAR_IRQ });
}

fn push_ctr_block(program: &mut Vec<Op>, counter: &[u8; 16], data: &[u8; 16])
    ensures
        final(program)@ == old(program)@ + ctr_block_program(counter@, data@),
{
    program.push(Op::Write { reg: Register::AsmControl1, value: CONTROL1_IDLE_CTR });
    push_write_words(program, Bank::Data, data);
    push_write_words(program, Bank::Ctr, counter);
    push_start(program);
    push_read_words(program, Bank::CtrResult);
    assert(program@ =~= old(program)@ + ctr_block_program(counter@, data@));
}

fn push_cbc_block(program: &mut Vec<Op>, block: &[u8; 16], first: bool)
    ensures
        final(program)@ == old(program)@ + cbc_block_program(block@, first),
{
    program.push(Op::Write { reg: Register::AsmControl1, value: CONTROL1_IDLE_CBC });
    push_write_words(program, Bank::Data, block);
    if first {
        program.push(Op::Write { reg: Register::AsmControl0, value: CONTROL0_CLEAR });
    }
    push_start(program);
    assert(program@ =~= old(program)@ + cbc_block_program(block@, first));
}

/// A block of zeros.
pub open spec fn zeros() -> Seq<u8> {
    Seq::new(16, |i: int| 0u8)
}

/// How many blocks hold this many bytes.
pub open spec fn block_count(length: int) -> int {
    (length + 15) / 16
}

/// A block of a message, filled up with zeros where the message ends.
pub open spec fn pad_block(message: Seq<u8>, n: int) -> Seq<u8> {
    Seq::new(
        16,
        |j: int|
            if 16 * n + j < message.len() {
                message[16 * n + j]
            } else {
                0u8
            },
    )
}

/// A message in blocks, the last filled up with zeros.
pub open spec fn pad_blocks(message: Seq<u8>) -> Seq<Seq<u8>> {
    Seq::new(block_count(message.len() as int) as nat, |n: int| pad_block(message, n))
}

/// The counter block `A_i` of RFC 3610 for a 13-byte nonce.
pub open spec fn counter_block(nonce: Seq<u8>, counter: int) -> Seq<u8> {
    seq![0x01u8] + nonce + seq![(counter / 0x100 % 0x100) as u8, (counter % 0x100) as u8]
}

/// The first block `B_0` of RFC 3610 for a 13-byte nonce.
pub open spec fn first_block(
    nonce: Seq<u8>,
    message_length: int,
    aad_length: int,
    tag_length: int,
) -> Seq<u8> {
    seq![
        (1 + 8 * ((tag_length - 2) / 2) + if aad_length > 0 {
            0x40int
        } else {
            0int
        }) as u8,
    ] + nonce + seq![(message_length / 0x100 % 0x100) as u8, (message_length % 0x100) as u8]
}

/// Additional data behind its two-byte length.
pub open spec fn prefixed(aad: Seq<u8>) -> Seq<u8> {
    seq![(aad.len() / 0x100) as u8, (aad.len() % 0x100) as u8] + aad
}

/// The blocks that RFC 3610 authenticates, for an 8-byte tag.
pub open spec fn ccm_blocks(nonce: Seq<u8>, aad: Seq<u8>, message: Seq<u8>) -> Seq<Seq<u8>> {
    seq![first_block(nonce, message.len() as int, aad.len() as int, 8)] + (if aad.len() > 0 {
        pad_blocks(prefixed(aad))
    } else {
        Seq::empty()
    }) + pad_blocks(message)
}

/// All pieces of additional data, one behind the other.
pub open spec fn joined(pieces: Seq<Vec<u8>>) -> Seq<u8>
    decreases pieces.len(),
{
    if pieces.len() == 0 {
        Seq::empty()
    } else {
        joined(pieces.drop_last()) + pieces.last()@
    }
}

/// The program that computes a CBC-MAC over blocks.
pub open spec fn cbc_program(blocks: Seq<Seq<u8>>) -> Seq<Op>
    decreases blocks.len(),
{
    if blocks.len() == 0 {
        Seq::empty()
    } else {
        cbc_program(blocks.drop_last()) + cbc_block_program(blocks.last(), blocks.len() == 1)
    }
}

/// The program that computes the MAC of a message and reads it.
pub open spec fn ccm_mac_program(nonce: Seq<u8>, aad: Seq<u8>, message: Seq<u8>) -> Seq<Op> {
    cbc_program(ccm_blocks(nonce, aad, message)) + read_words_program(Bank::CbcResult)
}

/// The program that sends the first `count` blocks of a message through counter mode, from
/// counter one on, modulo 65536.
pub open spec fn ctr_program(nonce: Seq<u8>, message: Seq<u8>, count: int) -> Seq<Op>
    decreases count,
{
    if count <= 0 {
        Seq::empty()
    } else {
        ctr_program(nonce, message, count - 1) + ctr_block_program(
            counter_block(nonce, count % 0x1_0000),
            pad_block(message, count - 1),
        )
    }
}

/// The program that encrypts a message.
pub open spec fn encrypt_program(
    key: Seq<u8>,
    nonce: Seq<u8>,
    aad: Seq<u8>,
    message: Seq<u8>,
) -> Seq<Op> {
    write_words_program(Bank::Key, key) + ccm_mac_program(nonce, aad, message)
        + ctr_block_program(counter_block(nonce, 0), zeros()) + ctr_program(
        nonce,
        message,
        block_count(message.len() as int),
    )
}

/// The program that decrypts a message, and says nothing of whether it is genuine.
pub open spec fn decrypt_program(key: Seq<u8>, nonce: Seq<u8>, message: Seq<u8>) -> Seq<Op> {
    write_words_program(Bank::Key, key) + ctr_program(
        nonce,
        message,
        block_count(message.len() as int),
    )
}

/// The program that computes what the tag of a decrypted message should be.
pub open spec fn check_program(nonce: Seq<u8>, aad: Seq<u8>, message: Seq<u8>) -> Seq<Op> {
    ccm_mac_program(nonce, aad, message) + ctr_block_program(counter_block(nonce, 0), zeros())
}

/// `embedded_cal::util::aesccm::build_b0`: the block `B_0` of RFC 3610. For a 13-byte nonce it is
/// a flags byte (one, the encoded tag length from bit 3 on, and bit 6 where there is additional
/// data), the nonce, and the two low bytes of the message length, high byte first.
#[verifier::external_body]
fn build_b0(nonce: &[u8; 13], msg_len: usize, a_len: usize, tag_len: usize) -> (b0: [u8; 16])
    requires
        2 <= tag_len <= 16,
    ensures
        b0@ == first_block(nonce@, msg_len as int, a_len as int, tag_len as int),
{
    embedded_cal::util::aesccm::build_b0(nonce, msg_len, a_len, tag_len)
}

/// The counter block `A_i` of RFC 3610 for a 13-byte nonce.
fn build_a(nonce: &[u8; 13], counter: u16) -> (block: [u8; 16])
    ensures
        block@ == counter_block(nonce@, counter as int),
{
    let mut block: [u8; 16] = [0u8; 16];
    block[0] = 0x01;
    let mut i: usize = 0;
    while i < 13
        invariant
            i <= 13,
            block@[0] == 1,
            forall|k: int| 0 <= k < i ==> block@[k + 1] == nonce@[k],
        decreases 13 - i,
    {
        block[i + 1] = nonce[i];
        i = i + 1;
    }
    block[14] = (counter / 0x100) as u8;
    block[15] = (counter % 0x100) as u8;
    assert(block@ =~= counter_block(nonce@, counter as int));
    block
}

fn take_block(message: &[u8], n: usize) -> (block: [u8; 16])
    requires
        n < block_count(message@.len() as int),
    ensures
        block@ == pad_block(message@, n as int),
{
    let mut block: [u8; 16] = [0u8; 16];
    let length: usize = message.len();
    assert(16 * n < length);
    let start: usize = 16 * n;
    let mut j: usize = 0;
    while j < 16 && j < length - start
        invariant
            j <= 16,
            length == message@.len(),
            start == 16 * n,
            start + j <= message@.len(),
            forall|k: int| 0 <= k < j ==> block@[k] == message@[start + k],
            forall|k: int| j <= k < 16 ==> block@[k] == 0,
        decreases 16 - j,
    {
        block[j] = message[start + j];
        j = j + 1;
    }
    assert(block@ =~= pad_block(message@, n as int));
    block
}

/// The program that folds further blocks into a CBC-MAC that is under way.
pub open spec fn cbc_more_program(blocks: Seq<Seq<u8>>) -> Seq<Op>
    decreases blocks.len(),
{
    if blocks.len() == 0 {
        Seq::empty()
    } else {
        cbc_more_program(blocks.drop_last()) + cbc_block_program(blocks.last(), false)
    }
}

proof fn lemma_cbc_program_split(first: Seq<Seq<u8>>, more: Seq<Seq<u8>>)
    requires
        first.len() > 0,
    ensures
        cbc_program(first + more) == cbc_program(first) + cbc_more_program(more),
    decreases more.len(),
{
    if more.len() == 0 {
        assert(first + more =~= first);
        assert(cbc_program(first) + Seq::<Op>::empty() =~= cbc_program(first));
    } else {
        lemma_cbc_program_split(first, more.drop_last());
        assert((first + more).drop_last() =~= first + more.drop_last());
        assert(cbc_program(first + more) =~= cbc_program(first) + cbc_more_program(more));
    }
}

proof fn lemma_cbc_more_split(first: Seq<Seq<u8>>, more: Seq<Seq<u8>>)
    ensures
        cbc_more_program(first + more) == cbc_more_program(first) + cbc_more_program(more),
    decreases more.len(),
{
    if more.len() == 0 {
        assert(first + more =~= first);
        assert(cbc_more_program(first) + Seq::<Op>::empty() =~= cbc_more_program(first));
    } else {
        lemma_cbc_more_split(first, more.drop_last());
        assert((first + more).drop_last() =~= first + more.drop_last());
        assert(cbc_more_program(first + more) =~= cbc_more_program(first) + cbc_more_program(
            more,
        ));
    }
}

/// The whole blocks at the front of a stream of bytes.
pub open spec fn whole_blocks(stream: Seq<u8>) -> Seq<Seq<u8>> {
    Seq::new(stream.len() / 16, |k: int| stream.subrange(16 * k, 16 * k + 16))
}

/// The bytes of a stream behind its whole blocks.
pub open spec fn left_over(stream: Seq<u8>) -> Seq<u8> {
    stream.skip(stream.len() as int / 16 * 16)
}

/// A buffer holds the first `filled` of its bytes, less than a block, and zeros behind them.
pub open spec fn is_partial(buf: Seq<u8>, filled: int) -> bool {
    &&& buf.len() == 16
    &&& 0 <= filled < 16
    &&& forall|i: int| filled <= i < 16 ==> buf[i] == 0
}

proof fn lemma_next_byte(stream: Seq<u8>, byte: u8)
    ensures
        ({
            let next = stream.push(byte);
            let rest = left_over(stream).push(byte);
            if stream.len() % 16 == 15 {
                &&& whole_blocks(next) == whole_blocks(stream).push(rest)
                &&& left_over(next) == Seq::<u8>::empty()
            } else {
                &&& whole_blocks(next) == whole_blocks(stream)
                &&& left_over(next) == rest
            }
        }),
{
    let next = stream.push(byte);
    let rest = left_over(stream).push(byte);
    let k = stream.len() as int / 16;
    if stream.len() % 16 == 15 {
        assert(next.len() / 16 == k + 1);
        assert(next.subrange(16 * k, 16 * k + 16) =~= rest);
        assert forall|i: int| 0 <= i < k implies next.subrange(16 * i, 16 * i + 16)
            == #[trigger] stream.subrange(16 * i, 16 * i + 16) by {
            assert(next.subrange(16 * i, 16 * i + 16) =~= stream.subrange(16 * i, 16 * i + 16));
        }
        assert(whole_blocks(next) =~= whole_blocks(stream).push(rest));
        assert(left_over(next) =~= Seq::<u8>::empty());
    } else {
        assert(next.len() / 16 == k);
        assert forall|i: int| 0 <= i < k implies next.subrange(16 * i, 16 * i + 16)
            == #[trigger] stream.subrange(16 * i, 16 * i + 16) by {
            assert(next.subrange(16 * i, 16 * i + 16) =~= stream.subrange(16 * i, 16 * i + 16));
        }
        assert(whole_blocks(next) =~= whole_blocks(stream));
        assert(left_over(next) =~= rest);
    }
}

/// Feeding one part and then another is feeding both at once: the same blocks go out, in the same
/// order, and the same bytes are left over.
pub proof fn law_feeding_in_parts(first: Seq<u8>, second: Seq<u8>)
    ensures
        whole_blocks(first) + whole_blocks(left_over(first) + second) == whole_blocks(
            first + second,
        ),
        left_over(left_over(first) + second) == left_over(first + second),
    decreases second.len(),
{
    let held = left_over(first);
    if second.len() == 0 {
        assert(first + second =~= first);
        assert(held + second =~= held);
        assert(whole_blocks(held) =~= Seq::<Seq<u8>>::empty());
        assert(whole_blocks(first) + whole_blocks(held) =~= whole_blocks(first));
        assert(left_over(held) =~= held);
    } else {
        let fewer = second.drop_last();
        let byte = second.last();
        law_feeding_in_parts(first, fewer);
        assert(first + second =~= (first + fewer).push(byte));
        assert(held + second =~= (held + fewer).push(byte));
        lemma_next_byte(first + fewer, byte);
        lemma_next_byte(held + fewer, byte);
        assert((held + fewer).len() % 16 == (first + fewer).len() % 16);
        assert(whole_blocks(first) + whole_blocks(held + second) =~= whole_blocks(first + second));
    }
}

proof fn lemma_pad_blocks(stream: Seq<u8>)
    ensures
        pad_blocks(stream) == whole_blocks(stream) + (if left_over(stream).len() > 0 {
            seq![pad_block(left_over(stream), 0)]
        } else {
            Seq::empty()
        }),
{
    let count = stream.len() as int / 16;
    assert forall|k: int| 0 <= k < count implies pad_block(stream, k) == #[trigger] stream.subrange(
        16 * k,
        16 * k + 16,
    ) by {
        assert(pad_block(stream, k) =~= stream.subrange(16 * k, 16 * k + 16));
    }
    if left_over(stream).len() > 0 {
        assert(pad_block(stream, count) =~= pad_block(left_over(stream), 0));
    }
    assert(pad_blocks(stream) =~= whole_blocks(stream) + (if left_over(stream).len() > 0 {
        seq![pad_block(left_over(stream), 0)]
    } else {
        Seq::empty()
    }));
}

/// Feed bytes into a CBC-MAC that is under way. `buf` holds the `filled` bytes of a block that is
/// not complete yet, from one call to the next: whole blocks of what is held and what comes go
/// out, and the rest is held.
fn feed_padded(program: &mut Vec<Op>, buf: &mut [u8; 16], filled: &mut usize, bytes: &[u8])
    requires
        is_partial(old(buf)@, *old(filled) as int),
    ensures
        is_partial(final(buf)@, *final(filled) as int),
        ({
            let stream = old(buf)@.take(*old(filled) as int) + bytes@;
            &&& final(program)@ == old(program)@ + cbc_more_program(whole_blocks(stream))
            &&& *final(filled) == stream.len() % 16
            &&& final(buf)@.take(*final(filled) as int) == left_over(stream)
        }),
{
    let ghost held = buf@.take(*filled as int);
    proof {
        assert(held + bytes@.take(0) =~= held);
        assert(whole_blocks(held) =~= Seq::<Seq<u8>>::empty());
        assert(left_over(held) =~= held);
        assert(program@ + Seq::<Op>::empty() =~= program@);
    }
    let mut i: usize = 0;
    while i < bytes.len()
        invariant
            i <= bytes.len(),
            is_partial(buf@, *filled as int),
            *filled == (held + bytes@.take(i as int)).len() % 16,
            buf@.take(*filled as int) == left_over(held + bytes@.take(i as int)),
            program@ == old(program)@ + cbc_more_program(
                whole_blocks(held + bytes@.take(i as int)),
            ),
        decreases bytes.len() - i,
    {
        let ghost stream = held + bytes@.take(i as int);
        let ghost before = buf@;
        proof {
            lemma_next_byte(stream, bytes@[i as int]);
            assert(held + bytes@.take(i + 1) =~= stream.push(bytes@[i as int]));
        }
        buf[*filled] = bytes[i];
        *filled = *filled + 1;
        assert(buf@.take(*filled as int) =~= before.take(*filled - 1).push(bytes@[i as int]));
        if *filled == 16 {
            assert(buf@.take(16) =~= buf@);
            push_cbc_block(program, buf, false);
            proof {
                let blocks = whole_blocks(stream).push(buf@);
                assert(blocks.drop_last() =~= whole_blocks(stream));
                assert(program@ =~= old(program)@ + cbc_more_program(blocks));
            }
            *buf = [0u8; 16];
            *filled = 0;
            assert(buf@.take(0) =~= Seq::<u8>::empty());
        }
        i = i + 1;
    }
    assert(bytes@.take(bytes@.len() as int) =~= bytes@);
}

/// Feed a message into a CBC-MAC that is under way, its last block filled up with zeros.
fn feed_message(program: &mut Vec<Op>, message: &[u8])
    ensures
        final(program)@ == old(program)@ + cbc_more_program(pad_blocks(message@)),
{
    let count: usize = message.len() / 16 + if message.len() % 16 == 0 {
        0
    } else {
        1
    };
    let mut n: usize = 0;
    while n < count
        invariant
            n <= count,
            count == block_count(message@.len() as int),
            program@ == old(program)@ + cbc_more_program(pad_blocks(message@).take(n as int)),
        decreases count - n,
    {
        let block: [u8; 16] = take_block(message, n);
        proof {
            let now = pad_blocks(message@).take(n + 1);
            assert(now.drop_last() =~= pad_blocks(message@).take(n as int));
        }
        push_cbc_block(program, &block, false);
        n = n + 1;
    }
    assert(pad_blocks(message@).take(count as int) =~= pad_blocks(message@));
}

proof fn lemma_joined_grows(pieces: Seq<Vec<u8>>, i: int)
    requires
        0 <= i <= pieces.len(),
    ensures
        joined(pieces.take(i)).len() <= joined(pieces).len(),
    decreases pieces.len(),
{
    if i == pieces.len() {
        assert(pieces.take(i) =~= pieces);
    } else {
        lemma_joined_grows(pieces.drop_last(), i);
        assert(pieces.drop_last().take(i) =~= pieces.take(i));
    }
}

fn total_length(pieces: &Vec<Vec<u8>>) -> (length: usize)
    requires
        joined(pieces@).len() < 0xFF00,
    ensures
        length == joined(pieces@).len(),
{
    let mut length: usize = 0;
    let mut i: usize = 0;
    while i < pieces.len()
        invariant
            i <= pieces.len(),
            joined(pieces@).len() < 0xFF00,
            length == joined(pieces@.take(i as int)).len(),
        decreases pieces.len() - i,
    {
        proof {
            assert(pieces@.take(i + 1).drop_last() =~= pieces@.take(i as int));
            lemma_joined_grows(pieces@, i + 1);
        }
        length = length + pieces[i].len();
        i = i + 1;
    }
    assert(pieces@.take(pieces@.len() as int) =~= pieces@);
    length
}

/// Feed additional data, which is not empty, behind its length into a CBC-MAC that is under way,
/// piece by piece, the last block filled up with zeros.
fn feed_aad(program: &mut Vec<Op>, aad: &Vec<Vec<u8>>, a_len: usize)
    requires
        a_len == joined(aad@).len(),
        0 < a_len < 0xFF00,
    ensures
        final(program)@ == old(program)@ + cbc_more_program(pad_blocks(prefixed(joined(aad@)))),
{
    let mut buf: [u8; 16] = [0u8; 16];
    let mut filled: usize = 0;
    let prefix: [u8; 2] = [(a_len / 0x100) as u8, (a_len % 0x100) as u8];
    let ghost length = seq![(a_len / 0x100) as u8, (a_len % 0x100) as u8];
    feed_padded(program, &mut buf, &mut filled, &prefix);
    proof {
        assert([0u8; 16]@.take(0) + prefix@ =~= length);
        assert(length + joined(aad@.take(0)) =~= length);
    }
    let mut i: usize = 0;
    while i < aad.len()
        invariant
            i <= aad.len(),
            is_partial(buf@, filled as int),
            buf@.take(filled as int) == left_over(length + joined(aad@.take(i as int))),
            program@ == old(program)@ + cbc_more_program(
                whole_blocks(length + joined(aad@.take(i as int))),
            ),
        decreases aad.len() - i,
    {
        let ghost fed = length + joined(aad@.take(i as int));
        let ghost held = buf@.take(filled as int);
        feed_padded(program, &mut buf, &mut filled, aad[i].as_slice());
        proof {
            let piece = aad@[i as int]@;
            assert(aad@.take(i + 1).drop_last() =~= aad@.take(i as int));
            assert(length + joined(aad@.take(i + 1)) =~= fed + piece);
            law_feeding_in_parts(fed, piece);
            lemma_cbc_more_split(whole_blocks(fed), whole_blocks(held + piece));
            assert(program@ =~= old(program)@ + cbc_more_program(whole_blocks(fed + piece)));
        }
        i = i + 1;
    }
    let ghost stream = prefixed(joined(aad@));
    proof {
        assert(aad@.take(aad@.len() as int) =~= aad@);
        assert(length + joined(aad@) =~= stream);
        lemma_pad_blocks(stream);
    }
    if filled > 0 {
        push_cbc_block(program, &buf, false);
        proof {
            let last = pad_block(left_over(stream), 0);
            assert(buf@.take(filled as int).len() == filled);
            assert forall|j: int| 0 <= j < filled implies buf@[j] == #[trigger] left_over(
                stream,
            )[j] by {
                assert(buf@.take(filled as int)[j] == buf@[j]);
            }
            assert(buf@ =~= last);
            assert(pad_blocks(stream).drop_last() =~= whole_blocks(stream));
            assert(pad_blocks(stream).last() == last);
            assert(program@ =~= old(program)@ + cbc_more_program(pad_blocks(stream)));
        }
    } else {
        assert(pad_blocks(stream) =~= whole_blocks(stream));
    }
}

proof fn lemma_cbc_program_one(block: Seq<u8>)
    ensures
        cbc_program(seq![block]) == cbc_block_program(block, true),
{
    assert(seq![block].drop_last() =~= Seq::<Seq<u8>>::empty());
    assert(cbc_program(Seq::empty()) =~= Seq::<Op>::empty());
    assert(cbc_program(seq![block]) =~= cbc_block_program(block, true));
}

proof fn lemma_cbc_program_extends(start: Seq<Op>, fed: Seq<Seq<u8>>, more: Seq<Seq<u8>>)
    requires
        fed.len() > 0,
    ensures
        start + cbc_program(fed) + cbc_more_program(more) == start + cbc_program(fed + more),
{
    lemma_cbc_program_split(fed, more);
    assert(start + cbc_program(fed) + cbc_more_program(more) =~= start + (cbc_program(fed)
        + cbc_more_program(more)));
}

fn push_ccm_mac(program: &mut Vec<Op>, nonce: &[u8; 13], aad: &Vec<Vec<u8>>, message: &[u8])
    requires
        joined(aad@).len() < 0xFF00,
    ensures
        final(program)@ == old(program)@ + ccm_mac_program(nonce@, joined(aad@), message@),
{
    let a_len: usize = total_length(aad);
    let b0: [u8; 16] = build_b0(nonce, message.len(), a_len, 8);
    push_cbc_block(program, &b0, true);
    let ghost first = seq![b0@];
    proof {
        lemma_cbc_program_one(b0@);
    }
    let ghost mut fed = first;
    if a_len > 0 {
        feed_aad(program, aad, a_len);
        proof {
            let blocks = pad_blocks(prefixed(joined(aad@)));
            lemma_cbc_program_extends(old(program)@, first, blocks);
            fed = first + blocks;
        }
    }
    assert(program@ == old(program)@ + cbc_program(fed));
    feed_message(program, message);
    proof {
        lemma_cbc_program_extends(old(program)@, fed, pad_blocks(message@));
        assert(fed + pad_blocks(message@) =~= ccm_blocks(nonce@, joined(aad@), message@));
    }
    let ghost macs = cbc_program(ccm_blocks(nonce@, joined(aad@), message@));
    assert(program@ == old(program)@ + macs);
    push_read_words(program, Bank::CbcResult);
    assert(program@ =~= old(program)@ + (macs + read_words_program(Bank::CbcResult)));
}

fn push_ctr_crypt(program: &mut Vec<Op>, nonce: &[u8; 13], message: &[u8])
    ensures
        final(program)@ == old(program)@ + ctr_program(
            nonce@,
            message@,
            block_count(message@.len() as int),
        ),
{
    let count: usize = message.len() / 16 + if message.len() % 16 == 0 {
        0
    } else {
        1
    };
    let mut n: usize = 0;
    while n < count
        invariant
            n <= count,
            count == block_count(message@.len() as int),
            program@ == old(program)@ + ctr_program(nonce@, message@, n as int),
        decreases count - n,
    {
        let counter: [u8; 16] = build_a(nonce, ((n + 1) % 0x1_0000) as u16);
        let block: [u8; 16] = take_block(message, n);
        push_ctr_block(program, &counter, &block);
        n = n + 1;
    }
}

/// A byte of the blocks that a program read, in the order of reading.
pub open spec fn reply_byte(replies: Seq<u32>, i: int) -> u8 {
    word_byte(replies[i / 4], i % 4)
}

/// The bytes of a message that a program read, `skipped` blocks in.
pub open spec fn reply_bytes(replies: Seq<u32>, skipped: int, length: nat) -> Seq<u8> {
    Seq::new(length, |i: int| reply_byte(replies, 16 * skipped + i))
}

/// The tag: the first eight bytes of the first block that a program read, each masked with that
/// of the second.
pub open spec fn reply_tag(replies: Seq<u32>) -> Seq<u8> {
    Seq::new(8, |i: int| reply_byte(replies, i) ^ reply_byte(replies, 16 + i))
}

fn take_bytes(message: &mut [u8], replies: &[u32], skipped: usize)
    requires
        skipped <= 2,
        replies@.len() == 4 * (skipped + block_count(old(message)@.len() as int)),
    ensures
        final(message)@ == reply_bytes(replies@, skipped as int, old(message)@.len()),
{
    let length: usize = message.len();
    let words: usize = replies.len();
    let mut i: usize = 0;
    while i < length
        invariant
            i <= length,
            length == old(message)@.len(),
            message@.len() == length,
            skipped <= 2,
            words == replies@.len(),
            words == 4 * (skipped + block_count(length as int)),
            forall|k: int| 0 <= k < i ==> message@[k] == reply_byte(replies@, 16 * skipped + k),
        decreases length - i,
    {
        let at: usize = 4 * skipped + i / 4;
        assert(at < words);
        message[i] = byte_of(replies[at], i % 4);
        assert((16 * skipped + i) / 4 == at && (16 * skipped + i) % 4 == i % 4);
        i = i + 1;
    }
    assert(message@ =~= reply_bytes(replies@, skipped as int, old(message)@.len()));
}

fn take_tag(replies: &[u32]) -> (tag: [u8; 8])
    requires
        replies@.len() >= 8,
    ensures
        tag@ == reply_tag(replies@),
{
    let mut tag: [u8; 8] = [0u8; 8];
    let mut i: usize = 0;
    while i < 8
        invariant
            i <= 8,
            replies@.len() >= 8,
            forall|k: int| 0 <= k < i ==> tag@[k] == reply_tag(replies@)[k],
        decreases 8 - i,
    {
        tag[i] = byte_of(replies[i / 4], i % 4) ^ byte_of(replies[4 + i / 4], i % 4);
        assert((16 + i) / 4 == 4 + i / 4 && (16 + i) % 4 == i % 4);
        i = i + 1;
    }
    assert(tag@ =~= reply_tag(replies@));
    tag
}

fn to_nonce(bytes: &[u8]) -> (nonce: [u8; 13])
    requires
        bytes@.len() == 13,
    ensures
        nonce@ == bytes@,
{
    let mut nonce: [u8; 13] = [0u8; 13];
    let mut i: usize = 0;
    while i < 13
        invariant
            i <= 13,
            bytes@.len() == 13,
            forall|k: int| 0 <= k < i ==> nonce@[k] == bytes@[k],
        decreases 13 - i,
    {
        nonce[i] = bytes[i];
        i = i + 1;
    }
    assert(nonce@ =~= bytes@);
    nonce
}

/// AES-CCM-16-64-128, COSE algorithm 10: AES-128, 13-byte nonce, 8-byte tag.
#[derive(Debug, Copy, Clone, PartialEq, Eq, Structural)]
pub struct AesCcm16_64_128;

impl AesCcm16_64_128 {
    /// Bytes of a key.
    pub fn key_length(&self) -> (length: usize)
        ensures
            length == 16,
    {
        16
    }

    /// Bytes of a tag.
    pub fn tag_length(&self) -> (length: usize)
        ensures
            length == 8,
    {
        8
    }

    /// Bytes of a nonce.
    pub fn nonce_length(&self) -> (length: usize)
        ensures
            length == 13,
    {
        13
    }

    /// The algorithm of a COSE number, if it is this one.
    pub fn from_cose_number(number: i128) -> (algorithm: Option<AesCcm16_64_128>)
        ensures
            algorithm == (if number == 10 {
                Some(AesCcm16_64_128)
            } else {
                None
            }),
    {
        if number == 10 {
            Some(AesCcm16_64_128)
        } else {
            None
        }
    }
}

/// The tag of a message is not the right one.
#[derive(Debug, Copy, Clone, PartialEq, Eq, Structural)]
pub struct DecryptionFailed;

/// Hardware AES-128 and AES-CCM engine.
///
/// The engine is a single shared hardware block: a program of one operation must run to its end
/// before that of another begins.
#[derive(Debug, PartialEq, Eq, Structural)]
pub struct Aes;

impl Aes {
    /// The program that powers the module up, runs its self-test and reads its status, and
    /// switches it to normal mode. [`Aes::new`] takes the status.
    pub fn bring_up() -> (program: Vec<Op>)
        ensures
            program@ == power_up_program() + seq![
                Op::Write { reg: Register::AsmControl1, value: 0x0400_0001 },
                Op::Write { reg: Register::AsmControl0, value: 0x0100_0000 },
                Op::Spin { iterations: 3330 },
                Op::Read { reg: Register::AsmStatus },
                Op::Write { reg: Register::AsmControl1, value: 0x8000_0003 },
            ],
    {
        let mut program: Vec<Op> = power_up_regulators();
        append(
            &mut program,
            &vec![
                Op::Write { reg: Register::AsmControl1, value: CONTROL1_TEST },
                Op::Write { reg: Register::AsmControl0, value: CONTROL0_START },
                Op::Spin { iterations: 3330 },
                Op::Read { reg: Register::AsmStatus },
                Op::Write { reg: Register::AsmControl1, value: CONTROL1_IDLE },
            ],
        );
        program
    }

    /// Whether the status of the self-test says that it passed.
    pub fn self_test_passed(status: u32) -> (passed: bool)
        ensures
            passed == (status & 0x0200_0000 != 0),
    {
        status & STATUS_TEST_PASS != 0
    }

    /// The engine, once the self-test has passed.
    pub fn new(status: u32) -> (aes: Aes)
        requires
            status & STATUS_TEST_PASS != 0,
        ensures
            aes == Aes,
    {
        Aes
    }

    /// Encrypt a single block: the program to run. [`Aes::encrypted_block`] takes the four words
    /// that it reads.
    ///
    /// The program is that of counter mode on an all-zero data block, with `block` as the
    /// counter.
    pub fn ecb_encrypt_block(&self, key: [u8; 16], block: [u8; 16]) -> (program: Vec<Op>)
        ensures
            program@ == write_words_program(Bank::Key, key@) + ctr_block_program(block@, zeros()),
    {
        let mut program: Vec<Op> = Vec::new();
        push_write_words(&mut program, Bank::Key, &key);
        let empty: [u8; 16] = [0u8; 16];
        assert(empty@ =~= zeros());
        push_ctr_block(&mut program, &block, &empty);
        assert(program@ =~= write_words_program(Bank::Key, key@) + ctr_block_program(
            block@,
            zeros(),
        ));
        program
    }

    /// The encrypted block, from the words that the program of [`Aes::ecb_encrypt_block`] read.
    pub fn encrypted_block(&self, replies: [u32; 4]) -> (block: [u8; 16])
        ensures
            block@ == block_of(replies@),
    {
        words_to_block(&replies)
    }

    /// The key in a byte string of the right length.
    pub fn load_from_keydata(&self, key: &[u8]) -> (loaded: [u8; 16])
        requires
            key@.len() == 16,
        ensures
            loaded@ == key@,
    {
        let loaded: [u8; 16] = take_block(key, 0);
        assert(loaded@ =~= key@);
        loaded
    }

    /// Encrypt a message: the program to run. [`Aes::encrypted`] takes the words that it reads.
    pub fn encrypt_in_place(
        &self,
        key: &[u8; 16],
        nonce: &[u8],
        message: &[u8],
        aad: &Vec<Vec<u8>>,
    ) -> (program: Vec<Op>)
        requires
            nonce@.len() == 13,
            joined(aad@).len() < 0xFF00,
        ensures
            program@ == encrypt_program(key@, nonce@, joined(aad@), message@),
    {
        let nonce: [u8; 13] = to_nonce(nonce);
        let mut program: Vec<Op> = Vec::new();
        push_write_words(&mut program, Bank::Key, key);
        push_ccm_mac(&mut program, &nonce, aad, message);
        let empty: [u8; 16] = [0u8; 16];
        assert(empty@ =~= zeros());
        push_ctr_block(&mut program, &build_a(&nonce, 0), &empty);
        push_ctr_crypt(&mut program, &nonce, message);
        assert(program@ =~= encrypt_program(key@, nonce@, joined(aad@), message@));
        program
    }

    /// Put the ciphertext in the place of the message, from the words that the program of
    /// [`Aes::encrypt_in_place`] read, and return the tag.
    pub fn encrypted(&self, message: &mut [u8], replies: &[u32]) -> (tag: [u8; 8])
        requires
            replies@.len() == 4 * (2 + block_count(old(message)@.len() as int)),
        ensures
            final(message)@ == reply_bytes(replies@, 2, old(message)@.len()),
            tag@ == reply_tag(replies@),
    {
        take_bytes(message, replies, 2);
        take_tag(replies)
    }

    /// Decrypt a message: the program to run first. [`Aes::decrypted`] takes the words that it
    /// reads.
    pub fn decrypt_in_place(&self, key: &[u8; 16], nonce: &[u8], message: &[u8]) -> (program: Vec<
        Op,
    >)
        requires
            nonce@.len() == 13,
        ensures
            program@ == decrypt_program(key@, nonce@, message@),
    {
        let nonce: [u8; 13] = to_nonce(nonce);
        let mut program: Vec<Op> = Vec::new();
        push_write_words(&mut program, Bank::Key, key);
        push_ctr_crypt(&mut program, &nonce, message);
        program
    }

    /// Put the decrypted bytes in the place of the message, from the words that the program of
    /// [`Aes::decrypt_in_place`] read, and return the program to run next: it computes what the
    /// tag should be. [`Aes::verify_tag`] takes the words that it reads.
    pub fn decrypted(
        &self,
        nonce: &[u8],
        message: &mut [u8],
        aad: &Vec<Vec<u8>>,
        replies: &[u32],
    ) -> (program: Vec<Op>)
        requires
            nonce@.len() == 13,
            joined(aad@).len() < 0xFF00,
            replies@.len() == 4 * block_count(old(message)@.len() as int),
        ensures
            final(message)@ == reply_bytes(replies@, 0, old(message)@.len()),
            program@ == check_program(nonce@, joined(aad@), final(message)@),
    {
        take_bytes(message, replies, 0);
        let nonce: [u8; 13] = to_nonce(nonce);
        let mut program: Vec<Op> = Vec::new();
        push_ccm_mac(&mut program, &nonce, aad, message);
        let empty: [u8; 16] = [0u8; 16];
        assert(empty@ =~= zeros());
        push_ctr_block(&mut program, &build_a(&nonce, 0), &empty);
        assert(program@ =~= check_program(nonce@, joined(aad@), message@));
        program
    }

    /// Compare the tag with what it should be, from the words that the program of
    /// [`Aes::decrypted`] read. Where they differ, nothing of the message is left.
    pub fn verify_tag(&self, message: &mut [u8], tag: &[u8], replies: &[u32]) -> (outcome: Result<
        (),
        DecryptionFailed,
    >)
        requires
            tag@.len() == 8,
            replies@.len() == 8,
        ensures
            outcome is Ok <==> tag@ == reply_tag(replies@),
            outcome is Ok ==> final(message)@ == old(message)@,
            outcome is Err ==> final(message)@ == Seq::new(old(message)@.len(), |i: int| 0u8),
    {
        let expected: [u8; 8] = take_tag(replies);
        let mut same: bool = true;
        let mut i: usize = 0;
        while i < 8
            invariant
                i <= 8,
                tag@.len() == 8,
                same <==> forall|k: int| 0 <= k < i ==> tag@[k] == expected@[k],
            decreases 8 - i,
        {
            if expected[i] != tag[i] {
                same = false;
            }
            i = i + 1;
        }
        if same {
            assert(tag@ =~= expected@);
            return Ok(());
        }
        let length: usize = message.len();
        let mut k: usize = 0;
        while k < length
            invariant
                k <= length,
                length == old(message)@.len(),
                message@.len() == length,
                forall|j: int| 0 <= j < k ==> message@[j] == 0,
            decreases length - k,
        {
            message[k] = 0;
            k = k + 1;
        }
        assert(message@ =~= Seq::new(old(message)@.len(), |i: int| 0u8));
        Err(DecryptionFailed)
    }
}

/// The counter block for counter `i` holds one, the nonce, and `i` with its high byte first. So
/// no two counters of a message have the same block, and no two of its blocks are masked with the
/// same key stream.
pub proof fn law_counter_blocks_differ(nonce: Seq<u8>, i: int, j: int)
    requires
        nonce.len() == 13,
        0 <= i < 0x1_0000,
        0 <= j < 0x1_0000,
    ensures
        ({
            let block = counter_block(nonce, i);
            &&& block.len() == 16
            &&& block[0] == 1
            &&& forall|k: int| 0 <= k < 13 ==> #[trigger] block[1 + k] == nonce[k]
            &&& block[14] * 256 + block[15] == i
        }),
        i != j ==> counter_block(nonce, i) != counter_block(nonce, j),
{
    if counter_block(nonce, i) == counter_block(nonce, j) {
        assert(counter_block(nonce, i)[14] == counter_block(nonce, j)[14]);
        assert(counter_block(nonce, i)[15] == counter_block(nonce, j)[15]);
    }
}

/// The first block tells everything that the rest is to be read by: in its first byte the size of
/// the length, the length of the tag and whether there is additional data, then the nonce, and the
/// length of the message with its high byte first.
pub proof fn law_first_block_tells_the_lengths(
    nonce: Seq<u8>,
    message_length: int,
    aad_length: int,
    tag_length: int,
)
    requires
        nonce.len() == 13,
        0 <= message_length,
        0 <= aad_length,
        4 <= tag_length <= 16,
        tag_length % 2 == 0,
    ensures
        ({
            let block = first_block(nonce, message_length, aad_length, tag_length);
            &&& block.len() == 16
            &&& block[0] % 8 == 1
            &&& 2 * (block[0] / 8 % 8) + 2 == tag_length
            &&& block[0] / 64 == (if aad_length > 0 {
                1int
            } else {
                0int
            })
            &&& forall|k: int| 0 <= k < 13 ==> #[trigger] block[1 + k] == nonce[k]
            &&& block[14] * 256 + block[15] == message_length % 0x1_0000
        }),
{
}

/// Additional data goes behind its length, which has its high byte first.
pub proof fn law_additional_data_follows_its_length(aad: Seq<u8>)
    requires
        aad.len() < 0xFF00,
    ensures
        prefixed(aad).len() == aad.len() + 2,
        prefixed(aad)[0] * 256 + prefixed(aad)[1] == aad.len(),
        forall|i: int| 0 <= i < aad.len() ==> #[trigger] prefixed(aad)[2 + i] == aad[i],
{
}

/// A message is cut into just as many blocks of sixteen bytes as it needs: byte `i` is byte
/// `i % 16` of block `i / 16`, and whatever the last block holds beyond the message is zero.
pub proof fn law_blocks_hold_the_message(message: Seq<u8>, i: int)
    requires
        0 <= i < 16 * block_count(message.len() as int),
    ensures
        message.len() <= 16 * block_count(message.len() as int) < message.len() + 16,
        pad_blocks(message).len() == block_count(message.len() as int),
        pad_blocks(message)[i / 16].len() == 16,
        pad_blocks(message)[i / 16][i % 16] == (if i < message.len() {
            message[i]
        } else {
            0u8
        }),
        pad_blocks(message)[i / 16] == pad_block(message, i / 16),
{
}

/// Of an empty message there is no block.
pub proof fn law_empty_message_has_no_block()
    ensures
        block_count(0) == 0,
        pad_blocks(Seq::empty()).len() == 0,
        zeros().len() == 16,
        forall|i: int| 0 <= i < 16 ==> #[trigger] zeros()[i] == 0,
{
}

/// The blocks that are authenticated are the first block, for a tag of eight bytes, then those of
/// the additional data behind its length, if there is any, and then those of the message.
pub proof fn law_everything_is_authenticated(nonce: Seq<u8>, aad: Seq<u8>, message: Seq<u8>)
    ensures
        ({
            let blocks = ccm_blocks(nonce, aad, message);
            let middle = if aad.len() > 0 {
                block_count(aad.len() as int + 2)
            } else {
                0
            };
            &&& blocks.len() == 1 + middle + block_count(message.len() as int)
            &&& blocks[0] == first_block(nonce, message.len() as int, aad.len() as int, 8)
            &&& aad.len() > 0 ==> blocks.subrange(1, 1 + middle) == pad_blocks(prefixed(aad))
            &&& blocks.skip(1 + middle) == pad_blocks(message)
        }),
{
    let blocks = ccm_blocks(nonce, aad, message);
    let middle = if aad.len() > 0 {
        block_count(aad.len() as int + 2)
    } else {
        0
    };
    if aad.len() > 0 {
        assert(blocks.subrange(1, 1 + middle) =~= pad_blocks(prefixed(aad)));
    }
    assert(blocks.skip(1 + middle) =~= pad_blocks(message));
}

/// Pieces of additional data are joined end to end.
pub proof fn law_pieces_are_joined(first: Seq<Vec<u8>>, second: Seq<Vec<u8>>, piece: Vec<u8>)
    ensures
        joined(Seq::empty()) == Seq::<u8>::empty(),
        joined(seq![piece]) == piece@,
        joined(first + second) == joined(first) + joined(second),
    decreases second.len(),
{
    reveal_with_fuel(joined, 2);
    assert(seq![piece].drop_last() =~= Seq::<Vec<u8>>::empty());
    assert(joined(seq![piece]) =~= piece@);
    if second.len() == 0 {
        assert(first + second =~= first);
        assert(joined(first) + Seq::<u8>::empty() =~= joined(first));
    } else {
        law_pieces_are_joined(first, second.drop_last(), piece);
        assert((first + second).drop_last() =~= first + second.drop_last());
        assert(joined(first + second) =~= joined(first) + joined(second));
    }
}

/// A word is its four bytes by their places, the first the most significant.
pub proof fn law_words_are_positional(block: Seq<u8>, n: int, word: u32)
    requires
        0 <= n < 4,
        block.len() == 16,
    ensures
        be_word(block, n) == 0x100_0000 * block[4 * n] + 0x1_0000 * block[4 * n + 1] + 0x100
            * block[4 * n + 2] + block[4 * n + 3],
        0x100_0000 * word_byte(word, 0) + 0x1_0000 * word_byte(word, 1) + 0x100 * word_byte(word, 2)
            + word_byte(word, 3) == word,
        words_of(block).len() == 4,
        words_of(block)[n] == be_word(block, n),
{
    lemma_word_of_bytes(word);
}

/// The bytes of a message are those of the words that were read, in order, from so many blocks on;
/// the tag is the first eight bytes of the first block masked, byte for byte, with those of the
/// second.
pub proof fn law_replies_hold_the_bytes(replies: Seq<u32>, skipped: int, length: nat, i: int)
    requires
        0 <= skipped,
        0 <= i < length,
    ensures
        reply_bytes(replies, skipped, length).len() == length,
        reply_bytes(replies, skipped, length)[i] == word_byte(
            replies[4 * skipped + i / 4],
            i % 4,
        ),
        reply_tag(replies).len() == 8,
        forall|j: int|
            0 <= j < 8 ==> #[trigger] reply_tag(replies)[j] == word_byte(replies[j / 4], j % 4)
                ^ word_byte(replies[4 + j / 4], j % 4),
        replies.len() == 4 ==> block_of(replies).len() == 16,
        forall|j: int|
            0 <= j < 16 ==> #[trigger] block_of(replies)[j] == word_byte(replies[j / 4], j % 4),
{
    assert((16 * skipped + i) / 4 == 4 * skipped + i / 4 && (16 * skipped + i) % 4 == i % 4);
    assert forall|j: int| 0 <= j < 8 implies #[trigger] reply_tag(replies)[j] == word_byte(
        replies[j / 4],
        j % 4,
    ) ^ word_byte(replies[4 + j / 4], j % 4) by {
        assert((16 + j) / 4 == 4 + j / 4 && (16 + j) % 4 == j % 4);
    }
}

/// A block in counter mode is set up in full before it is started, with its own data and its own
/// counter, and its result is read only after the module has said that it is done.
pub proof fn law_counter_mode_program(counter: Seq<u8>, data: Seq<u8>, k: int)
    requires
        0 <= k < 4,
    ensures
        ({
            let program = ctr_block_program(counter, data);
            let n = k as u8;
            &&& program.len() == 16
            &&& program[0] == (Op::Write { reg: Register::AsmControl1, value: 0x8200_0003 })
            &&& program[1 + k] == (Op::Write { reg: Register::AsmData(n), value: be_word(data, k) })
            &&& program[5 + k] == (Op::Write {
                reg: Register::AsmCtr(n),
                value: be_word(counter, k),
            })
            &&& program[9] == (Op::Write { reg: Register::AsmControl0, value: 0x0100_0000 })
            &&& program[10] == (Op::WaitSet { reg: Register::AsmStatus, bits: 0x0100_0000 })
            &&& program[11] == (Op::Write { reg: Register::AsmControl0, value: 0x8000_0000 })
            &&& program[12 + k] == (Op::Read { reg: Register::AsmCtrResult(n) })
        }),
{
}

/// A block in CBC mode is set up in full before it is started, the first on a cleared accumulator
/// and every other on what the one before it left, and nothing goes on before the module has said
/// that it is done.
pub proof fn law_chaining_mode_program(block: Seq<u8>, first: bool, k: int)
    requires
        0 <= k < 4,
    ensures
        ({
            let program = cbc_block_program(block, first);
            let at = if first {
                6int
            } else {
                5int
            };
            &&& program.len() == at + 3
            &&& program[0] == (Op::Write { reg: Register::AsmControl1, value: 0x8100_0003 })
            &&& program[1 + k] == (Op::Write {
                reg: Register::AsmData(k as u8),
                value: be_word(block, k),
            })
            &&& first ==> program[5] == (Op::Write {
                reg: Register::AsmControl0,
                value: 0x0200_0000,
            })
            &&& program[at] == (Op::Write { reg: Register::AsmControl0, value: 0x0100_0000 })
            &&& program[at + 1] == (Op::WaitSet { reg: Register::AsmStatus, bits: 0x0100_0000 })
            &&& program[at + 2] == (Op::Write { reg: Register::AsmControl0, value: 0x8000_0000 })
        }),
{
}

/// Block `n` of a message goes through counter mode with counter `n + 1`, modulo 65536, and every
/// block goes, in order and once.
pub proof fn law_every_block_has_its_counter(nonce: Seq<u8>, message: Seq<u8>, count: int, n: int)
    requires
        0 <= n < count,
    ensures
        ctr_program(nonce, message, count).len() == 16 * count,
        ctr_program(nonce, message, count).subrange(16 * n, 16 * n + 16) == ctr_block_program(
            counter_block(nonce, (n + 1) % 0x1_0000),
            pad_block(message, n),
        ),
        ctr_program(nonce, message, 0).len() == 0,
    decreases count,
{
    let block = ctr_block_program(
        counter_block(nonce, count % 0x1_0000),
        pad_block(message, count - 1),
    );
    let before = ctr_program(nonce, message, count - 1);
    if n < count - 1 {
        law_every_block_has_its_counter(nonce, message, count - 1, n);
        assert(ctr_program(nonce, message, count).subrange(16 * n, 16 * n + 16)
            =~= before.subrange(16 * n, 16 * n + 16));
    } else {
        lemma_ctr_program_length(nonce, message, count - 1);
        assert(ctr_program(nonce, message, count).subrange(16 * n, 16 * n + 16) =~= block);
    }
}

proof fn lemma_ctr_program_length(nonce: Seq<u8>, message: Seq<u8>, count: int)
    requires
        0 <= count,
    ensures
        ctr_program(nonce, message, count).len() == 16 * count,
    decreases count,
{
    if count > 0 {
        lemma_ctr_program_length(nonce, message, count - 1);
    }
}

proof fn lemma_cbc_program_length(blocks: Seq<Seq<u8>>)
    requires
        blocks.len() > 0,
    ensures
        cbc_program(blocks).len() == 8 * blocks.len() + 1,
    decreases blocks.len(),
{
    if blocks.len() > 1 {
        lemma_cbc_program_length(blocks.drop_last());
    } else {
        assert(cbc_program(blocks.drop_last()).len() == 0);
    }
}

/// Every block goes into the accumulator, in order and once, the first after the accumulator was
/// cleared and none after that.
pub proof fn law_every_block_is_chained(blocks: Seq<Seq<u8>>, n: int)
    requires
        0 <= n < blocks.len(),
    ensures
        cbc_program(blocks).len() == 8 * blocks.len() + 1,
        n == 0 ==> cbc_program(blocks).take(9) == cbc_block_program(blocks[0], true),
        n > 0 ==> cbc_program(blocks).subrange(8 * n + 1, 8 * n + 9) == cbc_block_program(
            blocks[n],
            false,
        ),
        cbc_program(Seq::empty()).len() == 0,
    decreases blocks.len(),
{
    lemma_cbc_program_length(blocks);
    let before = blocks.drop_last();
    if n < blocks.len() - 1 {
        law_every_block_is_chained(before, n);
        assert(cbc_program(blocks).take(9) =~= cbc_program(before).take(9));
        assert(cbc_program(blocks).subrange(8 * n + 1, 8 * n + 9) =~= cbc_program(before).subrange(
            8 * n + 1,
            8 * n + 9,
        ));
    } else if n == 0 {
        assert(before =~= Seq::<Seq<u8>>::empty());
        assert(cbc_program(blocks).take(9) =~= cbc_block_program(blocks[0], true));
    } else {
        lemma_cbc_program_length(before);
        assert(cbc_program(blocks).subrange(8 * n + 1, 8 * n + 9) =~= cbc_block_program(
            blocks[n],
            false,
        ));
    }
}

/// Every operation loads the key that it was given before anything else. Encrypting computes the
/// MAC over everything that is authenticated and reads it, gets the mask of the tag from counter
/// zero, and then sends the message through counter mode; decrypting sends it through counter
/// mode, and computes MAC and mask of what came out.
pub proof fn law_operations_are_put_together(
    key: Seq<u8>,
    nonce: Seq<u8>,
    aad: Seq<u8>,
    message: Seq<u8>,
    k: int,
)
    requires
        0 <= k < 4,
    ensures
        ({
            let loads = write_words_program(Bank::Key, key);
            let reads = read_words_program(Bank::CbcResult);
            let crypts = ctr_program(nonce, message, block_count(message.len() as int));
            let checks = cbc_program(ccm_blocks(nonce, aad, message)) + reads + ctr_block_program(
                counter_block(nonce, 0),
                zeros(),
            );
            &&& loads.len() == 4 && loads[k] == (Op::Write {
                reg: Register::AsmKey(k as u8),
                value: be_word(key, k),
            })
            &&& reads.len() == 4 && reads[k] == (Op::Read { reg: Register::AsmCbcResult(k as u8) })
            &&& encrypt_program(key, nonce, aad, message) == loads + checks + crypts
            &&& decrypt_program(key, nonce, message) == loads + crypts
            &&& check_program(nonce, aad, message) == checks
        }),
{
    let loads = write_words_program(Bank::Key, key);
    let crypts = ctr_program(nonce, message, block_count(message.len() as int));
    let checks = check_program(nonce, aad, message);
    assert(encrypt_program(key, nonce, aad, message) =~= loads + checks + crypts);
}

} // verus!
