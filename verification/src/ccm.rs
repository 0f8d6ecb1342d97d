//! What the programs of [`crate::aes`] compute: a model of the security module, AES-CCM after
//! RFC 3610 for an arbitrary block cipher, and the laws that connect the two.
use crate::aes::{
    be_word, block_count, block_of, cbc_block_program, cbc_program, ccm_blocks, ccm_mac_program,
    check_program, counter_block, ctr_block_program, ctr_program, decrypt_program, encrypt_program,
    law_counter_blocks_differ, law_words_and_blocks, pad_block, pad_blocks, read_words_program,
    reply_byte, reply_bytes, reply_tag, start_program, word_byte, words_of, write_words_program,
    zeros, Bank, CONTROL0_CLEAR, CONTROL0_START, CONTROL1_IDLE_CBC, CONTROL1_IDLE_CTR,
};
use crate::port::{Op, Register};
use vstd::prelude::*;

verus! {

/// A block cipher: from a key and a block to a block.
pub type Cipher = spec_fn(Seq<u8>, Seq<u8>) -> Seq<u8>;

/// A cipher gives blocks of sixteen bytes.
pub open spec fn is_block_cipher(cipher: Cipher) -> bool {
    forall|key: Seq<u8>, block: Seq<u8>| (#[trigger] cipher(key, block)).len() == 16
}

/// Bytewise exclusive or of two blocks.
pub open spec fn xor(a: Seq<u8>, b: Seq<u8>) -> Seq<u8> {
    Seq::new(16, |i: int| a[i] ^ b[i])
}

/// The state of the security module.
pub struct Engine {
    /// The key registers.
    pub key: Seq<u32>,
    /// The data registers.
    pub data: Seq<u32>,
    /// The counter registers.
    pub ctr: Seq<u32>,
    /// The control 1 register.
    pub control1: u32,
    /// The result of counter mode.
    pub ctr_result: Seq<u8>,
    /// The accumulator of CBC mode.
    pub mac: Seq<u8>,
}

impl Engine {
    /// Every group of registers has its size.
    pub open spec fn well_formed(self) -> bool {
        &&& self.key.len() == 4
        &&& self.data.len() == 4
        &&& self.ctr.len() == 4
        &&& self.ctr_result.len() == 16
        &&& self.mac.len() == 16
    }
}

/// What starting the configured operation does.
pub open spec fn fire(cipher: Cipher, engine: Engine) -> Engine {
    let key = block_of(engine.key);
    let data = block_of(engine.data);
    if engine.control1 == CONTROL1_IDLE_CTR {
        Engine { ctr_result: xor(data, cipher(key, block_of(engine.ctr))), ..engine }
    } else if engine.control1 == CONTROL1_IDLE_CBC {
        Engine { mac: cipher(key, xor(engine.mac, data)), ..engine }
    } else {
        engine
    }
}

/// What one operation does to the module, and what it reads.
pub open spec fn step(cipher: Cipher, engine: Engine, op: Op) -> (Engine, Seq<u32>) {
    match op {
        Op::Write { reg, value } => (
            match reg {
                Register::AsmKey(n) => Engine { key: engine.key.update(n as int, value), ..engine },
                Register::AsmData(n) => Engine {
                    data: engine.data.update(n as int, value),
                    ..engine
                },
                Register::AsmCtr(n) => Engine { ctr: engine.ctr.update(n as int, value), ..engine },
                Register::AsmControl1 => Engine { control1: value, ..engine },
                Register::AsmControl0 => if value == CONTROL0_START {
                    fire(cipher, engine)
                } else if value == CONTROL0_CLEAR {
                    Engine { mac: zeros(), ..engine }
                } else {
                    engine
                },
                _ => engine,
            },
            Seq::empty(),
        ),
        Op::Read { reg } => (
            engine,
            match reg {
                Register::AsmCtrResult(n) => seq![be_word(engine.ctr_result, n as int)],
                Register::AsmCbcResult(n) => seq![be_word(engine.mac, n as int)],
                _ => Seq::empty(),
            },
        ),
        _ => (engine, Seq::empty()),
    }
}

/// What a program does to the module, and all that it reads.
#[verifier::opaque]
pub open spec fn run(cipher: Cipher, engine: Engine, program: Seq<Op>) -> (Engine, Seq<u32>)
    decreases program.len(),
{
    if program.len() == 0 {
        (engine, Seq::empty())
    } else {
        let (before, replies) = run(cipher, engine, program.drop_last());
        let (after, more) = step(cipher, before, program.last());
        (after, replies + more)
    }
}

/// The CBC-MAC of blocks.
pub open spec fn cbc_mac(cipher: Cipher, key: Seq<u8>, blocks: Seq<Seq<u8>>) -> Seq<u8>
    decreases blocks.len(),
{
    if blocks.len() == 0 {
        zeros()
    } else {
        cipher(key, xor(cbc_mac(cipher, key, blocks.drop_last()), blocks.last()))
    }
}

/// The key stream block `S_i` of RFC 3610.
pub open spec fn key_stream(cipher: Cipher, key: Seq<u8>, nonce: Seq<u8>, i: int) -> Seq<u8> {
    cipher(key, counter_block(nonce, i % 0x1_0000))
}

/// A message with the key stream applied, from `S_1` on.
pub open spec fn ccm_crypt(
    cipher: Cipher,
    key: Seq<u8>,
    nonce: Seq<u8>,
    message: Seq<u8>,
) -> Seq<u8> {
    Seq::new(
        message.len(),
        |i: int| message[i] ^ key_stream(cipher, key, nonce, i / 16 + 1)[i % 16],
    )
}

/// The tag of a message: the first eight bytes of its CBC-MAC, masked with `S_0`.
pub open spec fn ccm_tag(
    cipher: Cipher,
    key: Seq<u8>,
    nonce: Seq<u8>,
    aad: Seq<u8>,
    message: Seq<u8>,
) -> Seq<u8> {
    Seq::new(
        8,
        |i: int|
            cbc_mac(cipher, key, ccm_blocks(nonce, aad, message))[i] ^ key_stream(
                cipher,
                key,
                nonce,
                0,
            )[i],
    )
}

proof fn lemma_run_concat(cipher: Cipher, engine: Engine, first: Seq<Op>, second: Seq<Op>)
    ensures
        ({
            let (middle, early) = run(cipher, engine, first);
            let (end, late) = run(cipher, middle, second);
            run(cipher, engine, first + second) == (end, early + late)
        }),
    decreases second.len(),
{
    reveal(run);
    let (middle, early) = run(cipher, engine, first);
    if second.len() == 0 {
        assert(first + second =~= first);
        assert(early + Seq::<u32>::empty() =~= early);
    } else {
        lemma_run_concat(cipher, engine, first, second.drop_last());
        assert((first + second).drop_last() =~= first + second.drop_last());
        let (before, replies) = run(cipher, middle, second.drop_last());
        let (after, more) = step(cipher, before, second.last());
        assert((early + replies) + more =~= early + (replies + more));
    }
}

proof fn lemma_run_none(cipher: Cipher, engine: Engine)
    ensures
        run(cipher, engine, Seq::<Op>::empty()) == (engine, Seq::<u32>::empty()),
{
    reveal(run);
}

proof fn lemma_run_one(cipher: Cipher, engine: Engine, op: Op)
    ensures
        run(cipher, engine, seq![op]) == step(cipher, engine, op),
{
    reveal_with_fuel(run, 2);
    assert(seq![op].drop_last() =~= Seq::<Op>::empty());
    let (after, more) = step(cipher, engine, op);
    assert(run(cipher, engine, Seq::<Op>::empty()) == (engine, Seq::<u32>::empty()));
    assert(Seq::<u32>::empty() + more =~= more);
}

proof fn lemma_run_four(cipher: Cipher, engine: Engine, a: Op, b: Op, c: Op, d: Op)
    ensures
        ({
            let (e1, r1) = step(cipher, engine, a);
            let (e2, r2) = step(cipher, e1, b);
            let (e3, r3) = step(cipher, e2, c);
            let (e4, r4) = step(cipher, e3, d);
            run(cipher, engine, seq![a, b, c, d]) == (e4, r1 + r2 + r3 + r4)
        }),
{
    assert(seq![a, b, c, d] =~= seq![a] + seq![b] + seq![c] + seq![d]);
    lemma_run_concat(cipher, engine, seq![a] + seq![b] + seq![c], seq![d]);
    lemma_run_concat(cipher, engine, seq![a] + seq![b], seq![c]);
    lemma_run_concat(cipher, engine, seq![a], seq![b]);
    let (e1, r1) = step(cipher, engine, a);
    let (e2, r2) = step(cipher, e1, b);
    let (e3, r3) = step(cipher, e2, c);
    lemma_run_one(cipher, engine, a);
    lemma_run_one(cipher, e1, b);
    lemma_run_one(cipher, e2, c);
    lemma_run_one(cipher, e3, d);
}

/// Storing a block in a bank of the module.
spec fn with_bank(engine: Engine, bank: Bank, block: Seq<u8>) -> Engine {
    match bank {
        Bank::Key => Engine { key: words_of(block), ..engine },
        Bank::Data => Engine { data: words_of(block), ..engine },
        Bank::Ctr => Engine { ctr: words_of(block), ..engine },
        _ => engine,
    }
}

proof fn lemma_run_write_words(cipher: Cipher, engine: Engine, bank: Bank, block: Seq<u8>)
    requires
        engine.well_formed(),
    ensures
        run(cipher, engine, write_words_program(bank, block)) == (
            with_bank(engine, bank, block),
            Seq::<u32>::empty(),
        ),
{
    let a = Op::Write { reg: bank.spec_reg(0), value: be_word(block, 0) };
    let b = Op::Write { reg: bank.spec_reg(1), value: be_word(block, 1) };
    let c = Op::Write { reg: bank.spec_reg(2), value: be_word(block, 2) };
    let d = Op::Write { reg: bank.spec_reg(3), value: be_word(block, 3) };
    lemma_run_four(cipher, engine, a, b, c, d);
    let (e1, r1) = step(cipher, engine, a);
    let (e2, r2) = step(cipher, e1, b);
    let (e3, r3) = step(cipher, e2, c);
    let (e4, r4) = step(cipher, e3, d);
    assert(r1 + r2 + r3 + r4 =~= Seq::<u32>::empty());
    match bank {
        Bank::Key => {
            assert(e4.key =~= words_of(block));
        },
        Bank::Data => {
            assert(e4.data =~= words_of(block));
        },
        Bank::Ctr => {
            assert(e4.ctr =~= words_of(block));
        },
        _ => {},
    }
}

proof fn lemma_run_read_words(cipher: Cipher, engine: Engine)
    requires
        engine.well_formed(),
    ensures
        run(cipher, engine, read_words_program(Bank::CtrResult)) == (
            engine,
            words_of(engine.ctr_result),
        ),
        run(cipher, engine, read_words_program(Bank::CbcResult)) == (engine, words_of(engine.mac)),
{
    let r = Bank::CtrResult;
    lemma_run_four(
        cipher,
        engine,
        Op::Read { reg: r.spec_reg(0) },
        Op::Read { reg: r.spec_reg(1) },
        Op::Read { reg: r.spec_reg(2) },
        Op::Read { reg: r.spec_reg(3) },
    );
    let w = engine.ctr_result;
    assert(seq![be_word(w, 0)] + seq![be_word(w, 1)] + seq![be_word(w, 2)] + seq![be_word(w, 3)]
        =~= words_of(w));
    let m = Bank::CbcResult;
    lemma_run_four(
        cipher,
        engine,
        Op::Read { reg: m.spec_reg(0) },
        Op::Read { reg: m.spec_reg(1) },
        Op::Read { reg: m.spec_reg(2) },
        Op::Read { reg: m.spec_reg(3) },
    );
    let v = engine.mac;
    assert(seq![be_word(v, 0)] + seq![be_word(v, 1)] + seq![be_word(v, 2)] + seq![be_word(v, 3)]
        =~= words_of(v));
}

proof fn lemma_run_start(cipher: Cipher, engine: Engine)
    ensures
        run(cipher, engine, start_program()) == (fire(cipher, engine), Seq::<u32>::empty()),
{
    let p = start_program();
    assert(p =~= seq![p[0]] + seq![p[1]] + seq![p[2]]);
    let fired = fire(cipher, engine);
    lemma_run_concat(cipher, engine, seq![p[0]] + seq![p[1]], seq![p[2]]);
    lemma_run_concat(cipher, engine, seq![p[0]], seq![p[1]]);
    lemma_run_one(cipher, engine, p[0]);
    lemma_run_one(cipher, fired, p[1]);
    lemma_run_one(cipher, fired, p[2]);
    let none = Seq::<u32>::empty();
    assert(none + none + none =~= none);
}

/// A program runs from one state to another and reads nothing.
spec fn quiet(cipher: Cipher, from: Engine, program: Seq<Op>, to: Engine) -> bool {
    run(cipher, from, program) == (to, Seq::<u32>::empty())
}

proof fn lemma_quiet_concat(
    cipher: Cipher,
    from: Engine,
    first: Seq<Op>,
    middle: Engine,
    second: Seq<Op>,
    to: Engine,
)
    requires
        quiet(cipher, from, first, middle),
        quiet(cipher, middle, second, to),
    ensures
        quiet(cipher, from, first + second, to),
{
    lemma_run_concat(cipher, from, first, second);
    assert(Seq::<u32>::empty() + Seq::<u32>::empty() =~= Seq::<u32>::empty());
}

spec fn ready_for_ctr(engine: Engine, counter: Seq<u8>, data: Seq<u8>) -> Engine {
    Engine {
        control1: CONTROL1_IDLE_CTR,
        data: words_of(data),
        ctr: words_of(counter),
        ..engine
    }
}

proof fn lemma_ctr_setup(cipher: Cipher, engine: Engine, counter: Seq<u8>, data: Seq<u8>)
    requires
        engine.well_formed(),
    ensures
        quiet(
            cipher,
            engine,
            seq![Op::Write { reg: Register::AsmControl1, value: CONTROL1_IDLE_CTR }]
                + write_words_program(Bank::Data, data) + write_words_program(Bank::Ctr, counter)
                + start_program(),
            fire(cipher, ready_for_ctr(engine, counter, data)),
        ),
{
    let op = Op::Write { reg: Register::AsmControl1, value: CONTROL1_IDLE_CTR };
    let writes_data = write_words_program(Bank::Data, data);
    let writes_ctr = write_words_program(Bank::Ctr, counter);
    let e1 = Engine { control1: CONTROL1_IDLE_CTR, ..engine };
    let e2 = with_bank(e1, Bank::Data, data);
    let e3 = with_bank(e2, Bank::Ctr, counter);
    lemma_run_one(cipher, engine, op);
    lemma_run_write_words(cipher, e1, Bank::Data, data);
    lemma_run_write_words(cipher, e2, Bank::Ctr, counter);
    lemma_run_start(cipher, e3);
    lemma_quiet_concat(cipher, engine, seq![op], e1, writes_data, e2);
    lemma_quiet_concat(cipher, engine, seq![op] + writes_data, e2, writes_ctr, e3);
    lemma_quiet_concat(
        cipher,
        engine,
        seq![op] + writes_data + writes_ctr,
        e3,
        start_program(),
        fire(cipher, e3),
    );
}

/// The counter-mode program of one block computes the data block masked with the encrypted
/// counter block, and leaves the key as it is.
pub proof fn law_ctr_block(cipher: Cipher, engine: Engine, counter: Seq<u8>, data: Seq<u8>)
    requires
        is_block_cipher(cipher),
        engine.well_formed(),
        counter.len() == 16,
        data.len() == 16,
    ensures
        ({
            let (after, replies) = run(cipher, engine, ctr_block_program(counter, data));
            &&& after.well_formed()
            &&& after.key == engine.key
            &&& replies == words_of(xor(data, cipher(block_of(engine.key), counter)))
        }),
{
    let fired = fire(cipher, ready_for_ctr(engine, counter, data));
    lemma_ctr_setup(cipher, engine, counter, data);
    law_words_and_blocks(data, words_of(data));
    law_words_and_blocks(counter, words_of(counter));
    lemma_run_read_words(cipher, fired);
    let setup = seq![Op::Write { reg: Register::AsmControl1, value: CONTROL1_IDLE_CTR }]
        + write_words_program(Bank::Data, data) + write_words_program(Bank::Ctr, counter)
        + start_program();
    lemma_run_concat(cipher, engine, setup, read_words_program(Bank::CtrResult));
    assert(Seq::<u32>::empty() + words_of(fired.ctr_result) =~= words_of(fired.ctr_result));
}

spec fn ready_for_cbc(engine: Engine, block: Seq<u8>, first: bool) -> Engine {
    Engine {
        control1: CONTROL1_IDLE_CBC,
        data: words_of(block),
        mac: if first {
            zeros()
        } else {
            engine.mac
        },
        ..engine
    }
}

proof fn lemma_cbc_setup(cipher: Cipher, engine: Engine, block: Seq<u8>, first: bool)
    requires
        engine.well_formed(),
    ensures
        quiet(
            cipher,
            engine,
            cbc_block_program(block, first),
            fire(cipher, ready_for_cbc(engine, block, first)),
        ),
{
    let mode = Op::Write { reg: Register::AsmControl1, value: CONTROL1_IDLE_CBC };
    let writes = write_words_program(Bank::Data, block);
    let clear_op = Op::Write { reg: Register::AsmControl0, value: CONTROL0_CLEAR };
    let clears = if first {
        seq![clear_op]
    } else {
        Seq::empty()
    };
    let e1 = Engine { control1: CONTROL1_IDLE_CBC, ..engine };
    let e2 = with_bank(e1, Bank::Data, block);
    let e3 = ready_for_cbc(engine, block, first);
    lemma_run_one(cipher, engine, mode);
    lemma_run_write_words(cipher, e1, Bank::Data, block);
    if first {
        lemma_run_one(cipher, e2, clear_op);
    } else {
        lemma_run_none(cipher, e2);
    }
    lemma_run_start(cipher, e3);
    lemma_quiet_concat(cipher, engine, seq![mode], e1, writes, e2);
    lemma_quiet_concat(cipher, engine, seq![mode] + writes, e2, clears, e3);
    lemma_quiet_concat(
        cipher,
        engine,
        seq![mode] + writes + clears,
        e3,
        start_program(),
        fire(cipher, e3),
    );
}

proof fn lemma_cbc_block(cipher: Cipher, engine: Engine, block: Seq<u8>, first: bool)
    requires
        is_block_cipher(cipher),
        engine.well_formed(),
        block.len() == 16,
    ensures
        ({
            let (after, replies) = run(cipher, engine, cbc_block_program(block, first));
            &&& after.well_formed()
            &&& after.key == engine.key
            &&& after.mac == cipher(
                block_of(engine.key),
                xor(
                    if first {
                        zeros()
                    } else {
                        engine.mac
                    },
                    block,
                ),
            )
            &&& replies == Seq::<u32>::empty()
        }),
{
    lemma_cbc_setup(cipher, engine, block, first);
    law_words_and_blocks(block, words_of(block));
}

/// The program over blocks leaves their CBC-MAC in the accumulator, whatever was there before.
pub proof fn law_cbc_program(cipher: Cipher, engine: Engine, blocks: Seq<Seq<u8>>)
    requires
        is_block_cipher(cipher),
        engine.well_formed(),
        blocks.len() > 0,
        forall|i: int| 0 <= i < blocks.len() ==> (#[trigger] blocks[i]).len() == 16,
    ensures
        ({
            let (after, replies) = run(cipher, engine, cbc_program(blocks));
            &&& after.well_formed()
            &&& after.key == engine.key
            &&& after.mac == cbc_mac(cipher, block_of(engine.key), blocks)
            &&& replies == Seq::<u32>::empty()
        }),
    decreases blocks.len(),
{
    let before = blocks.drop_last();
    let last = cbc_block_program(blocks.last(), blocks.len() == 1);
    lemma_run_concat(cipher, engine, cbc_program(before), last);
    let none = Seq::<u32>::empty();
    assert(none + none =~= none);
    if blocks.len() == 1 {
        lemma_run_none(cipher, engine);
        assert(cbc_mac(cipher, block_of(engine.key), before) == zeros());
        lemma_cbc_block(cipher, engine, blocks.last(), true);
    } else {
        law_cbc_program(cipher, engine, before);
        let middle = run(cipher, engine, cbc_program(before)).0;
        lemma_cbc_block(cipher, middle, blocks.last(), false);
    }
}

proof fn lemma_reply_byte_concat(first: Seq<u32>, second: Seq<u32>, i: int)
    requires
        0 <= i < 4 * (first.len() + second.len()),
    ensures
        reply_byte(first + second, i) == (if i < 4 * first.len() {
            reply_byte(first, i)
        } else {
            reply_byte(second, i - 4 * first.len())
        }),
{
    if i >= 4 * first.len() {
        let n = first.len() as int;
        assert((i - 4 * n) / 4 == i / 4 - n);
        assert((i - 4 * n) % 4 == i % 4);
    }
}

proof fn lemma_reply_byte_of_block(block: Seq<u8>, i: int)
    requires
        block.len() == 16,
        0 <= i < 16,
    ensures
        reply_byte(words_of(block), i) == block[i],
{
    law_words_and_blocks(block, words_of(block));
    assert(block_of(words_of(block))[i] == word_byte(words_of(block)[i / 4], i % 4));
}

/// What counter mode gives at a byte of a message in blocks.
spec fn masked(cipher: Cipher, key: Seq<u8>, nonce: Seq<u8>, message: Seq<u8>, i: int) -> u8 {
    pad_block(message, i / 16)[i % 16] ^ key_stream(cipher, key, nonce, i / 16 + 1)[i % 16]
}

proof fn lemma_masked_extends(
    cipher: Cipher,
    key: Seq<u8>,
    nonce: Seq<u8>,
    message: Seq<u8>,
    count: int,
    early: Seq<u32>,
    block: Seq<u8>,
)
    requires
        1 <= count,
        early.len() == 4 * (count - 1),
        block.len() == 16,
        forall|j: int|
            0 <= j < 16 ==> #[trigger] block[j] == pad_block(message, count - 1)[j] ^ key_stream(
                cipher,
                key,
                nonce,
                count,
            )[j],
        forall|i: int|
            0 <= i < 16 * (count - 1) ==> #[trigger] reply_byte(early, i) == masked(
                cipher,
                key,
                nonce,
                message,
                i,
            ),
    ensures
        forall|i: int|
            0 <= i < 16 * count ==> #[trigger] reply_byte(early + words_of(block), i) == masked(
                cipher,
                key,
                nonce,
                message,
                i,
            ),
{
    assert forall|i: int| 0 <= i < 16 * count implies #[trigger] reply_byte(
        early + words_of(block),
        i,
    ) == masked(cipher, key, nonce, message, i) by {
        lemma_reply_byte_concat(early, words_of(block), i);
        if i >= 16 * (count - 1) {
            let j = i - 16 * (count - 1);
            lemma_reply_byte_of_block(block, j);
            assert(i / 16 == count - 1 && i % 16 == j);
        }
    }
}

proof fn lemma_ctr_program(
    cipher: Cipher,
    engine: Engine,
    nonce: Seq<u8>,
    message: Seq<u8>,
    count: int,
)
    requires
        is_block_cipher(cipher),
        engine.well_formed(),
        nonce.len() == 13,
        0 <= count,
    ensures
        ({
            let (after, replies) = run(cipher, engine, ctr_program(nonce, message, count));
            &&& after.well_formed()
            &&& after.key == engine.key
            &&& replies.len() == 4 * count
            &&& forall|i: int|
                0 <= i < 16 * count ==> #[trigger] reply_byte(replies, i) == masked(
                    cipher,
                    block_of(engine.key),
                    nonce,
                    message,
                    i,
                )
        }),
    decreases count,
{
    if count == 0 {
        lemma_run_none(cipher, engine);
    } else {
        lemma_ctr_program(cipher, engine, nonce, message, count - 1);
        let key = block_of(engine.key);
        let before = ctr_program(nonce, message, count - 1);
        let counter = counter_block(nonce, count % 0x1_0000);
        let data = pad_block(message, count - 1);
        let last = ctr_block_program(counter, data);
        lemma_run_concat(cipher, engine, before, last);
        let (middle, early) = run(cipher, engine, before);
        law_ctr_block(cipher, middle, counter, data);
        let block = xor(data, cipher(key, counter));
        lemma_masked_extends(cipher, key, nonce, message, count, early, block);
    }
}

proof fn lemma_masked_is_crypted(
    cipher: Cipher,
    key: Seq<u8>,
    nonce: Seq<u8>,
    message: Seq<u8>,
    replies: Seq<u32>,
    skipped: int,
)
    requires
        0 <= skipped,
        forall|i: int|
            0 <= i < message.len() ==> #[trigger] reply_byte(replies, 16 * skipped + i) == masked(
                cipher,
                key,
                nonce,
                message,
                i,
            ),
    ensures
        reply_bytes(replies, skipped, message.len()) == ccm_crypt(cipher, key, nonce, message),
{
    let got = reply_bytes(replies, skipped, message.len());
    let want = ccm_crypt(cipher, key, nonce, message);
    assert forall|i: int| 0 <= i < message.len() implies got[i] == want[i] by {
        assert(got[i] == reply_byte(replies, 16 * skipped + i));
        assert(16 * (i / 16) + i % 16 == i);
        assert(pad_block(message, i / 16)[i % 16] == message[i]);
    }
    assert(got =~= want);
}

proof fn lemma_ccm_blocks_are_blocks(nonce: Seq<u8>, aad: Seq<u8>, message: Seq<u8>)
    requires
        nonce.len() == 13,
    ensures
        ccm_blocks(nonce, aad, message).len() > 0,
        forall|i: int|
            0 <= i < ccm_blocks(nonce, aad, message).len() ==> (#[trigger] ccm_blocks(
                nonce,
                aad,
                message,
            )[i]).len() == 16,
{
}

/// The program that computes a MAC reads the CBC-MAC of the blocks of RFC 3610.
proof fn lemma_mac_program(
    cipher: Cipher,
    engine: Engine,
    nonce: Seq<u8>,
    aad: Seq<u8>,
    message: Seq<u8>,
)
    requires
        is_block_cipher(cipher),
        engine.well_formed(),
        nonce.len() == 13,
    ensures
        ({
            let (after, replies) = run(cipher, engine, ccm_mac_program(nonce, aad, message));
            &&& after.well_formed()
            &&& after.key == engine.key
            &&& replies == words_of(
                cbc_mac(cipher, block_of(engine.key), ccm_blocks(nonce, aad, message)),
            )
        }),
{
    let blocks = ccm_blocks(nonce, aad, message);
    lemma_ccm_blocks_are_blocks(nonce, aad, message);
    law_cbc_program(cipher, engine, blocks);
    let middle = run(cipher, engine, cbc_program(blocks)).0;
    lemma_run_read_words(cipher, middle);
    lemma_run_concat(
        cipher,
        engine,
        cbc_program(blocks),
        read_words_program(Bank::CbcResult),
    );
    assert(Seq::<u32>::empty() + words_of(middle.mac) =~= words_of(middle.mac));
}

proof fn lemma_cbc_mac_length(cipher: Cipher, key: Seq<u8>, blocks: Seq<Seq<u8>>)
    requires
        is_block_cipher(cipher),
    ensures
        cbc_mac(cipher, key, blocks).len() == 16,
{
}

proof fn lemma_xor_zeros(block: Seq<u8>)
    requires
        block.len() == 16,
    ensures
        xor(zeros(), block) == block,
{
    assert forall|i: int| 0 <= i < 16 implies xor(zeros(), block)[i] == block[i] by {
        let b = block[i];
        assert(0u8 ^ b == b) by (bit_vector);
    }
    assert(xor(zeros(), block) =~= block);
}

/// The program that computes a tag reads the MAC, and then the mask.
proof fn lemma_check_program(
    cipher: Cipher,
    engine: Engine,
    nonce: Seq<u8>,
    aad: Seq<u8>,
    message: Seq<u8>,
)
    requires
        is_block_cipher(cipher),
        engine.well_formed(),
        nonce.len() == 13,
    ensures
        ({
            let key = block_of(engine.key);
            let (after, replies) = run(cipher, engine, check_program(nonce, aad, message));
            &&& after.well_formed()
            &&& after.key == engine.key
            &&& replies == words_of(cbc_mac(cipher, key, ccm_blocks(nonce, aad, message)))
                + words_of(key_stream(cipher, key, nonce, 0))
        }),
{
    let key = block_of(engine.key);
    let counter = counter_block(nonce, 0);
    lemma_mac_program(cipher, engine, nonce, aad, message);
    let middle = run(cipher, engine, ccm_mac_program(nonce, aad, message)).0;
    law_ctr_block(cipher, middle, counter, zeros());
    lemma_xor_zeros(cipher(key, counter));
    lemma_run_concat(
        cipher,
        engine,
        ccm_mac_program(nonce, aad, message),
        ctr_block_program(counter, zeros()),
    );
}

proof fn lemma_tag_of_words(mac: Seq<u8>, mask: Seq<u8>, rest: Seq<u32>)
    requires
        mac.len() == 16,
        mask.len() == 16,
    ensures
        reply_tag(words_of(mac) + words_of(mask) + rest) == Seq::new(8, |i: int| mac[i] ^ mask[i]),
{
    let head = words_of(mac) + words_of(mask);
    let replies = head + rest;
    let want = Seq::new(8, |i: int| mac[i] ^ mask[i]);
    assert forall|i: int| 0 <= i < 8 implies reply_tag(replies)[i] == want[i] by {
        lemma_reply_byte_concat(head, rest, i);
        lemma_reply_byte_concat(head, rest, 16 + i);
        lemma_reply_byte_concat(words_of(mac), words_of(mask), i);
        lemma_reply_byte_concat(words_of(mac), words_of(mask), 16 + i);
        lemma_reply_byte_of_block(mac, i);
        lemma_reply_byte_of_block(mask, i);
    }
    assert(reply_tag(replies) =~= want);
}

proof fn lemma_load_key(cipher: Cipher, engine: Engine, key: Seq<u8>) -> (loaded: Engine)
    requires
        engine.well_formed(),
        key.len() == 16,
    ensures
        quiet(cipher, engine, write_words_program(Bank::Key, key), loaded),
        loaded.well_formed(),
        block_of(loaded.key) == key,
{
    lemma_run_write_words(cipher, engine, Bank::Key, key);
    law_words_and_blocks(key, words_of(key));
    with_bank(engine, Bank::Key, key)
}

proof fn lemma_run_after(
    cipher: Cipher,
    from: Engine,
    first: Seq<Op>,
    middle: Engine,
    second: Seq<Op>,
)
    requires
        quiet(cipher, from, first, middle),
    ensures
        run(cipher, from, first + second) == run(cipher, middle, second),
{
    lemma_run_concat(cipher, from, first, second);
    let (end, late) = run(cipher, middle, second);
    assert(Seq::<u32>::empty() + late =~= late);
}

/// Encrypting a single block is what the block cipher does to it, whatever the module did
/// before.
pub proof fn law_ecb_encrypts(cipher: Cipher, engine: Engine, key: Seq<u8>, block: Seq<u8>)
    requires
        is_block_cipher(cipher),
        engine.well_formed(),
        key.len() == 16,
        block.len() == 16,
    ensures
        block_of(
            run(
                cipher,
                engine,
                write_words_program(Bank::Key, key) + ctr_block_program(block, zeros()),
            ).1,
        ) == cipher(key, block),
{
    let loads = write_words_program(Bank::Key, key);
    let loaded = lemma_load_key(cipher, engine, key);
    lemma_run_after(cipher, engine, loads, loaded, ctr_block_program(block, zeros()));
    law_ctr_block(cipher, loaded, block, zeros());
    let out = cipher(key, block);
    lemma_xor_zeros(out);
    law_words_and_blocks(out, words_of(out));
}

/// The encryption program computes AES-CCM: what it reads makes the ciphertext and the tag that
/// RFC 3610 defines, whatever the module did before.
pub proof fn law_encrypts(
    cipher: Cipher,
    engine: Engine,
    key: Seq<u8>,
    nonce: Seq<u8>,
    aad: Seq<u8>,
    message: Seq<u8>,
)
    requires
        is_block_cipher(cipher),
        engine.well_formed(),
        key.len() == 16,
        nonce.len() == 13,
    ensures
        ({
            let replies = run(cipher, engine, encrypt_program(key, nonce, aad, message)).1;
            &&& replies.len() == 4 * (2 + block_count(message.len() as int))
            &&& reply_bytes(replies, 2, message.len()) == ccm_crypt(cipher, key, nonce, message)
            &&& reply_tag(replies) == ccm_tag(cipher, key, nonce, aad, message)
        }),
{
    let count = block_count(message.len() as int);
    let loads = write_words_program(Bank::Key, key);
    let checks = check_program(nonce, aad, message);
    let crypts = ctr_program(nonce, message, count);
    let e1 = lemma_load_key(cipher, engine, key);
    lemma_check_program(cipher, e1, nonce, aad, message);
    let (e2, r2) = run(cipher, e1, checks);
    lemma_ctr_program(cipher, e2, nonce, message, count);
    let (e3, r3) = run(cipher, e2, crypts);
    lemma_run_after(cipher, engine, loads, e1, checks + crypts);
    lemma_run_concat(cipher, e1, checks, crypts);
    assert(encrypt_program(key, nonce, aad, message) =~= loads + (checks + crypts));
    let replies = r2 + r3;
    let mac = cbc_mac(cipher, key, ccm_blocks(nonce, aad, message));
    let mask = key_stream(cipher, key, nonce, 0);
    lemma_cbc_mac_length(cipher, key, ccm_blocks(nonce, aad, message));
    lemma_tag_of_words(mac, mask, r3);
    assert forall|i: int| 0 <= i < message.len() implies #[trigger] reply_byte(
        replies,
        16 * 2 + i,
    ) == masked(cipher, key, nonce, message, i) by {
        assert(i < 16 * count);
        lemma_reply_byte_concat(r2, r3, 32 + i);
    }
    lemma_masked_is_crypted(cipher, key, nonce, message, replies, 2);
}

/// The decryption program computes the AES-CCM plaintext of a ciphertext, and the program after
/// it the tag that belongs to a plaintext, whatever the module did before.
pub proof fn law_decrypts(
    cipher: Cipher,
    engine: Engine,
    key: Seq<u8>,
    nonce: Seq<u8>,
    aad: Seq<u8>,
    ciphertext: Seq<u8>,
)
    requires
        is_block_cipher(cipher),
        engine.well_formed(),
        key.len() == 16,
        nonce.len() == 13,
    ensures
        ({
            let (after, replies) = run(cipher, engine, decrypt_program(key, nonce, ciphertext));
            let message = reply_bytes(replies, 0, ciphertext.len());
            let checks = run(cipher, after, check_program(nonce, aad, message)).1;
            &&& replies.len() == 4 * block_count(ciphertext.len() as int)
            &&& message == ccm_crypt(cipher, key, nonce, ciphertext)
            &&& checks.len() == 8
            &&& reply_tag(checks) == ccm_tag(cipher, key, nonce, aad, message)
        }),
{
    let count = block_count(ciphertext.len() as int);
    let loads = write_words_program(Bank::Key, key);
    let crypts = ctr_program(nonce, ciphertext, count);
    let e1 = lemma_load_key(cipher, engine, key);
    lemma_ctr_program(cipher, e1, nonce, ciphertext, count);
    lemma_run_after(cipher, engine, loads, e1, crypts);
    let (after, replies) = run(cipher, e1, crypts);
    assert forall|i: int| 0 <= i < ciphertext.len() implies #[trigger] reply_byte(
        replies,
        16 * 0 + i,
    ) == masked(cipher, key, nonce, ciphertext, i) by {
        assert(i < 16 * count);
        assert(reply_byte(replies, i) == masked(cipher, key, nonce, ciphertext, i));
    }
    lemma_masked_is_crypted(cipher, key, nonce, ciphertext, replies, 0);
    let message = reply_bytes(replies, 0, ciphertext.len());
    lemma_check_program(cipher, after, nonce, aad, message);
    let mac = cbc_mac(cipher, key, ccm_blocks(nonce, aad, message));
    let mask = key_stream(cipher, key, nonce, 0);
    lemma_cbc_mac_length(cipher, key, ccm_blocks(nonce, aad, message));
    lemma_tag_of_words(mac, mask, Seq::empty());
    assert(words_of(mac) + words_of(mask) + Seq::<u32>::empty() =~= words_of(mac) + words_of(mask));
}

proof fn lemma_crypt_is_involution(
    cipher: Cipher,
    key: Seq<u8>,
    nonce: Seq<u8>,
    message: Seq<u8>,
)
    ensures
        ccm_crypt(cipher, key, nonce, ccm_crypt(cipher, key, nonce, message)) == message,
{
    let once = ccm_crypt(cipher, key, nonce, message);
    let twice = ccm_crypt(cipher, key, nonce, once);
    assert forall|i: int| 0 <= i < message.len() implies twice[i] == message[i] by {
        let m = message[i];
        let s = key_stream(cipher, key, nonce, i / 16 + 1)[i % 16];
        assert((m ^ s) ^ s == m) by (bit_vector);
    }
    assert(twice =~= message);
}

/// Decrypting what was encrypted under the same key, nonce and additional data gives the message
/// back, and the tag that is expected is the tag that was given.
pub proof fn law_decryption_undoes_encryption(
    cipher: Cipher,
    sender: Engine,
    receiver: Engine,
    key: Seq<u8>,
    nonce: Seq<u8>,
    aad: Seq<u8>,
    message: Seq<u8>,
)
    requires
        is_block_cipher(cipher),
        sender.well_formed(),
        receiver.well_formed(),
        key.len() == 16,
        nonce.len() == 13,
    ensures
        ({
            let sent = run(cipher, sender, encrypt_program(key, nonce, aad, message)).1;
            let ciphertext = reply_bytes(sent, 2, message.len());
            let tag = reply_tag(sent);
            let (after, got) = run(cipher, receiver, decrypt_program(key, nonce, ciphertext));
            let plaintext = reply_bytes(got, 0, message.len());
            let checks = run(cipher, after, check_program(nonce, aad, plaintext)).1;
            &&& plaintext == message
            &&& reply_tag(checks) == tag
        }),
{
    law_encrypts(cipher, sender, key, nonce, aad, message);
    let ciphertext = ccm_crypt(cipher, key, nonce, message);
    law_decrypts(cipher, receiver, key, nonce, aad, ciphertext);
    lemma_crypt_is_involution(cipher, key, nonce, message);
}

/// The module does what it is told, operation by operation: a store changes the register that it
/// names and nothing else, clearing zeroes the accumulator, and starting masks the data in counter
/// mode and chains it in CBC mode; only loads hand anything back, and change nothing.
pub proof fn law_module_follows_its_registers(
    cipher: Cipher,
    engine: Engine,
    n: u8,
    value: u32,
    first: Seq<Op>,
    second: Seq<Op>,
    op: Op,
)
    requires
        engine.well_formed(),
        n < 4,
    ensures
        ({
            let stored = step(cipher, engine, Op::Write { reg: Register::AsmKey(n), value });
            stored.0 == (Engine { key: engine.key.update(n as int, value), ..engine })
                && stored.1.len() == 0
        }),
        ({
            let stored = step(cipher, engine, Op::Write { reg: Register::AsmData(n), value });
            stored.0 == (Engine { data: engine.data.update(n as int, value), ..engine })
                && stored.1.len() == 0
        }),
        ({
            let stored = step(cipher, engine, Op::Write { reg: Register::AsmCtr(n), value });
            stored.0 == (Engine { ctr: engine.ctr.update(n as int, value), ..engine })
                && stored.1.len() == 0
        }),
        ({
            let stored = step(cipher, engine, Op::Write { reg: Register::AsmControl1, value });
            stored.0 == (Engine { control1: value, ..engine }) && stored.1.len() == 0
        }),
        ({
            let cleared = step(
                cipher,
                engine,
                Op::Write { reg: Register::AsmControl0, value: 0x0200_0000 },
            );
            cleared.0 == (Engine { mac: Seq::new(16, |i: int| 0u8), ..engine }) && cleared.1.len()
                == 0
        }),
        ({
            let (started, replies) = step(
                cipher,
                engine,
                Op::Write { reg: Register::AsmControl0, value: 0x0100_0000 },
            );
            let out = cipher(block_of(engine.key), block_of(engine.ctr));
            let folded = Seq::new(16, |i: int| engine.mac[i] ^ block_of(engine.data)[i]);
            &&& replies.len() == 0
            &&& engine.control1 == 0x8200_0003 ==> started == (Engine {
                ctr_result: Seq::new(16, |i: int| block_of(engine.data)[i] ^ out[i]),
                ..engine
            })
            &&& engine.control1 == 0x8100_0003 ==> started == (Engine {
                mac: cipher(block_of(engine.key), folded),
                ..engine
            })
        }),
        step(cipher, engine, Op::Read { reg: Register::AsmCtrResult(n) }) == (
            engine,
            seq![be_word(engine.ctr_result, n as int)],
        ),
        step(cipher, engine, Op::Read { reg: Register::AsmCbcResult(n) }) == (
            engine,
            seq![be_word(engine.mac, n as int)],
        ),
        op is WaitSet ==> step(cipher, engine, op) == (engine, Seq::<u32>::empty()),
        run(cipher, engine, Seq::empty()) == (engine, Seq::<u32>::empty()),
        run(cipher, engine, seq![op]) == step(cipher, engine, op),
        run(cipher, engine, first + second).0 == run(
            cipher,
            run(cipher, engine, first).0,
            second,
        ).0,
        run(cipher, engine, first + second).1 == run(cipher, engine, first).1 + run(
            cipher,
            run(cipher, engine, first).0,
            second,
        ).1,
{
    lemma_run_none(cipher, engine);
    lemma_run_one(cipher, engine, op);
    lemma_run_concat(cipher, engine, first, second);
    let folded = Seq::new(16, |i: int| engine.mac[i] ^ block_of(engine.data)[i]);
    assert(folded =~= xor(engine.mac, block_of(engine.data)));
    let out = cipher(block_of(engine.key), block_of(engine.ctr));
    assert(Seq::new(16, |i: int| block_of(engine.data)[i] ^ out[i]) =~= xor(
        block_of(engine.data),
        out,
    ));
    assert(zeros() =~= Seq::new(16, |i: int| 0u8));
}

/// The CBC-MAC chains: that of no blocks is zero, and each further block is folded into what there
/// is, and encrypted.
pub proof fn law_mac_chains(cipher: Cipher, key: Seq<u8>, blocks: Seq<Seq<u8>>, block: Seq<u8>)
    requires
        is_block_cipher(cipher),
    ensures
        cbc_mac(cipher, key, Seq::empty()) == Seq::new(16, |i: int| 0u8),
        cbc_mac(cipher, key, blocks.push(block)) == cipher(
            key,
            Seq::new(16, |i: int| cbc_mac(cipher, key, blocks)[i] ^ block[i]),
        ),
        cbc_mac(cipher, key, blocks).len() == 16,
{
    let mac = cbc_mac(cipher, key, blocks);
    assert(blocks.push(block).drop_last() =~= blocks);
    assert(Seq::new(16, |i: int| mac[i] ^ block[i]) =~= xor(mac, block));
    assert(zeros() =~= Seq::new(16, |i: int| 0u8));
}

proof fn lemma_counter_block_is_unique(nonce: Seq<u8>, counter: int, block: Seq<u8>)
    requires
        nonce.len() == 13,
        0 <= counter < 0x1_0000,
        block.len() == 16,
        block[0] == 1,
        forall|k: int| 0 <= k < 13 ==> #[trigger] block[1 + k] == nonce[k],
        block[14] * 256 + block[15] == counter,
    ensures
        block == counter_block(nonce, counter),
{
    let made = counter_block(nonce, counter);
    law_counter_blocks_differ(nonce, counter, counter);
    assert forall|i: int| 0 <= i < 16 implies block[i] == made[i] by {
        if 1 <= i < 14 {
            assert(block[1 + (i - 1)] == nonce[i - 1]);
            assert(made[1 + (i - 1)] == nonce[i - 1]);
        }
    }
    assert(block =~= made);
}

/// Encryption masks byte `i` of a message with byte `i % 16` of the encrypted counter block whose
/// counter is `i / 16 + 1`, and decryption masks it with the same byte again.
pub proof fn law_bytes_are_masked_with_the_key_stream(
    cipher: Cipher,
    engine: Engine,
    key: Seq<u8>,
    nonce: Seq<u8>,
    aad: Seq<u8>,
    message: Seq<u8>,
    i: int,
    block: Seq<u8>,
)
    requires
        is_block_cipher(cipher),
        engine.well_formed(),
        key.len() == 16,
        nonce.len() == 13,
        0 <= i < message.len(),
        block.len() == 16,
        block[0] == 1,
        forall|k: int| 0 <= k < 13 ==> #[trigger] block[1 + k] == nonce[k],
        block[14] * 256 + block[15] == (i / 16 + 1) % 0x1_0000,
    ensures
        reply_bytes(
            run(cipher, engine, encrypt_program(key, nonce, aad, message)).1,
            2,
            message.len(),
        )[i] == message[i] ^ cipher(key, block)[i % 16],
        reply_bytes(
            run(cipher, engine, decrypt_program(key, nonce, message)).1,
            0,
            message.len(),
        )[i] == message[i] ^ cipher(key, block)[i % 16],
{
    law_encrypts(cipher, engine, key, nonce, aad, message);
    law_decrypts(cipher, engine, key, nonce, aad, message);
    lemma_counter_block_is_unique(nonce, (i / 16 + 1) % 0x1_0000, block);
}

/// The tag that goes with a message, and the one that is expected of a decrypted message, is the
/// first eight bytes of the CBC-MAC of all that is authenticated, each masked with that of the
/// encrypted counter block whose counter is zero.
pub proof fn law_tag_is_the_masked_mac(
    cipher: Cipher,
    engine: Engine,
    key: Seq<u8>,
    nonce: Seq<u8>,
    aad: Seq<u8>,
    message: Seq<u8>,
    j: int,
    block: Seq<u8>,
)
    requires
        is_block_cipher(cipher),
        engine.well_formed(),
        key.len() == 16,
        nonce.len() == 13,
        0 <= j < 8,
        block.len() == 16,
        block[0] == 1,
        forall|k: int| 0 <= k < 13 ==> #[trigger] block[1 + k] == nonce[k],
        block[14] == 0,
        block[15] == 0,
    ensures
        ({
            let replies = run(cipher, engine, encrypt_program(key, nonce, aad, message)).1;
            reply_tag(replies)[j] == cbc_mac(cipher, key, ccm_blocks(nonce, aad, message))[j]
                ^ cipher(key, block)[j]
        }),
        ({
            let (after, replies) = run(cipher, engine, decrypt_program(key, nonce, message));
            let plain = reply_bytes(replies, 0, message.len());
            let checks = run(cipher, after, check_program(nonce, aad, plain)).1;
            reply_tag(checks)[j] == cbc_mac(cipher, key, ccm_blocks(nonce, aad, plain))[j]
                ^ cipher(key, block)[j]
        }),
{
    law_encrypts(cipher, engine, key, nonce, aad, message);
    law_decrypts(cipher, engine, key, nonce, aad, message);
    lemma_counter_block_is_unique(nonce, 0, block);
}

/// A message that is masked is masked byte by byte, and masking it twice gives it back.
pub proof fn law_masking_is_an_involution(
    cipher: Cipher,
    key: Seq<u8>,
    nonce: Seq<u8>,
    message: Seq<u8>,
)
    ensures
        ccm_crypt(cipher, key, nonce, message).len() == message.len(),
        ccm_crypt(cipher, key, nonce, ccm_crypt(cipher, key, nonce, message)) == message,
{
    lemma_crypt_is_involution(cipher, key, nonce, message);
}

} // verus!
