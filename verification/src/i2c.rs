//! I2C master.
//!
//! [`I2c0::transaction`] lays a transaction out as a plan of small steps, and [`Transaction`]
//! walks through the plan: it says what to do next, and reacts to each status that the module
//! reports.
use crate::board::I2C_CLOCK_DIVIDER;
use crate::port::{Call, Op, Register, INT_NUM_I2C};
use vstd::prelude::*;

verus! {

/// Control: repeated start.
pub const I2C_RSTA: u8 = 0x04;
/// Control: do not acknowledge.
pub const I2C_TXAK: u8 = 0x08;
/// Control: transmit.
pub const I2C_MTX: u8 = 0x10;
/// Control: master.
pub const I2C_MSTA: u8 = 0x20;
/// Control: interrupt enable.
pub const I2C_MIEN: u8 = 0x40;
/// Control: module enable.
pub const I2C_MEN: u8 = 0x80;
/// Status: no acknowledgement was received.
pub const I2C_RXAK: u8 = 0x01;
/// Status: interrupt pending.
pub const I2C_MIF: u8 = 0x02;
/// Status: arbitration was lost.
pub const I2C_MAL: u8 = 0x10;
/// Status: the bus is busy.
pub const I2C_MBB: u8 = 0x20;
/// Status: a byte transfer is complete.
pub const I2C_MCF: u8 = 0x80;
/// Clock enable.
pub const I2C_CKEN: u8 = 0x01;
/// GPIO of SCL.
pub const I2C_SCL: u8 = 12;
/// GPIO of SDA.
pub const I2C_SDA: u8 = 13;
/// Pad function of both lines.
pub const I2C_ALT_FUNCTION: u8 = 1;

/// Which byte was not acknowledged.
#[derive(Debug, Copy, Clone, PartialEq, Eq, Structural)]
pub enum NoAcknowledgeSource {
    /// The address.
    Address,
    /// A data byte.
    Data,
}

/// I2C master error.
#[derive(Debug, Copy, Clone, PartialEq, Eq, Structural)]
pub enum Error {
    /// The addressed slave did not acknowledge its address or a data byte.
    NoAcknowledge(NoAcknowledgeSource),
    /// The arbitration was lost.
    ArbitrationLost,
}

/// One part of a transaction.
#[derive(Debug)]
pub enum Operation {
    /// Read this many bytes.
    Read(usize),
    /// Write these bytes.
    Write(Vec<u8>),
}

impl Operation {
    /// Whether the part reads.
    pub open spec fn spec_is_read(self) -> bool {
        self is Read
    }

    /// Whether the part reads.
    pub fn is_read(&self) -> (read: bool)
        ensures
            read == self.spec_is_read(),
            read <==> *self is Read,
    {
        match self {
            Operation::Read(_) => true,
            Operation::Write(_) => false,
        }
    }
}

/// One step of a transaction.
#[derive(Debug, Copy, Clone, PartialEq, Eq, Structural)]
pub enum I2cStep {
    /// Wait until no master holds the bus.
    AwaitFree,
    /// Perform an operation.
    Apply(Op),
    /// Wait until the byte transfer under way is complete.
    AwaitByte,
    /// Give up unless the byte was acknowledged.
    CheckAck(NoAcknowledgeSource),
    /// Take the byte that was received.
    TakeByte,
}

/// The address byte: seven address bits, and whether the slave is to be read.
pub open spec fn address_byte(address: u8, read: bool) -> u8 {
    (address << 1u8) | (if read {
        1u8
    } else {
        0u8
    })
}

/// Put a byte on the bus.
pub open spec fn send(byte: u8) -> I2cStep {
    I2cStep::Apply(Op::Write { reg: Register::I2cDr, value: byte as u32 })
}

/// Clear the interrupt and arbitration flags.
pub open spec fn clear_status() -> I2cStep {
    I2cStep::Apply(Op::ClearBits { reg: Register::I2cSr, bits: 0x12 })
}

/// Release the bus.
pub open spec fn stop() -> I2cStep {
    I2cStep::Apply(Op::ClearBits { reg: Register::I2cCr, bits: 0x20 })
}

/// Ask for a repeated start.
pub open spec fn repeat_start() -> I2cStep {
    I2cStep::Apply(Op::SetBits { reg: Register::I2cCr, bits: 0x14 })
}

/// Stop acknowledging received bytes.
pub open spec fn nack() -> I2cStep {
    I2cStep::Apply(Op::SetBits { reg: Register::I2cCr, bits: 0x08 })
}

/// Take the bus and address the slave.
pub open spec fn start_plan(address: u8, read: bool) -> Seq<I2cStep> {
    seq![
        I2cStep::AwaitFree,
        I2cStep::Apply(Op::Write { reg: Register::I2cCr, value: 0xB0 }),
        clear_status(),
        send(address_byte(address, read)),
        I2cStep::AwaitByte,
        I2cStep::CheckAck(NoAcknowledgeSource::Address),
    ]
}

/// Address the slave again without giving up the bus.
pub open spec fn restart_plan(address: u8, read: bool) -> Seq<I2cStep> {
    seq![
        repeat_start(),
        clear_status(),
        send(address_byte(address, read)),
        I2cStep::AwaitByte,
        I2cStep::CheckAck(NoAcknowledgeSource::Address),
    ]
}

/// Write bytes, each acknowledged.
pub open spec fn transmit_plan(data: Seq<u8>) -> Seq<I2cStep>
    decreases data.len(),
{
    if data.len() == 0 {
        Seq::empty()
    } else {
        transmit_plan(data.drop_last()) + seq![
            send(data.last()),
            I2cStep::AwaitByte,
            I2cStep::CheckAck(NoAcknowledgeSource::Data),
        ]
    }
}

/// Read bytes, all acknowledged.
pub open spec fn take_plan(count: int) -> Seq<I2cStep>
    decreases count,
{
    if count <= 0 {
        Seq::empty()
    } else {
        take_plan(count - 1) + seq![I2cStep::AwaitByte, I2cStep::TakeByte]
    }
}

/// Read bytes. At the end of a transaction the byte behind the last one is not acknowledged, and
/// waited out.
pub open spec fn continue_plan(count: int, nack_tail: bool) -> Seq<I2cStep> {
    if nack_tail && count > 0 {
        take_plan(count - 1) + seq![
            I2cStep::AwaitByte,
            nack(),
            I2cStep::TakeByte,
            I2cStep::AwaitByte,
        ]
    } else {
        take_plan(count)
    }
}

/// Switch to receiving, drop the address byte, and read bytes.
pub open spec fn receive_plan(count: int, nack_tail: bool) -> Seq<I2cStep> {
    seq![
        I2cStep::Apply(Op::ClearBits { reg: Register::I2cCr, bits: 0x10 }),
        I2cStep::Apply(Op::Discard { reg: Register::I2cDr }),
    ] + continue_plan(count, nack_tail)
}

/// Whether part `i` addresses the slave: the first one does, and each that changes direction.
pub open spec fn addresses(operations: Seq<Operation>, i: int) -> bool {
    i == 0 || operations[i - 1].spec_is_read() != operations[i].spec_is_read()
}

/// The steps of part `i`.
pub open spec fn part_plan(address: u8, operations: Seq<Operation>, i: int) -> Seq<I2cStep> {
    let read = operations[i].spec_is_read();
    let opening = if i == 0 {
        start_plan(address, read)
    } else if addresses(operations, i) {
        restart_plan(address, read)
    } else {
        Seq::empty()
    };
    opening + match operations[i] {
        Operation::Read(count) => if addresses(operations, i) {
            receive_plan(count as int, i + 1 == operations.len())
        } else {
            continue_plan(count as int, i + 1 == operations.len())
        },
        Operation::Write(data) => transmit_plan(data@),
    }
}

/// The steps of the first `n` parts.
pub open spec fn parts_plan(address: u8, operations: Seq<Operation>, n: int) -> Seq<I2cStep>
    decreases n,
{
    if n <= 0 {
        Seq::empty()
    } else {
        parts_plan(address, operations, n - 1) + part_plan(address, operations, n - 1)
    }
}

/// The steps of a transaction: all parts, and then the bus is released. A transaction without
/// parts does nothing.
pub open spec fn plan(address: u8, operations: Seq<Operation>) -> Seq<I2cStep> {
    if operations.len() == 0 {
        Seq::empty()
    } else {
        parts_plan(address, operations, operations.len() as int) + seq![stop()]
    }
}

fn push_send(steps: &mut Vec<I2cStep>, byte: u8)
    ensures
        final(steps)@ == old(steps)@.push(send(byte)),
{
    steps.push(I2cStep::Apply(Op::Write { reg: Register::I2cDr, value: byte as u32 }));
}

fn push_address(steps: &mut Vec<I2cStep>, address: u8, read: bool)
    ensures
        final(steps)@ == old(steps)@ + seq![
            clear_status(),
            send(address_byte(address, read)),
            I2cStep::AwaitByte,
            I2cStep::CheckAck(NoAcknowledgeSource::Address),
        ],
{
    let direction: u8 = if read {
        1
    } else {
        0
    };
    steps.push(I2cStep::Apply(Op::ClearBits { reg: Register::I2cSr, bits: 0x12 }));
    push_send(steps, (address << 1u8) | direction);
    steps.push(I2cStep::AwaitByte);
    steps.push(I2cStep::CheckAck(NoAcknowledgeSource::Address));
}

fn push_start(steps: &mut Vec<I2cStep>, address: u8, read: bool)
    ensures
        final(steps)@ == old(steps)@ + start_plan(address, read),
{
    steps.push(I2cStep::AwaitFree);
    steps.push(I2cStep::Apply(Op::Write { reg: Register::I2cCr, value: 0xB0 }));
    push_address(steps, address, read);
    assert(steps@ =~= old(steps)@ + start_plan(address, read));
}

fn push_restart(steps: &mut Vec<I2cStep>, address: u8, read: bool)
    ensures
        final(steps)@ == old(steps)@ + restart_plan(address, read),
{
    steps.push(I2cStep::Apply(Op::SetBits { reg: Register::I2cCr, bits: 0x14 }));
    push_address(steps, address, read);
    assert(steps@ =~= old(steps)@ + restart_plan(address, read));
}

fn push_transmit(steps: &mut Vec<I2cStep>, data: &Vec<u8>)
    ensures
        final(steps)@ == old(steps)@ + transmit_plan(data@),
{
    let mut i: usize = 0;
    while i < data.len()
        invariant
            i <= data.len(),
            steps@ == old(steps)@ + transmit_plan(data@.take(i as int)),
        decreases data.len() - i,
    {
        proof {
            assert(data@.take(i + 1).drop_last() =~= data@.take(i as int));
        }
        push_send(steps, data[i]);
        steps.push(I2cStep::AwaitByte);
        steps.push(I2cStep::CheckAck(NoAcknowledgeSource::Data));
        i = i + 1;
    }
    assert(data@.take(data@.len() as int) =~= data@);
}

fn push_continue(steps: &mut Vec<I2cStep>, count: usize, nack_tail: bool)
    ensures
        final(steps)@ == old(steps)@ + continue_plan(count as int, nack_tail),
{
    let acknowledged: usize = if nack_tail && count > 0 {
        count - 1
    } else {
        count
    };
    let mut i: usize = 0;
    while i < acknowledged
        invariant
            i <= acknowledged,
            steps@ == old(steps)@ + take_plan(i as int),
        decreases acknowledged - i,
    {
        steps.push(I2cStep::AwaitByte);
        steps.push(I2cStep::TakeByte);
        i = i + 1;
    }
    if nack_tail && count > 0 {
        steps.push(I2cStep::AwaitByte);
        steps.push(I2cStep::Apply(Op::SetBits { reg: Register::I2cCr, bits: 0x08 }));
        steps.push(I2cStep::TakeByte);
        steps.push(I2cStep::AwaitByte);
    }
    assert(steps@ =~= old(steps)@ + continue_plan(count as int, nack_tail));
}

fn push_receive(steps: &mut Vec<I2cStep>, count: usize, nack_tail: bool)
    ensures
        final(steps)@ == old(steps)@ + receive_plan(count as int, nack_tail),
{
    steps.push(I2cStep::Apply(Op::ClearBits { reg: Register::I2cCr, bits: 0x10 }));
    steps.push(I2cStep::Apply(Op::Discard { reg: Register::I2cDr }));
    push_continue(steps, count, nack_tail);
    assert(steps@ =~= old(steps)@ + receive_plan(count as int, nack_tail));
}

/// I2C master on the module 0 instance (SCL = GPIO12, SDA = GPIO13).
#[derive(Debug, Copy, Clone, PartialEq, Eq, Structural)]
pub struct I2c0;

impl I2c0 {
    /// A divider to start from: it gives about 150 kHz on the board. Bus load and pull-ups change
    /// that, so it is never applied without being asked for.
    pub const BOARD_CLOCK_DIVIDER: u8 = I2C_CLOCK_DIVIDER;

    /// A master, with the program that enables the module at the given clock divider, muxes the
    /// pads, turns on the pull-ups, and routes the completion interrupt.
    pub fn new(clock_divider: u8) -> (made: (I2c0, Vec<Op>))
        ensures
            made.0 == I2c0,
            made.1@ == seq![
                Op::Write { reg: Register::I2cCker, value: 0x01 },
                Op::Write { reg: Register::I2cFdr, value: clock_divider as u32 },
                Op::Write { reg: Register::I2cAdr, value: 0x01 },
                Op::Write { reg: Register::I2cCr, value: 0x80 },
                Op::Call(Call::GpioSelectFunction { pin: 12, function: 1 }),
                Op::Call(Call::GpioSelectFunction { pin: 13, function: 1 }),
                Op::Call(Call::GpioRegSet { reg: Register::GpioPadPuEn0, pin: 12 }),
                Op::Call(Call::GpioRegSet { reg: Register::GpioPadPuEn0, pin: 13 }),
                Op::Call(Call::GpioRegSet { reg: Register::GpioPadPuSel0, pin: 12 }),
                Op::Call(Call::GpioRegSet { reg: Register::GpioPadPuSel0, pin: 13 }),
                Op::Write { reg: Register::IntEnnum, value: INT_NUM_I2C },
            ],
    {
        let program: Vec<Op> = vec![
            Op::Write { reg: Register::I2cCker, value: I2C_CKEN as u32 },
            Op::Write { reg: Register::I2cFdr, value: clock_divider as u32 },
            Op::Write { reg: Register::I2cAdr, value: 0x01 },
            Op::Write { reg: Register::I2cCr, value: I2C_MEN as u32 },
            Op::Call(Call::GpioSelectFunction { pin: I2C_SCL, function: I2C_ALT_FUNCTION }),
            Op::Call(Call::GpioSelectFunction { pin: I2C_SDA, function: I2C_ALT_FUNCTION }),
            Op::Call(Call::GpioRegSet { reg: Register::GpioPadPuEn0, pin: I2C_SCL }),
            Op::Call(Call::GpioRegSet { reg: Register::GpioPadPuEn0, pin: I2C_SDA }),
            Op::Call(Call::GpioRegSet { reg: Register::GpioPadPuSel0, pin: I2C_SCL }),
            Op::Call(Call::GpioRegSet { reg: Register::GpioPadPuSel0, pin: I2C_SDA }),
            Op::Write { reg: Register::IntEnnum, value: INT_NUM_I2C },
        ];
        (I2c0, program)
    }

    /// Lay out a transaction with the slave at `address`.
    pub fn transaction(&self, address: u8, operations: &Vec<Operation>) -> (transaction:
        Transaction)
        ensures
            transaction.well_formed(),
            transaction.steps() == plan(address, operations@),
            transaction.at() == 0,
            transaction.received() == Seq::<u8>::empty(),
    {
        let mut steps: Vec<I2cStep> = Vec::new();
        let n: usize = operations.len();
        let mut i: usize = 0;
        while i < n
            invariant
                i <= n,
                n == operations@.len(),
                steps@ == parts_plan(address, operations@, i as int),
            decreases n - i,
        {
            let read: bool = operations[i].is_read();
            let last: bool = i + 1 == n;
            let addressing: bool = i == 0 || operations[i - 1].is_read() != read;
            let ghost before = steps@;
            if i == 0 {
                push_start(&mut steps, address, read);
            } else if addressing {
                push_restart(&mut steps, address, read);
            }
            match &operations[i] {
                Operation::Read(count) => {
                    if addressing {
                        push_receive(&mut steps, *count, last);
                    } else {
                        push_continue(&mut steps, *count, last);
                    }
                },
                Operation::Write(data) => {
                    push_transmit(&mut steps, data);
                },
            }
            assert(steps@ =~= before + part_plan(address, operations@, i as int));
            i = i + 1;
        }
        if n > 0 {
            steps.push(I2cStep::Apply(Op::ClearBits { reg: Register::I2cCr, bits: 0x20 }));
        }
        assert(steps@ =~= plan(address, operations@));
        Transaction { steps, at: 0, received: Vec::new() }
    }
}

/// Bytes of the first `k` buffers.
pub open spec fn bytes_before(lengths: Seq<usize>, k: int) -> int
    decreases k,
{
    if k <= 0 {
        0
    } else {
        bytes_before(lengths, k - 1) + lengths[k - 1]
    }
}

/// A position in the received bytes, or their end where there are fewer.
pub open spec fn cut_off(received: Seq<u8>, at: int) -> int {
    if at <= received.len() {
        at
    } else {
        received.len() as int
    }
}

/// What buffer `k` gets of the received bytes: those behind the bytes of the buffers before it, as
/// many as it is long, as far as there are any.
pub open spec fn share(received: Seq<u8>, lengths: Seq<usize>, k: int) -> Seq<u8> {
    received.subrange(
        cut_off(received, bytes_before(lengths, k)),
        cut_off(received, bytes_before(lengths, k + 1)),
    )
}

proof fn lemma_bytes_before(lengths: Seq<usize>, k: int)
    requires
        0 <= k <= lengths.len(),
    ensures
        0 <= bytes_before(lengths, k),
    decreases k,
{
    if k > 0 {
        lemma_bytes_before(lengths, k - 1);
    }
}

/// Hand the received bytes out to the buffers of the reads, which are so long, in order: what each
/// of them gets, from its front on.
pub fn hand_out(received: &[u8], lengths: &Vec<usize>) -> (shares: Vec<Vec<u8>>)
    ensures
        shares@.len() == lengths@.len(),
        forall|k: int|
            0 <= k < lengths@.len() ==> (#[trigger] shares@[k])@ == share(received@, lengths@, k),
{
    let mut shares: Vec<Vec<u8>> = Vec::new();
    let total: usize = received.len();
    let mut at: usize = 0;
    let mut i: usize = 0;
    while i < lengths.len()
        invariant
            i <= lengths@.len(),
            total == received@.len(),
            at == cut_off(received@, bytes_before(lengths@, i as int)),
            shares@.len() == i,
            forall|k: int|
                0 <= k < i ==> (#[trigger] shares@[k])@ == share(received@, lengths@, k),
        decreases lengths.len() - i,
    {
        proof {
            lemma_bytes_before(lengths@, i as int);
        }
        let end: usize = if lengths[i] <= total - at {
            at + lengths[i]
        } else {
            total
        };
        let part: &[u8] = vstd::slice::slice_subrange(received, at, end);
        shares.push(vstd::slice::slice_to_vec(part));
        at = end;
        i = i + 1;
    }
    shares
}

/// All that is handed out, one buffer after the other, is what was received, as far as the buffers
/// have room for it.
pub proof fn law_shares_make_up_what_was_received(
    received: Seq<u8>,
    lengths: Seq<usize>,
    shares: Seq<Seq<u8>>,
)
    requires
        shares.len() == lengths.len(),
        forall|k: int|
            0 <= k < lengths.len() ==> #[trigger] shares[k] == share(received, lengths, k),
    ensures
        shares.flatten() == received.take(
            cut_off(received, bytes_before(lengths, lengths.len() as int)),
        ),
{
    lemma_shares(received, lengths, shares, lengths.len() as int);
    assert(shares.take(lengths.len() as int) =~= shares);
}

proof fn lemma_shares(received: Seq<u8>, lengths: Seq<usize>, shares: Seq<Seq<u8>>, n: int)
    requires
        0 <= n <= lengths.len(),
        shares.len() == lengths.len(),
        forall|k: int|
            0 <= k < lengths.len() ==> #[trigger] shares[k] == share(received, lengths, k),
    ensures
        shares.take(n).flatten() == received.take(cut_off(received, bytes_before(lengths, n))),
    decreases n,
{
    if n == 0 {
        assert(shares.take(0) =~= Seq::<Seq<u8>>::empty());
        assert(shares.take(0).flatten() =~= received.take(0));
    } else {
        lemma_shares(received, lengths, shares, n - 1);
        lemma_bytes_before(lengths, n - 1);
        let last = shares[n - 1];
        assert(shares.take(n) =~= shares.take(n - 1).push(last));
        shares.take(n - 1).lemma_flatten_push(last);
        assert(shares.take(n).flatten() =~= received.take(
            cut_off(received, bytes_before(lengths, n)),
        ));
    }
}

/// What a status means for the step under way.
#[derive(Debug, Copy, Clone, PartialEq, Eq, Structural)]
pub enum Verdict {
    /// The step is done.
    Proceed,
    /// Another master holds the bus: ask again. Nothing interrupts when it is released.
    BusBusy,
    /// The byte is not complete: ask again. The module can interrupt when it is.
    ByteUnderWay,
    /// The transaction has failed.
    Failed(Error),
}

/// What a byte transfer's status means, and what to do about it.
pub open spec fn byte_reaction(sr: u8) -> (Seq<Op>, Verdict) {
    if sr & I2C_MAL != 0 {
        (
            seq![
                Op::Write { reg: Register::I2cSr, value: (sr & !I2C_MAL) as u32 },
                Op::ClearBits { reg: Register::I2cCr, bits: 0x20 },
            ],
            Verdict::Failed(Error::ArbitrationLost),
        )
    } else if sr & I2C_MIF != 0 && sr & I2C_MCF != 0 {
        (seq![Op::Write { reg: Register::I2cSr, value: (sr & !I2C_MIF) as u32 }], Verdict::Proceed)
    } else {
        (Seq::empty(), Verdict::ByteUnderWay)
    }
}

/// What a status means for a step, and what to do about it.
pub open spec fn reaction(step: I2cStep, sr: u8) -> (Seq<Op>, Verdict) {
    match step {
        I2cStep::AwaitFree => (
            Seq::empty(),
            if sr & I2C_MBB != 0 {
                Verdict::BusBusy
            } else {
                Verdict::Proceed
            },
        ),
        I2cStep::AwaitByte => byte_reaction(sr),
        I2cStep::CheckAck(source) => if sr & I2C_RXAK != 0 {
            (
                seq![Op::ClearBits { reg: Register::I2cCr, bits: 0x20 }],
                Verdict::Failed(Error::NoAcknowledge(source)),
            )
        } else {
            (Seq::empty(), Verdict::Proceed)
        },
        _ => (Seq::empty(), Verdict::Proceed),
    }
}

/// Judge the status of the byte transfer under way, and say what to do about it.
pub fn poll_byte_status(sr: u8) -> (judged: (Vec<Op>, Verdict))
    ensures
        (judged.0@, judged.1) == byte_reaction(sr),
{
    if sr & I2C_MAL != 0 {
        let program: Vec<Op> = vec![
            Op::Write { reg: Register::I2cSr, value: (sr & !I2C_MAL) as u32 },
            Op::ClearBits { reg: Register::I2cCr, bits: 0x20 },
        ];
        return (program, Verdict::Failed(Error::ArbitrationLost));
    }
    if sr & I2C_MIF != 0 && sr & I2C_MCF != 0 {
        let program: Vec<Op> = vec![
            Op::Write { reg: Register::I2cSr, value: (sr & !I2C_MIF) as u32 },
        ];
        return (program, Verdict::Proceed);
    }
    (Vec::new(), Verdict::ByteUnderWay)
}

/// What a transaction needs next.
#[derive(Debug, Copy, Clone, PartialEq, Eq, Structural)]
pub enum Need {
    /// Perform this operation, and call [`Transaction::applied`].
    Apply(Op),
    /// Read the status register, and call [`Transaction::status`].
    Status,
    /// Read the data register, and call [`Transaction::data`].
    Data,
    /// Nothing: the transaction is complete.
    Nothing,
}

/// What a step needs.
pub open spec fn need_of(step: I2cStep) -> Need {
    match step {
        I2cStep::Apply(op) => Need::Apply(op),
        I2cStep::TakeByte => Need::Data,
        _ => Need::Status,
    }
}

/// The byte that a step puts on the bus, if it does.
pub open spec fn sent_by(step: I2cStep) -> Seq<u8> {
    match step {
        I2cStep::Apply(Op::Write { reg: Register::I2cDr, value }) => seq![value as u8],
        _ => Seq::empty(),
    }
}

/// The bytes that steps put on the bus.
pub open spec fn sent(steps: Seq<I2cStep>) -> Seq<u8>
    decreases steps.len(),
{
    if steps.len() == 0 {
        Seq::empty()
    } else {
        sent(steps.drop_last()) + sent_by(steps.last())
    }
}

/// How many bytes steps take from the bus.
pub open spec fn taken(steps: Seq<I2cStep>) -> int
    decreases steps.len(),
{
    if steps.len() == 0 {
        0
    } else {
        taken(steps.drop_last()) + (if steps.last() is TakeByte {
            1int
        } else {
            0int
        })
    }
}

/// A transaction under way.
#[derive(Debug)]
pub struct Transaction {
    steps: Vec<I2cStep>,
    at: usize,
    received: Vec<u8>,
}

impl Transaction {
    /// The steps of the transaction.
    pub closed spec fn steps(self) -> Seq<I2cStep> {
        self.steps@
    }

    /// How many steps are done.
    pub closed spec fn at(self) -> int {
        self.at as int
    }

    /// The bytes that were received so far.
    pub closed spec fn received(self) -> Seq<u8> {
        self.received@
    }

    /// The transaction is at one of its steps, or behind the last, and has received a byte for
    /// every step behind it that takes one.
    pub open spec fn well_formed(self) -> bool {
        &&& 0 <= self.at() <= self.steps().len()
        &&& self.received().len() == taken(self.steps().take(self.at()))
    }

    /// What is needed next.
    pub open spec fn spec_need(self) -> Need {
        if self.at() < self.steps().len() {
            need_of(self.steps()[self.at()])
        } else {
            Need::Nothing
        }
    }

    /// What is needed next.
    pub fn need(&self) -> (need: Need)
        requires
            self.well_formed(),
        ensures
            need == self.spec_need(),
    {
        if self.at < self.steps.len() {
            match self.steps[self.at] {
                I2cStep::Apply(op) => Need::Apply(op),
                I2cStep::TakeByte => Need::Data,
                _ => Need::Status,
            }
        } else {
            Need::Nothing
        }
    }

    /// The operation was performed.
    pub fn applied(&mut self)
        requires
            old(self).well_formed(),
            old(self).spec_need() is Apply,
        ensures
            final(self).well_formed(),
            final(self).steps() == old(self).steps(),
            final(self).at() == old(self).at() + 1,
            final(self).received() == old(self).received(),
    {
        assert(self.at < self.steps.len());
        assert(self.steps@.take(self.at + 1).drop_last() =~= self.steps@.take(self.at as int));
        self.at = self.at + 1;
    }

    /// The data register held this byte.
    pub fn data(&mut self, byte: u8)
        requires
            old(self).well_formed(),
            old(self).spec_need() is Data,
        ensures
            final(self).well_formed(),
            final(self).steps() == old(self).steps(),
            final(self).at() == old(self).at() + 1,
            final(self).received() == old(self).received().push(byte),
    {
        assert(self.at < self.steps.len());
        assert(self.steps@.take(self.at + 1).drop_last() =~= self.steps@.take(self.at as int));
        self.received.push(byte);
        self.at = self.at + 1;
    }

    /// The status register held this value: what to do about it, and what it means.
    pub fn status(&mut self, sr: u8) -> (judged: (Vec<Op>, Verdict))
        requires
            old(self).well_formed(),
            old(self).spec_need() is Status,
        ensures
            (judged.0@, judged.1) == reaction(old(self).steps()[old(self).at()], sr),
            final(self).well_formed(),
            final(self).steps() == old(self).steps(),
            final(self).at() == old(self).at() + (if judged.1 is Proceed {
                1int
            } else {
                0int
            }),
            final(self).received() == old(self).received(),
    {
        let judged: (Vec<Op>, Verdict) = match self.steps[self.at] {
            I2cStep::AwaitFree => {
                if sr & I2C_MBB != 0 {
                    (Vec::new(), Verdict::BusBusy)
                } else {
                    (Vec::new(), Verdict::Proceed)
                }
            },
            I2cStep::AwaitByte => poll_byte_status(sr),
            I2cStep::CheckAck(source) => {
                if sr & I2C_RXAK != 0 {
                    let program: Vec<Op> = vec![
                        Op::ClearBits { reg: Register::I2cCr, bits: 0x20 },
                    ];
                    (program, Verdict::Failed(Error::NoAcknowledge(source)))
                } else {
                    (Vec::new(), Verdict::Proceed)
                }
            },
            _ => (Vec::new(), Verdict::Proceed),
        };
        match judged.1 {
            Verdict::Proceed => {
                assert(self.at < self.steps.len());
                assert(self.steps@.take(self.at + 1).drop_last() =~= self.steps@.take(
                    self.at as int,
                ));
                self.at = self.at + 1;
            },
            _ => {},
        }
        judged
    }

    /// The bytes that were received.
    pub fn into_received(self) -> (bytes: Vec<u8>)
        ensures
            bytes@ == self.received(),
    {
        self.received
    }
}

/// Arm the completion interrupt before waiting for it.
pub fn arm_interrupt() -> (op: Op)
    ensures
        op == (Op::SetBits { reg: Register::I2cCr, bits: 0x40 }),
{
    Op::SetBits { reg: Register::I2cCr, bits: I2C_MIEN as u32 }
}

/// The completion interrupt: disarm it, which is all that lets it end. The flags are left for
/// the task that waits.
pub fn i2c_isr() -> (op: Op)
    ensures
        op == (Op::ClearBits { reg: Register::I2cCr, bits: 0x40 }),
{
    Op::ClearBits { reg: Register::I2cCr, bits: I2C_MIEN as u32 }
}

proof fn lemma_filters_concat(first: Seq<I2cStep>, second: Seq<I2cStep>)
    ensures
        taken(first + second) == taken(first) + taken(second),
        sent(first + second) == sent(first) + sent(second),
    decreases second.len(),
{
    if second.len() == 0 {
        assert(first + second =~= first);
        assert(sent(first) + Seq::<u8>::empty() =~= sent(first));
    } else {
        lemma_filters_concat(first, second.drop_last());
        assert((first + second).drop_last() =~= first + second.drop_last());
        assert(sent(first + second) =~= sent(first) + sent(second));
    }
}

proof fn lemma_filters_one(step: I2cStep)
    ensures
        taken(seq![step]) == (if step is TakeByte {
            1int
        } else {
            0int
        }),
        sent(seq![step]) == sent_by(step),
{
    reveal_with_fuel(taken, 2);
    reveal_with_fuel(sent, 2);
    assert(seq![step].drop_last() =~= Seq::<I2cStep>::empty());
    assert(Seq::<u8>::empty() + sent_by(step) =~= sent_by(step));
}

proof fn lemma_filters_opening(address: u8, read: bool)
    ensures
        taken(start_plan(address, read)) == 0,
        sent(start_plan(address, read)) == seq![address_byte(address, read)],
        taken(restart_plan(address, read)) == 0,
        sent(restart_plan(address, read)) == seq![address_byte(address, read)],
{
    let s = start_plan(address, read);
    let r = restart_plan(address, read);
    let byte = address_byte(address, read);
    reveal_with_fuel(taken, 7);
    reveal_with_fuel(sent, 7);
    let s5 = s.drop_last();
    let s4 = s5.drop_last();
    let s3 = s4.drop_last();
    let s2 = s3.drop_last();
    let s1 = s2.drop_last();
    let s0 = s1.drop_last();
    assert(s0.len() == 0);
    assert(sent(s1) =~= Seq::<u8>::empty());
    assert(sent(s2) =~= Seq::<u8>::empty());
    assert(sent(s3) =~= Seq::<u8>::empty());
    assert(sent(s4) =~= seq![byte]);
    assert(sent(s5) =~= seq![byte]);
    assert(sent(s) =~= seq![byte]);
    let r4 = r.drop_last();
    let r3 = r4.drop_last();
    let r2 = r3.drop_last();
    let r1 = r2.drop_last();
    let r0 = r1.drop_last();
    assert(r0.len() == 0);
    assert(sent(r1) =~= Seq::<u8>::empty());
    assert(sent(r2) =~= Seq::<u8>::empty());
    assert(sent(r3) =~= seq![byte]);
    assert(sent(r4) =~= seq![byte]);
    assert(sent(r) =~= seq![byte]);
}

proof fn lemma_filters_transmit(data: Seq<u8>)
    ensures
        taken(transmit_plan(data)) == 0,
        sent(transmit_plan(data)) == data,
    decreases data.len(),
{
    if data.len() > 0 {
        lemma_filters_transmit(data.drop_last());
        let a = send(data.last());
        let b = I2cStep::AwaitByte;
        let c = I2cStep::CheckAck(NoAcknowledgeSource::Data);
        assert(seq![a, b, c] =~= seq![a] + seq![b] + seq![c]);
        lemma_filters_concat(transmit_plan(data.drop_last()), seq![a, b, c]);
        lemma_filters_concat(seq![a] + seq![b], seq![c]);
        lemma_filters_concat(seq![a], seq![b]);
        lemma_filters_one(a);
        lemma_filters_one(b);
        lemma_filters_one(c);
        assert(sent(transmit_plan(data)) =~= data);
    }
}

proof fn lemma_filters_take(count: int)
    requires
        0 <= count,
    ensures
        taken(take_plan(count)) == count,
        sent(take_plan(count)) == Seq::<u8>::empty(),
    decreases count,
{
    if count > 0 {
        lemma_filters_take(count - 1);
        let a = I2cStep::AwaitByte;
        let b = I2cStep::TakeByte;
        assert(seq![a, b] =~= seq![a] + seq![b]);
        lemma_filters_concat(take_plan(count - 1), seq![a, b]);
        lemma_filters_concat(seq![a], seq![b]);
        lemma_filters_one(a);
        lemma_filters_one(b);
        assert(sent(take_plan(count)) =~= Seq::<u8>::empty());
    }
}

proof fn lemma_filters_continue(count: int, nack_tail: bool)
    requires
        0 <= count,
    ensures
        taken(continue_plan(count, nack_tail)) == count,
        sent(continue_plan(count, nack_tail)) == Seq::<u8>::empty(),
        taken(receive_plan(count, nack_tail)) == count,
        sent(receive_plan(count, nack_tail)) == Seq::<u8>::empty(),
{
    if nack_tail && count > 0 {
        lemma_filters_take(count - 1);
        let a = I2cStep::AwaitByte;
        let b = nack();
        let c = I2cStep::TakeByte;
        assert(seq![a, b, c, a] =~= seq![a] + seq![b] + seq![c] + seq![a]);
        lemma_filters_concat(take_plan(count - 1), seq![a, b, c, a]);
        lemma_filters_concat(seq![a] + seq![b] + seq![c], seq![a]);
        lemma_filters_concat(seq![a] + seq![b], seq![c]);
        lemma_filters_concat(seq![a], seq![b]);
        lemma_filters_one(a);
        lemma_filters_one(b);
        lemma_filters_one(c);
    } else {
        lemma_filters_take(count);
    }
    assert(sent(continue_plan(count, nack_tail)) =~= Seq::<u8>::empty());
    let d = I2cStep::Apply(Op::ClearBits { reg: Register::I2cCr, bits: 0x10 });
    let e = I2cStep::Apply(Op::Discard { reg: Register::I2cDr });
    assert(seq![d, e] =~= seq![d] + seq![e]);
    lemma_filters_concat(seq![d, e], continue_plan(count, nack_tail));
    lemma_filters_concat(seq![d], seq![e]);
    lemma_filters_one(d);
    lemma_filters_one(e);
    assert(sent(receive_plan(count, nack_tail)) =~= Seq::<u8>::empty());
}

proof fn lemma_filters_parts(address: u8, operations: Seq<Operation>, n: int)
    requires
        0 <= n <= operations.len(),
    ensures
        taken(parts_plan(address, operations, n)) == bytes_to_read(operations, n),
        sent(parts_plan(address, operations, n)) == bytes_to_send(address, operations, n),
    decreases n,
{
    if n > 0 {
        let i = n - 1;
        lemma_filters_parts(address, operations, i);
        lemma_filters_concat(
            parts_plan(address, operations, i),
            part_plan(address, operations, i),
        );
        let read = operations[i].spec_is_read();
        lemma_filters_opening(address, read);
        let opening = if i == 0 {
            start_plan(address, read)
        } else if addresses(operations, i) {
            restart_plan(address, read)
        } else {
            Seq::empty()
        };
        let body = match operations[i] {
            Operation::Read(count) => if addresses(operations, i) {
                receive_plan(count as int, i + 1 == operations.len())
            } else {
                continue_plan(count as int, i + 1 == operations.len())
            },
            Operation::Write(data) => transmit_plan(data@),
        };
        lemma_filters_concat(opening, body);
        match operations[i] {
            Operation::Read(count) => {
                lemma_filters_continue(count as int, i + 1 == operations.len());
            },
            Operation::Write(data) => {
                lemma_filters_transmit(data@);
            },
        }
        assert(sent(parts_plan(address, operations, n)) =~= bytes_to_send(address, operations, n));
    }
}

/// How many bytes the first `n` parts read.
pub open spec fn bytes_to_read(operations: Seq<Operation>, n: int) -> int
    decreases n,
{
    if n <= 0 {
        0
    } else {
        bytes_to_read(operations, n - 1) + match operations[n - 1] {
            Operation::Read(count) => count as int,
            Operation::Write(_) => 0,
        }
    }
}

/// The bytes that the first `n` parts put on the bus: the address byte where the slave is
/// addressed, and the data of each part that writes.
pub open spec fn bytes_to_send(address: u8, operations: Seq<Operation>, n: int) -> Seq<u8>
    decreases n,
{
    if n <= 0 {
        Seq::empty()
    } else {
        bytes_to_send(address, operations, n - 1) + (if addresses(operations, n - 1) {
            seq![address_byte(address, operations[n - 1].spec_is_read())]
        } else {
            Seq::empty()
        }) + match operations[n - 1] {
            Operation::Read(_) => Seq::empty(),
            Operation::Write(data) => data@,
        }
    }
}

/// A transaction puts on the bus exactly the address byte of each part that needs one and the
/// data of each part that writes, in order, and takes exactly as many bytes as its parts ask
/// for.
pub proof fn law_bytes_on_the_bus(address: u8, operations: Seq<Operation>)
    ensures
        sent(plan(address, operations)) == bytes_to_send(
            address,
            operations,
            operations.len() as int,
        ),
        taken(plan(address, operations)) == bytes_to_read(operations, operations.len() as int),
{
    if operations.len() > 0 {
        lemma_filters_parts(address, operations, operations.len() as int);
        lemma_filters_concat(
            parts_plan(address, operations, operations.len() as int),
            seq![stop()],
        );
        lemma_filters_one(stop());
        assert(sent(plan(address, operations)) =~= bytes_to_send(
            address,
            operations,
            operations.len() as int,
        ));
    }
}

/// A transaction that has come to its end has received as many bytes as its parts asked for.
pub proof fn law_complete_transaction(
    address: u8,
    operations: Seq<Operation>,
    transaction: Transaction,
)
    requires
        transaction.well_formed(),
        transaction.steps() == plan(address, operations),
        transaction.spec_need() is Nothing,
    ensures
        transaction.received().len() == bytes_to_read(operations, operations.len() as int),
{
    law_bytes_on_the_bus(address, operations);
    assert(transaction.steps().take(transaction.at()) =~= transaction.steps());
}

/// No step of a plan takes or releases the bus.
spec fn keeps_the_bus(steps: Seq<I2cStep>) -> bool {
    forall|i: int|
        0 <= i < steps.len() ==> #[trigger] steps[i] != stop() && steps[i] != I2cStep::AwaitFree
}

proof fn lemma_transmit_keeps_the_bus(data: Seq<u8>)
    ensures
        keeps_the_bus(transmit_plan(data)),
    decreases data.len(),
{
    if data.len() > 0 {
        lemma_transmit_keeps_the_bus(data.drop_last());
    }
}

proof fn lemma_take_keeps_the_bus(count: int)
    ensures
        keeps_the_bus(take_plan(count)),
    decreases count,
{
    if count > 0 {
        lemma_take_keeps_the_bus(count - 1);
    }
}

proof fn lemma_parts_keep_the_bus(address: u8, operations: Seq<Operation>, n: int)
    requires
        1 <= n <= operations.len(),
    ensures
        parts_plan(address, operations, n).len() > 0,
        parts_plan(address, operations, n)[0] == I2cStep::AwaitFree,
        keeps_the_bus(parts_plan(address, operations, n).skip(1)),
    decreases n,
{
    let i = n - 1;
    let part = part_plan(address, operations, i);
    match operations[i] {
        Operation::Read(count) => {
            lemma_take_keeps_the_bus(count as int);
            lemma_take_keeps_the_bus(count - 1);
        },
        Operation::Write(data) => {
            lemma_transmit_keeps_the_bus(data@);
        },
    }
    if i == 0 {
        assert(parts_plan(address, operations, 0) =~= Seq::<I2cStep>::empty());
        assert(parts_plan(address, operations, n) =~= part);
        assert(part[0] == start_plan(address, operations[0].spec_is_read())[0]);
        assert(keeps_the_bus(part.skip(1)));
    } else {
        lemma_parts_keep_the_bus(address, operations, i);
        let before = parts_plan(address, operations, i);
        assert(keeps_the_bus(part));
        assert((before + part).skip(1) =~= before.skip(1) + part);
    }
}

/// A transaction waits for the bus once, before everything else, and releases it once, after
/// everything else.
pub proof fn law_bus_is_taken_and_released_once(
    address: u8,
    operations: Seq<Operation>,
    i: int,
)
    requires
        operations.len() > 0,
        0 <= i < plan(address, operations).len(),
    ensures
        plan(address, operations)[i] == I2cStep::AwaitFree <==> i == 0,
        plan(address, operations)[i] == stop() <==> i == plan(address, operations).len() - 1,
{
    let parts = parts_plan(address, operations, operations.len() as int);
    lemma_parts_keep_the_bus(address, operations, operations.len() as int);
    if 0 < i < parts.len() {
        assert(parts.skip(1)[i - 1] == parts[i]);
    }
}

/// Whatever way a transaction fails, its last act is to release the bus.
pub proof fn law_failure_releases_the_bus(step: I2cStep, sr: u8)
    requires
        reaction(step, sr).1 is Failed,
    ensures
        reaction(step, sr).0.len() > 0,
        I2cStep::Apply(reaction(step, sr).0.last()) == stop(),
{
}

/// The address byte is the address in its upper seven bits, of which it has no more, above a bit
/// that is set exactly to read.
pub proof fn law_address_byte_is_positional(address: u8, read: bool)
    ensures
        address_byte(address, read) / 2 == address % 128,
        address_byte(address, read) % 2 == 1 <==> read,
{
    assert(((address << 1u8) | 1u8) / 2 == address % 128 && ((address << 1u8) | 1u8) % 2 == 1)
        by (bit_vector);
    assert(((address << 1u8) | 0u8) / 2 == address % 128 && ((address << 1u8) | 0u8) % 2 == 0)
        by (bit_vector);
}

spec fn to_receiving() -> I2cStep {
    I2cStep::Apply(Op::ClearBits { reg: Register::I2cCr, bits: 0x10 })
}

spec fn drop_byte() -> I2cStep {
    I2cStep::Apply(Op::Discard { reg: Register::I2cDr })
}

/// Every byte is waited for and its acknowledgement checked, as that of an address right after
/// the flags were cleared.
spec fn is_acknowledged(steps: Seq<I2cStep>, k: int) -> bool {
    sent_by(steps[k]).len() > 0 ==> {
        &&& k + 2 < steps.len()
        &&& steps[k + 1] == I2cStep::AwaitByte
        &&& if k > 0 && steps[k - 1] == clear_status() {
            steps[k + 2] == I2cStep::CheckAck(NoAcknowledgeSource::Address)
        } else {
            steps[k + 2] == I2cStep::CheckAck(NoAcknowledgeSource::Data)
        }
    }
}

/// No byte is taken that was not waited for.
spec fn is_awaited(steps: Seq<I2cStep>, k: int) -> bool {
    steps[k] == I2cStep::TakeByte ==> {
        ||| k >= 1 && steps[k - 1] == I2cStep::AwaitByte
        ||| k >= 2 && steps[k - 1] == nack() && steps[k - 2] == I2cStep::AwaitByte
    }
}

/// The slave is addressed right after a start, and the master turns to receiving exactly if the
/// slave is to be read.
spec fn is_turned(steps: Seq<I2cStep>, k: int) -> bool {
    &&& steps[k] == I2cStep::CheckAck(NoAcknowledgeSource::Address) ==> {
        &&& k >= 2
        &&& sent_by(steps[k - 2]).len() == 1
        &&& if sent_by(steps[k - 2])[0] % 2 == 1 {
            k + 2 < steps.len() && steps[k + 1] == to_receiving() && steps[k + 2] == drop_byte()
        } else {
            k + 1 < steps.len() ==> steps[k + 1] != to_receiving()
        }
    }
    &&& steps[k] == to_receiving() ==> k >= 1 && steps[k - 1] == I2cStep::CheckAck(
        NoAcknowledgeSource::Address,
    )
    &&& steps[k] == drop_byte() ==> k >= 1 && steps[k - 1] == to_receiving()
    &&& steps[k] == clear_status() ==> k >= 1 && k + 1 < steps.len() && sent_by(
        steps[k + 1],
    ).len() == 1 && (steps[k - 1] == repeat_start() || steps[k - 1] == I2cStep::Apply(
        Op::Write { reg: Register::I2cCr, value: 0xB0 },
    ))
}

spec fn is_orderly(steps: Seq<I2cStep>) -> bool {
    &&& steps.len() > 0 ==> steps.last() != clear_status() && steps[0] != to_receiving()
    &&& forall|k: int|
        #![trigger steps[k]]
        0 <= k < steps.len() ==> is_acknowledged(steps, k) && is_awaited(steps, k) && is_turned(
            steps,
            k,
        )
}

proof fn lemma_orderly_concat(first: Seq<I2cStep>, second: Seq<I2cStep>)
    requires
        is_orderly(first),
        is_orderly(second),
    ensures
        is_orderly(first + second),
{
    let both = first + second;
    let n = first.len() as int;
    assert forall|k: int| 0 <= k < both.len() implies is_acknowledged(both, k) && is_awaited(
        both,
        k,
    ) && is_turned(both, k) by {
        if k < n {
            assert(both[k] == first[k]);
            assert(is_acknowledged(first, k) && is_awaited(first, k) && is_turned(first, k));
            if k >= 1 {
                assert(both[k - 1] == first[k - 1]);
            }
            if k >= 2 {
                assert(both[k - 2] == first[k - 2]);
            }
            if k + 1 < n {
                assert(both[k + 1] == first[k + 1]);
            } else if k + 1 < both.len() {
                assert(both[k + 1] == second[0]);
            }
            if k + 2 < n {
                assert(both[k + 2] == first[k + 2]);
            }
        } else {
            let j = k - n;
            assert(both[k] == second[j]);
            assert(is_acknowledged(second, j) && is_awaited(second, j) && is_turned(second, j));
            if j >= 1 {
                assert(both[k - 1] == second[j - 1]);
            } else if n > 0 {
                assert(both[k - 1] == first.last());
            }
            if j >= 2 {
                assert(both[k - 2] == second[j - 2]);
            }
            if j + 1 < second.len() {
                assert(both[k + 1] == second[j + 1]);
            }
            if j + 2 < second.len() {
                assert(both[k + 2] == second[j + 2]);
            }
        }
    }
    if both.len() > 0 {
        assert(both.last() == if second.len() > 0 {
            second.last()
        } else {
            first.last()
        });
        assert(both[0] == if first.len() > 0 {
            first[0]
        } else {
            second[0]
        });
    }
}

proof fn lemma_orderly_opening(address: u8, read: bool)
    ensures
        !read ==> is_orderly(start_plan(address, read)),
        !read ==> is_orderly(restart_plan(address, read)),
        read ==> is_orderly(start_plan(address, read) + seq![to_receiving(), drop_byte()]),
        read ==> is_orderly(restart_plan(address, read) + seq![to_receiving(), drop_byte()]),
{
    law_address_byte_is_positional(address, read);
}

proof fn lemma_orderly_transmit(data: Seq<u8>)
    ensures
        is_orderly(transmit_plan(data)),
    decreases data.len(),
{
    if data.len() > 0 {
        lemma_orderly_transmit(data.drop_last());
        let byte = seq![
            send(data.last()),
            I2cStep::AwaitByte,
            I2cStep::CheckAck(NoAcknowledgeSource::Data),
        ];
        assert(is_orderly(byte));
        lemma_orderly_concat(transmit_plan(data.drop_last()), byte);
    }
}

proof fn lemma_orderly_take(count: int)
    ensures
        is_orderly(take_plan(count)),
    decreases count,
{
    if count > 0 {
        lemma_orderly_take(count - 1);
        let byte = seq![I2cStep::AwaitByte, I2cStep::TakeByte];
        assert(is_orderly(byte));
        lemma_orderly_concat(take_plan(count - 1), byte);
    }
}

proof fn lemma_orderly_continue(count: int, nack_tail: bool)
    ensures
        is_orderly(continue_plan(count, nack_tail)),
{
    if nack_tail && count > 0 {
        lemma_orderly_take(count - 1);
        let byte = seq![I2cStep::AwaitByte, nack(), I2cStep::TakeByte, I2cStep::AwaitByte];
        assert(is_orderly(byte));
        lemma_orderly_concat(take_plan(count - 1), byte);
    } else {
        lemma_orderly_take(count);
    }
}

proof fn lemma_orderly_part(address: u8, operations: Seq<Operation>, i: int)
    requires
        0 <= i < operations.len(),
    ensures
        is_orderly(part_plan(address, operations, i)),
{
    let read = operations[i].spec_is_read();
    let tail = i + 1 == operations.len();
    lemma_orderly_opening(address, read);
    let opening = if i == 0 {
        start_plan(address, read)
    } else {
        restart_plan(address, read)
    };
    match operations[i] {
        Operation::Read(count) => {
            lemma_orderly_continue(count as int, tail);
            if addresses(operations, i) {
                let turned = opening + seq![to_receiving(), drop_byte()];
                lemma_orderly_concat(turned, continue_plan(count as int, tail));
                assert(part_plan(address, operations, i) =~= turned + continue_plan(
                    count as int,
                    tail,
                ));
            } else {
                assert(part_plan(address, operations, i) =~= continue_plan(count as int, tail));
            }
        },
        Operation::Write(data) => {
            lemma_orderly_transmit(data@);
            if addresses(operations, i) {
                lemma_orderly_concat(opening, transmit_plan(data@));
            } else {
                assert(part_plan(address, operations, i) =~= transmit_plan(data@));
            }
        },
    }
}

proof fn lemma_orderly_parts(address: u8, operations: Seq<Operation>, n: int)
    requires
        0 <= n <= operations.len(),
    ensures
        is_orderly(parts_plan(address, operations, n)),
    decreases n,
{
    if n > 0 {
        lemma_orderly_parts(address, operations, n - 1);
        lemma_orderly_part(address, operations, n - 1);
        lemma_orderly_concat(
            parts_plan(address, operations, n - 1),
            part_plan(address, operations, n - 1),
        );
    }
}

proof fn lemma_orderly_plan(address: u8, operations: Seq<Operation>)
    ensures
        is_orderly(plan(address, operations)),
{
    if operations.len() > 0 {
        lemma_orderly_parts(address, operations, operations.len() as int);
        assert(is_orderly(seq![stop()]));
        lemma_orderly_concat(
            parts_plan(address, operations, operations.len() as int),
            seq![stop()],
        );
    }
}

/// Every byte that goes out, address or data, to write or to read, is waited for and then its
/// acknowledgement is checked, before anything else happens: as that of an address where the byte
/// follows a start, for which the flags were just cleared, and otherwise as that of data.
pub proof fn law_every_byte_is_acknowledged(address: u8, operations: Seq<Operation>, k: int)
    requires
        0 <= k < plan(address, operations).len(),
        plan(address, operations)[k] matches I2cStep::Apply(
            Op::Write { reg: Register::I2cDr, .. },
        ),
    ensures
        ({
            let steps = plan(address, operations);
            let addressing = k > 0 && steps[k - 1] == I2cStep::Apply(
                Op::ClearBits { reg: Register::I2cSr, bits: 0x12 },
            );
            &&& k + 2 < steps.len()
            &&& steps[k + 1] == I2cStep::AwaitByte
            &&& steps[k + 2] == I2cStep::CheckAck(
                if addressing {
                    NoAcknowledgeSource::Address
                } else {
                    NoAcknowledgeSource::Data
                },
            )
        }),
{
    lemma_orderly_plan(address, operations);
    assert(is_acknowledged(plan(address, operations), k));
}

/// The first byte of every transaction is the address of the slave, with the direction of its
/// first part, and where nobody acknowledges it the transaction fails as such, with the bus
/// released and before anything was received.
pub proof fn law_absent_slave_is_noticed(address: u8, operations: Seq<Operation>, sr: u8)
    requires
        operations.len() > 0,
        sr & 0x01 != 0,
    ensures
        ({
            let steps = plan(address, operations);
            &&& steps.len() > 6
            &&& steps[0] == I2cStep::AwaitFree
            &&& steps[1] == I2cStep::Apply(Op::Write { reg: Register::I2cCr, value: 0xB0 })
            &&& steps[2] == I2cStep::Apply(Op::ClearBits { reg: Register::I2cSr, bits: 0x12 })
            &&& steps[3] matches I2cStep::Apply(Op::Write { reg: Register::I2cDr, value }) && value
                / 2 == address % 128 && (value % 2 == 1 <==> operations[0] is Read)
            &&& steps[4] == I2cStep::AwaitByte
            &&& steps[5] == I2cStep::CheckAck(NoAcknowledgeSource::Address)
            &&& reaction(steps[5], sr).1 == Verdict::Failed(
                Error::NoAcknowledge(NoAcknowledgeSource::Address),
            )
            &&& reaction(steps[5], sr).0 == seq![
                Op::ClearBits { reg: Register::I2cCr, bits: 0x20 },
            ]
            &&& taken(steps.take(5)) == 0
        }),
{
    let read = operations[0].spec_is_read();
    let steps = plan(address, operations);
    law_address_byte_is_positional(address, read);
    lemma_parts_begin(address, operations, operations.len() as int);
    assert(forall|i: int| 0 <= i < 6 ==> #[trigger] steps[i] == start_plan(address, read)[i]);
    lemma_filters_opening(address, read);
    assert(steps.take(5) =~= start_plan(address, read).drop_last());
}

proof fn lemma_parts_begin(address: u8, operations: Seq<Operation>, n: int)
    requires
        1 <= n <= operations.len(),
    ensures
        parts_plan(address, operations, n).len() >= 6,
        parts_plan(address, operations, n).take(6) == start_plan(
            address,
            operations[0].spec_is_read(),
        ),
    decreases n,
{
    let start = start_plan(address, operations[0].spec_is_read());
    if n == 1 {
        assert(parts_plan(address, operations, 0) =~= Seq::<I2cStep>::empty());
        assert(parts_plan(address, operations, 1) =~= part_plan(address, operations, 0));
        assert(parts_plan(address, operations, 1).take(6) =~= start);
    } else {
        lemma_parts_begin(address, operations, n - 1);
        assert(parts_plan(address, operations, n).take(6) =~= parts_plan(
            address,
            operations,
            n - 1,
        ).take(6));
    }
}

/// No byte is taken from the bus that was not waited for: between the wait and the taking there is
/// nothing, or only the order not to acknowledge what follows.
pub proof fn law_every_byte_taken_was_awaited(address: u8, operations: Seq<Operation>, k: int)
    requires
        0 <= k < plan(address, operations).len(),
        plan(address, operations)[k] == I2cStep::TakeByte,
    ensures
        ({
            let steps = plan(address, operations);
            ||| k >= 1 && steps[k - 1] == I2cStep::AwaitByte
            ||| k >= 2 && steps[k - 2] == I2cStep::AwaitByte && steps[k - 1] == I2cStep::Apply(
                Op::SetBits { reg: Register::I2cCr, bits: 0x08 },
            )
        }),
{
    lemma_orderly_plan(address, operations);
    assert(is_awaited(plan(address, operations), k));
}

/// Once the slave was addressed, the master turns to receiving, and drops what the turn itself
/// shifted in, exactly if the address byte said that the slave is to be read; and it turns at no
/// other time. The slave is addressed only behind a start or a repeated one.
pub proof fn law_master_receives_where_it_reads(address: u8, operations: Seq<Operation>, k: int)
    requires
        0 <= k < plan(address, operations).len(),
    ensures
        ({
            let steps = plan(address, operations);
            let turns = I2cStep::Apply(Op::ClearBits { reg: Register::I2cCr, bits: 0x10 });
            let drops = I2cStep::Apply(Op::Discard { reg: Register::I2cDr });
            &&& steps[k] == I2cStep::CheckAck(NoAcknowledgeSource::Address) ==> {
                &&& k >= 4
                &&& steps[k - 2] matches I2cStep::Apply(Op::Write { reg: Register::I2cDr, value })
                    && (if value % 2 == 1 {
                    k + 2 < steps.len() && steps[k + 1] == turns && steps[k + 2] == drops
                } else {
                    k + 1 < steps.len() && steps[k + 1] != turns
                })
            }
            &&& steps[k] == turns ==> k >= 1 && steps[k - 1] == I2cStep::CheckAck(
                NoAcknowledgeSource::Address,
            )
            &&& steps[k] == drops ==> k >= 1 && steps[k - 1] == turns
            &&& steps[k] == I2cStep::Apply(Op::ClearBits { reg: Register::I2cSr, bits: 0x12 })
                ==> k >= 1 && (steps[k - 1] == I2cStep::Apply(
                Op::SetBits { reg: Register::I2cCr, bits: 0x14 },
            ) || steps[k - 1] == I2cStep::Apply(
                Op::Write { reg: Register::I2cCr, value: 0xB0 },
            ))
        }),
{
    let steps = plan(address, operations);
    lemma_orderly_plan(address, operations);
    assert(is_turned(steps, k));
    if steps[k] == I2cStep::CheckAck(NoAcknowledgeSource::Address) {
        assert(is_acknowledged(steps, k - 2));
        assert(steps[k - 2 + 2] == steps[k]);
        assert(is_turned(steps, k - 3));
        lemma_sent_values(address, operations, k - 2);
        assert(steps.last() == stop());
        assert(k + 1 < steps.len());
    }
}

spec fn sends_bytes(steps: Seq<I2cStep>) -> bool {
    forall|k: int|
        0 <= k < steps.len() ==> (#[trigger] steps[k] matches I2cStep::Apply(
            Op::Write { reg: Register::I2cDr, value },
        ) ==> value < 256)
}

proof fn lemma_transmit_sends_bytes(data: Seq<u8>)
    ensures
        sends_bytes(transmit_plan(data)),
    decreases data.len(),
{
    if data.len() > 0 {
        lemma_transmit_sends_bytes(data.drop_last());
    }
}

proof fn lemma_take_sends_bytes(count: int)
    ensures
        sends_bytes(take_plan(count)),
    decreases count,
{
    if count > 0 {
        lemma_take_sends_bytes(count - 1);
    }
}

proof fn lemma_parts_send_bytes(address: u8, operations: Seq<Operation>, n: int)
    requires
        0 <= n <= operations.len(),
    ensures
        sends_bytes(parts_plan(address, operations, n)),
    decreases n,
{
    if n > 0 {
        let i = n - 1;
        lemma_parts_send_bytes(address, operations, i);
        match operations[i] {
            Operation::Read(count) => {
                lemma_take_sends_bytes(count as int);
                lemma_take_sends_bytes(count - 1);
            },
            Operation::Write(data) => {
                lemma_transmit_sends_bytes(data@);
            },
        }
        assert(sends_bytes(part_plan(address, operations, i)));
    }
}

proof fn lemma_sent_values(address: u8, operations: Seq<Operation>, k: int)
    requires
        0 <= k < plan(address, operations).len(),
    ensures
        plan(address, operations)[k] matches I2cStep::Apply(
            Op::Write { reg: Register::I2cDr, value },
        ) ==> value < 256,
{
    if operations.len() > 0 {
        lemma_parts_send_bytes(address, operations, operations.len() as int);
    }
}

spec fn acknowledges(steps: Seq<I2cStep>) -> bool {
    forall|k: int| 0 <= k < steps.len() ==> #[trigger] steps[k] != nack()
}

proof fn lemma_transmit_layout(data: Seq<u8>)
    ensures
        transmit_plan(data).len() == 3 * data.len(),
        forall|j: int|
            #![trigger data[j]]
            0 <= j < data.len() ==> {
                &&& transmit_plan(data)[3 * j] == send(data[j])
                &&& transmit_plan(data)[3 * j + 1] == I2cStep::AwaitByte
                &&& transmit_plan(data)[3 * j + 2] == I2cStep::CheckAck(NoAcknowledgeSource::Data)
            },
        acknowledges(transmit_plan(data)),
    decreases data.len(),
{
    if data.len() > 0 {
        let shorter = data.drop_last();
        lemma_transmit_layout(shorter);
        assert forall|j: int| #![trigger data[j]] 0 <= j < data.len() implies {
            &&& transmit_plan(data)[3 * j] == send(data[j])
            &&& transmit_plan(data)[3 * j + 1] == I2cStep::AwaitByte
            &&& transmit_plan(data)[3 * j + 2] == I2cStep::CheckAck(NoAcknowledgeSource::Data)
        } by {
            if j < shorter.len() {
                assert(shorter[j] == data[j]);
            }
        }
    }
}

proof fn lemma_take_layout(count: int)
    requires
        0 <= count,
    ensures
        take_plan(count).len() == 2 * count,
        forall|j: int|
            0 <= j < 2 * count ==> #[trigger] take_plan(count)[j] == (if j % 2 == 0 {
                I2cStep::AwaitByte
            } else {
                I2cStep::TakeByte
            }),
        acknowledges(take_plan(count)),
    decreases count,
{
    if count > 0 {
        lemma_take_layout(count - 1);
    }
}

/// The steps of a part, one by one, behind those of the parts before it: the first part takes the
/// bus and addresses the slave, a part that changes direction addresses it again, and any other
/// goes on; a part that reads turns to receiving once it has addressed the slave; then each byte
/// to be written goes out, is waited for and has its acknowledgement checked, and each byte to be
/// read is waited for and taken. Only the last byte of all is read with the order not to
/// acknowledge what follows, which is waited out.
pub proof fn law_part_is_laid_out(address: u8, operations: Seq<Operation>, i: int)
    requires
        0 <= i < operations.len(),
    ensures
        parts_plan(address, operations, 0).len() == 0,
        ({
            let before = parts_plan(address, operations, i);
            let after = parts_plan(address, operations, i + 1);
            let read = operations[i] is Read;
            let again = i > 0 && (operations[i - 1] is Read) != read;
            let value = (2 * (address % 128) + (if read {
                1int
            } else {
                0int
            })) as u32;
            let opening = if i == 0 {
                seq![
                    I2cStep::AwaitFree,
                    I2cStep::Apply(Op::Write { reg: Register::I2cCr, value: 0xB0 }),
                    I2cStep::Apply(Op::ClearBits { reg: Register::I2cSr, bits: 0x12 }),
                    I2cStep::Apply(Op::Write { reg: Register::I2cDr, value }),
                    I2cStep::AwaitByte,
                    I2cStep::CheckAck(NoAcknowledgeSource::Address),
                ]
            } else if again {
                seq![
                    I2cStep::Apply(Op::SetBits { reg: Register::I2cCr, bits: 0x14 }),
                    I2cStep::Apply(Op::ClearBits { reg: Register::I2cSr, bits: 0x12 }),
                    I2cStep::Apply(Op::Write { reg: Register::I2cDr, value }),
                    I2cStep::AwaitByte,
                    I2cStep::CheckAck(NoAcknowledgeSource::Address),
                ]
            } else {
                Seq::empty()
            };
            let turn = if read && (i == 0 || again) {
                seq![
                    I2cStep::Apply(Op::ClearBits { reg: Register::I2cCr, bits: 0x10 }),
                    I2cStep::Apply(Op::Discard { reg: Register::I2cDr }),
                ]
            } else {
                Seq::empty()
            };
            let head = before + opening + turn;
            let n = head.len() as int;
            &&& after.len() >= n
            &&& after.take(n) == head
            &&& match operations[i] {
                Operation::Write(data) => {
                    &&& after.len() == n + 3 * data@.len()
                    &&& forall|j: int|
                        #![trigger data@[j]]
                        0 <= j < data@.len() ==> {
                            &&& after[n + 3 * j] == I2cStep::Apply(
                                Op::Write { reg: Register::I2cDr, value: data@[j] as u32 },
                            )
                            &&& after[n + 3 * j + 1] == I2cStep::AwaitByte
                            &&& after[n + 3 * j + 2] == I2cStep::CheckAck(NoAcknowledgeSource::Data)
                        }
                },
                Operation::Read(count) => {
                    let plain = if i + 1 == operations.len() && count > 0 {
                        count - 1
                    } else {
                        count as int
                    };
                    &&& forall|j: int|
                        n <= j < n + 2 * plain ==> #[trigger] after[j] == (if (j - n) % 2 == 0 {
                            I2cStep::AwaitByte
                        } else {
                            I2cStep::TakeByte
                        })
                    &&& if plain < count {
                        after.skip(n + 2 * plain) == seq![
                            I2cStep::AwaitByte,
                            I2cStep::Apply(Op::SetBits { reg: Register::I2cCr, bits: 0x08 }),
                            I2cStep::TakeByte,
                            I2cStep::AwaitByte,
                        ]
                    } else {
                        after.len() == n + 2 * plain
                    }
                },
            }
        }),
{
    let before = parts_plan(address, operations, i);
    let after = parts_plan(address, operations, i + 1);
    let part = part_plan(address, operations, i);
    let read = operations[i].spec_is_read();
    law_address_byte_is_positional(address, read);
    let value = address_byte(address, read);
    assert(value == 2 * (address % 128) + (if read {
        1int
    } else {
        0int
    }));
    let opening = if i == 0 {
        start_plan(address, read)
    } else if addresses(operations, i) {
        restart_plan(address, read)
    } else {
        Seq::empty()
    };
    let turn = if read && addresses(operations, i) {
        seq![to_receiving(), drop_byte()]
    } else {
        Seq::empty()
    };
    let head = before + opening + turn;
    let n = head.len() as int;
    match operations[i] {
        Operation::Write(data) => {
            lemma_transmit_layout(data@);
            assert(after =~= head + transmit_plan(data@));
            assert forall|j: int| #![trigger data@[j]] 0 <= j < data@.len() implies {
                &&& after[n + 3 * j] == send(data@[j])
                &&& after[n + 3 * j + 1] == I2cStep::AwaitByte
                &&& after[n + 3 * j + 2] == I2cStep::CheckAck(NoAcknowledgeSource::Data)
            } by {
                assert(after[n + 3 * j] == transmit_plan(data@)[3 * j]);
                assert(after[n + 3 * j + 1] == transmit_plan(data@)[3 * j + 1]);
                assert(after[n + 3 * j + 2] == transmit_plan(data@)[3 * j + 2]);
            }
        },
        Operation::Read(count) => {
            let tail = i + 1 == operations.len();
            let plain = if tail && count > 0 {
                count - 1
            } else {
                count as int
            };
            lemma_take_layout(plain);
            assert(after =~= head + continue_plan(count as int, tail));
            assert forall|j: int| n <= j < n + 2 * plain implies #[trigger] after[j] == (if (j - n)
                % 2 == 0 {
                I2cStep::AwaitByte
            } else {
                I2cStep::TakeByte
            }) by {
                assert(after[j] == take_plan(plain)[j - n]);
            }
            if plain < count {
                assert(after.skip(n + 2 * plain) =~= seq![
                    I2cStep::AwaitByte,
                    nack(),
                    I2cStep::TakeByte,
                    I2cStep::AwaitByte,
                ]);
            }
        },
    }
    assert(after.take(n) =~= head);
}

/// A transaction is its parts in order, and then the bus is released; without parts it is nothing
/// at all.
pub proof fn law_transaction_is_its_parts(address: u8, operations: Seq<Operation>)
    ensures
        operations.len() == 0 ==> plan(address, operations).len() == 0,
        operations.len() > 0 ==> plan(address, operations) == parts_plan(
            address,
            operations,
            operations.len() as int,
        ).push(I2cStep::Apply(Op::ClearBits { reg: Register::I2cCr, bits: 0x20 })),
{
}

/// A transaction that ends in a read of at least one byte tells the slave before the last byte that
/// it wants no more, and no transaction tells it at any other time.
pub proof fn law_only_the_last_byte_is_not_acknowledged(
    address: u8,
    operations: Seq<Operation>,
    k: int,
)
    requires
        operations.len() > 0,
        0 <= k < plan(address, operations).len(),
    ensures
        plan(address, operations)[k] == I2cStep::Apply(
            Op::SetBits { reg: Register::I2cCr, bits: 0x08 },
        ) <==> k == plan(address, operations).len() - 4 && (operations.last() matches
            Operation::Read(count) && count > 0),
{
    let n = operations.len() as int;
    let before = parts_plan(address, operations, n - 1);
    let part = part_plan(address, operations, n - 1);
    lemma_parts_acknowledge(address, operations, n - 1);
    let steps = plan(address, operations);
    assert(steps =~= before + part + seq![stop()]);
    match operations.last() {
        Operation::Read(count) => {
            lemma_take_layout(count as int);
            if count > 0 {
                lemma_take_layout(count - 1);
            }
        },
        Operation::Write(data) => {
            lemma_transmit_layout(data@);
        },
    }
    if k < before.len() {
        assert(steps[k] == before[k]);
    } else if k < before.len() + part.len() {
        assert(steps[k] == part[k - before.len()]);
    }
    assert(part.len() >= (if operations.last() matches Operation::Read(count) && count > 0 {
        4int
    } else {
        0int
    }));
}

proof fn lemma_parts_acknowledge(address: u8, operations: Seq<Operation>, n: int)
    requires
        0 <= n < operations.len(),
    ensures
        acknowledges(parts_plan(address, operations, n)),
    decreases n,
{
    if n > 0 {
        let i = n - 1;
        lemma_parts_acknowledge(address, operations, i);
        match operations[i] {
            Operation::Read(count) => {
                lemma_take_layout(count as int);
            },
            Operation::Write(data) => {
                lemma_transmit_layout(data@);
            },
        }
        assert(acknowledges(part_plan(address, operations, i)));
    }
}

/// What a status means, bit by bit. A wait for the bus ends once nobody is busy on it. A byte is
/// lost with the arbitration, whatever else the status says, and otherwise complete once both the
/// interrupt flag and the transfer flag are set; the flag that was seen is cleared, and no other.
/// A byte was acknowledged exactly if the acknowledge bit is clear. Nothing else depends on the
/// status.
pub proof fn law_status_decides(step: I2cStep, sr: u8)
    ensures
        ({
            let (ops, verdict) = reaction(step, sr);
            let lost = sr & 0x10 != 0;
            let complete = sr & 0x02 != 0 && sr & 0x80 != 0;
            &&& step == I2cStep::AwaitFree ==> ops.len() == 0 && verdict == (if sr & 0x20 != 0 {
                Verdict::BusBusy
            } else {
                Verdict::Proceed
            })
            &&& step == I2cStep::AwaitByte && lost ==> verdict == Verdict::Failed(
                Error::ArbitrationLost,
            ) && ops == seq![
                Op::Write { reg: Register::I2cSr, value: (sr - 0x10) as u32 },
                Op::ClearBits { reg: Register::I2cCr, bits: 0x20 },
            ]
            &&& step == I2cStep::AwaitByte && !lost && complete ==> verdict == Verdict::Proceed
                && ops == seq![Op::Write { reg: Register::I2cSr, value: (sr - 0x02) as u32 }]
            &&& step == I2cStep::AwaitByte && !lost && !complete ==> verdict
                == Verdict::ByteUnderWay && ops.len() == 0
            &&& step matches I2cStep::CheckAck(source) ==> if sr & 0x01 != 0 {
                &&& verdict == Verdict::Failed(Error::NoAcknowledge(source))
                &&& ops == seq![Op::ClearBits { reg: Register::I2cCr, bits: 0x20 }]
            } else {
                verdict == Verdict::Proceed && ops.len() == 0
            }
            &&& step is Apply || step is TakeByte ==> verdict == Verdict::Proceed && ops.len() == 0
        }),
        reaction(I2cStep::AwaitByte, sr) == byte_reaction(sr),
{
    assert(sr & 0x10 != 0 ==> sr & !0x10u8 == sr - 0x10) by (bit_vector);
    assert(sr & 0x02 != 0 ==> sr & !0x02u8 == sr - 0x02) by (bit_vector);
}

/// A step asks for what it is: an operation to be performed, a look at the data register, or a
/// look at the status.
pub proof fn law_steps_ask_for_what_they_are(step: I2cStep)
    ensures
        step matches I2cStep::Apply(op) ==> need_of(step) == Need::Apply(op),
        step is TakeByte ==> need_of(step) == Need::Data,
        step is AwaitFree || step is AwaitByte || step is CheckAck ==> need_of(step)
            == Need::Status,
{
}

/// The bytes that go out and those that are taken are counted step by step: a step puts a byte on
/// the bus exactly if it writes the data register, and takes one exactly if it is there to take
/// it.
pub proof fn law_bytes_are_counted(first: Seq<I2cStep>, second: Seq<I2cStep>, step: I2cStep)
    ensures
        sent(first + second) == sent(first) + sent(second),
        taken(first + second) == taken(first) + taken(second),
        sent(seq![step]) == (match step {
            I2cStep::Apply(Op::Write { reg: Register::I2cDr, value }) => seq![value as u8],
            _ => Seq::<u8>::empty(),
        }),
        taken(seq![step]) == (if step == I2cStep::TakeByte {
            1int
        } else {
            0int
        }),
{
    lemma_filters_concat(first, second);
    lemma_filters_one(step);
}

/// The bytes of the parts add up: each part takes as many as it reads, and puts on the bus the
/// address byte, if it is the first or changes direction, and the data that it writes. The steps
/// of the first so many parts do just that.
pub proof fn law_parts_add_up(address: u8, operations: Seq<Operation>, n: int)
    requires
        0 <= n < operations.len(),
    ensures
        bytes_to_read(operations, 0) == 0,
        bytes_to_read(operations, n + 1) == bytes_to_read(operations, n) + (match operations[n] {
            Operation::Read(count) => count as int,
            Operation::Write(_) => 0int,
        }),
        bytes_to_send(address, operations, 0).len() == 0,
        ({
            let read = operations[n] is Read;
            let addressed = n == 0 || (operations[n - 1] is Read) != read;
            let byte = (2 * (address % 128) + (if read {
                1int
            } else {
                0int
            })) as u8;
            bytes_to_send(address, operations, n + 1) == bytes_to_send(address, operations, n) + (
            if addressed {
                seq![byte]
            } else {
                Seq::empty()
            }) + (match operations[n] {
                Operation::Read(_) => Seq::empty(),
                Operation::Write(data) => data@,
            })
        }),
        sent(parts_plan(address, operations, n + 1)) == bytes_to_send(address, operations, n + 1),
        taken(parts_plan(address, operations, n + 1)) == bytes_to_read(operations, n + 1),
{
    lemma_filters_parts(address, operations, n + 1);
    law_address_byte_is_positional(address, operations[n].spec_is_read());
}

/// Every buffer gets the bytes that were received for it, in order: those that follow the bytes of
/// the buffers before it, as many as it is long, or as many as are left.
pub proof fn law_every_buffer_gets_its_bytes(received: Seq<u8>, lengths: Seq<usize>, k: int)
    requires
        0 <= k < lengths.len(),
    ensures
        bytes_before(lengths, 0) == 0,
        bytes_before(lengths, k + 1) == bytes_before(lengths, k) + lengths[k],
        ({
            let at = bytes_before(lengths, k);
            let part = share(received, lengths, k);
            &&& at + lengths[k] <= received.len() ==> part.len() == lengths[k]
            &&& at <= received.len() < at + lengths[k] ==> part.len() == received.len() - at
            &&& at > received.len() ==> part.len() == 0
            &&& forall|j: int| 0 <= j < part.len() ==> #[trigger] part[j] == received[at + j]
        }),
{
    lemma_bytes_before(lengths, k);
}

} // verus!
