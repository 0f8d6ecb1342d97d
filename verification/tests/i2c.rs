use mc1322x::i2c::{
    arm_interrupt, hand_out, i2c_isr, poll_byte_status, Error, I2c0, Need, NoAcknowledgeSource,
    Operation, Transaction, Verdict, I2C_MAL, I2C_MBB, I2C_MCF, I2C_MIF, I2C_RXAK,
};
use mc1322x::port::{Call, Op, Register};

const STOP: Op = Op::ClearBits { reg: Register::I2cCr, bits: 0x20 };
const RESTART: Op = Op::SetBits { reg: Register::I2cCr, bits: 0x14 };
const NACK: Op = Op::SetBits { reg: Register::I2cCr, bits: 0x08 };

struct Bus {
    sent: Vec<u8>,
    ops: Vec<Op>,
    next_read: u8,
    nack_at: Option<usize>,
    lose_at: Option<usize>,
    busy_polls: usize,
}

impl Bus {
    fn new() -> Bus {
        Bus {
            sent: Vec::new(),
            ops: Vec::new(),
            next_read: 0x10,
            nack_at: None,
            lose_at: None,
            busy_polls: 0,
        }
    }

    fn status(&mut self) -> u8 {
        if self.busy_polls > 0 {
            self.busy_polls -= 1;
            return I2C_MBB;
        }
        let mut sr = I2C_MIF | I2C_MCF;
        if self.nack_at == Some(self.sent.len()) {
            sr |= I2C_RXAK;
        }
        if self.lose_at == Some(self.sent.len()) {
            sr |= I2C_MAL;
        }
        sr
    }

    fn perform(&mut self, op: Op) {
        if let Op::Write { reg: Register::I2cDr, value } = op {
            self.sent.push(value as u8);
        }
        self.ops.push(op);
    }

    fn run(&mut self, mut t: Transaction) -> Result<Vec<u8>, Error> {
        loop {
            match t.need() {
                Need::Apply(op) => {
                    self.perform(op);
                    t.applied();
                }
                Need::Data => {
                    let byte = self.next_read;
                    self.next_read += 1;
                    t.data(byte);
                }
                Need::Status => {
                    let sr = self.status();
                    let (ops, verdict) = t.status(sr);
                    for op in ops {
                        self.perform(op);
                    }
                    if let Verdict::Failed(error) = verdict {
                        return Err(error);
                    }
                }
                Need::Nothing => return Ok(t.into_received()),
            }
        }
    }
}

#[test]
fn a_transaction_without_parts_does_nothing() {
    let (i2c, _) = I2c0::new(I2c0::BOARD_CLOCK_DIVIDER);
    let mut bus = Bus::new();
    assert_eq!(bus.run(i2c.transaction(0x50, &Vec::new())), Ok(Vec::new()));
    assert!(bus.ops.is_empty());
}

#[test]
fn a_write_sends_the_address_and_the_data() {
    let (i2c, _) = I2c0::new(I2c0::BOARD_CLOCK_DIVIDER);
    let mut bus = Bus::new();
    let ops = vec![Operation::Write(vec![1, 2, 3])];
    assert_eq!(bus.run(i2c.transaction(0x50, &ops)), Ok(Vec::new()));
    assert_eq!(bus.sent, vec![0xA0, 1, 2, 3]);
    assert_eq!(bus.ops[0], Op::Write { reg: Register::I2cCr, value: 0xB0 });
    assert_eq!(bus.ops[1], Op::ClearBits { reg: Register::I2cSr, bits: 0x12 });
    assert_eq!(*bus.ops.last().unwrap(), STOP);
    assert_eq!(bus.ops.iter().filter(|op| **op == STOP).count(), 1);
}

#[test]
fn a_register_read_restarts_and_does_not_acknowledge_the_last_byte() {
    let (i2c, _) = I2c0::new(I2c0::BOARD_CLOCK_DIVIDER);
    let mut bus = Bus::new();
    let ops = vec![Operation::Write(vec![0x0F]), Operation::Read(3)];
    assert_eq!(bus.run(i2c.transaction(0x1D, &ops)), Ok(vec![0x10, 0x11, 0x12]));
    assert_eq!(bus.sent, vec![0x3A, 0x0F, 0x3B]);
    assert_eq!(bus.ops.iter().filter(|op| **op == RESTART).count(), 1);
    assert_eq!(bus.ops.iter().filter(|op| **op == NACK).count(), 1);
    assert_eq!(
        bus.ops.iter().filter(|op| **op == Op::Discard { reg: Register::I2cDr }).count(),
        1
    );
}

#[test]
fn parts_in_one_direction_are_not_addressed_again() {
    let (i2c, _) = I2c0::new(I2c0::BOARD_CLOCK_DIVIDER);
    let mut bus = Bus::new();
    let ops = vec![
        Operation::Write(vec![1]),
        Operation::Write(vec![2]),
        Operation::Read(1),
        Operation::Read(2),
        Operation::Write(vec![3]),
    ];
    assert_eq!(bus.run(i2c.transaction(0x20, &ops)), Ok(vec![0x10, 0x11, 0x12]));
    assert_eq!(bus.sent, vec![0x40, 1, 2, 0x41, 0x40, 3]);
    assert_eq!(bus.ops.iter().filter(|op| **op == RESTART).count(), 2);
    // The last part writes, so every byte that was read is acknowledged.
    assert_eq!(bus.ops.iter().filter(|op| **op == NACK).count(), 0);
}

#[test]
fn an_empty_final_read_takes_no_byte() {
    let (i2c, _) = I2c0::new(I2c0::BOARD_CLOCK_DIVIDER);
    let mut bus = Bus::new();
    assert_eq!(bus.run(i2c.transaction(0x20, &vec![Operation::Read(0)])), Ok(Vec::new()));
    assert_eq!(bus.sent, vec![0x41]);
    assert_eq!(bus.ops.iter().filter(|op| **op == NACK).count(), 0);
}

#[test]
fn a_missing_slave_is_an_address_error() {
    let (i2c, _) = I2c0::new(I2c0::BOARD_CLOCK_DIVIDER);
    let mut bus = Bus::new();
    bus.nack_at = Some(1);
    let ops = vec![Operation::Write(vec![1])];
    assert_eq!(
        bus.run(i2c.transaction(0x50, &ops)),
        Err(Error::NoAcknowledge(NoAcknowledgeSource::Address))
    );
    assert_eq!(*bus.ops.last().unwrap(), STOP);
    assert_eq!(bus.sent, vec![0xA0]);
}

#[test]
fn a_refused_byte_is_a_data_error() {
    let (i2c, _) = I2c0::new(I2c0::BOARD_CLOCK_DIVIDER);
    let mut bus = Bus::new();
    bus.nack_at = Some(3);
    let ops = vec![Operation::Write(vec![1, 2, 3])];
    assert_eq!(
        bus.run(i2c.transaction(0x50, &ops)),
        Err(Error::NoAcknowledge(NoAcknowledgeSource::Data))
    );
    assert_eq!(bus.sent, vec![0xA0, 1, 2]);
    assert_eq!(*bus.ops.last().unwrap(), STOP);
}

#[test]
fn lost_arbitration_is_cleared_and_reported() {
    let (i2c, _) = I2c0::new(I2c0::BOARD_CLOCK_DIVIDER);
    let mut bus = Bus::new();
    bus.lose_at = Some(2);
    let ops = vec![Operation::Write(vec![1, 2, 3])];
    assert_eq!(bus.run(i2c.transaction(0x50, &ops)), Err(Error::ArbitrationLost));
    let n = bus.ops.len();
    assert_eq!(
        bus.ops[n - 2],
        Op::Write { reg: Register::I2cSr, value: (I2C_MIF | I2C_MCF) as u32 }
    );
    assert_eq!(bus.ops[n - 1], STOP);
}

#[test]
fn a_busy_bus_is_waited_for() {
    let (i2c, _) = I2c0::new(I2c0::BOARD_CLOCK_DIVIDER);
    let mut t = i2c.transaction(0x50, &vec![Operation::Read(1)]);
    assert_eq!(t.need(), Need::Status);
    let (ops, verdict) = t.status(I2C_MBB);
    assert!(ops.is_empty());
    assert_eq!(verdict, Verdict::BusBusy);
    assert_eq!(t.need(), Need::Status);
    let mut bus = Bus::new();
    bus.busy_polls = 5;
    assert_eq!(bus.run(t), Ok(vec![0x10]));
}

#[test]
fn a_byte_is_complete_with_both_flags() {
    assert_eq!(poll_byte_status(I2C_MIF).1, Verdict::ByteUnderWay);
    assert_eq!(poll_byte_status(I2C_MCF).1, Verdict::ByteUnderWay);
    let (ops, verdict) = poll_byte_status(I2C_MIF | I2C_MCF | I2C_RXAK);
    assert_eq!(verdict, Verdict::Proceed);
    assert_eq!(
        ops,
        vec![Op::Write { reg: Register::I2cSr, value: (I2C_MCF | I2C_RXAK) as u32 }]
    );
}

#[test]
fn the_module_is_set_up() {
    let (_, program) = I2c0::new(I2c0::BOARD_CLOCK_DIVIDER);
    assert_eq!(program.len(), 11);
    assert_eq!(program[1], Op::Write { reg: Register::I2cFdr, value: 0x20 });
    let (_, slower) = I2c0::new(0x3B);
    assert_eq!(slower[1], Op::Write { reg: Register::I2cFdr, value: 0x3B });
    assert_eq!(program[4], Op::Call(Call::GpioSelectFunction { pin: 12, function: 1 }));
    assert_eq!(program[10], Op::Write { reg: Register::IntEnnum, value: 4 });
    assert_eq!(arm_interrupt(), Op::SetBits { reg: Register::I2cCr, bits: 0x40 });
    assert_eq!(i2c_isr(), Op::ClearBits { reg: Register::I2cCr, bits: 0x40 });
}

#[test]
fn the_top_address_bit_is_lost() {
    let (i2c, _) = I2c0::new(I2c0::BOARD_CLOCK_DIVIDER);
    let mut bus = Bus::new();
    let _ = bus.run(i2c.transaction(0xD0, &vec![Operation::Write(Vec::new())]));
    assert_eq!(bus.sent, vec![0xA0]);
}

#[test]
fn received_bytes_are_handed_out_in_order() {
    let received = [1u8, 2, 3, 4, 5];
    assert_eq!(hand_out(&received, &vec![2, 0, 3]), vec![vec![1, 2], vec![], vec![3, 4, 5]]);
    // A transaction that failed on the way leaves later buffers with less.
    assert_eq!(hand_out(&received, &vec![3, 4, 2]), vec![vec![1, 2, 3], vec![4, 5], vec![]]);
    assert_eq!(hand_out(&received, &vec![usize::MAX, usize::MAX])[0], received.to_vec());
    assert_eq!(hand_out(&received, &vec![1]), vec![vec![1]]);
}
