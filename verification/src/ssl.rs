//! Second stage loader: writes a firmware image to the serial flash over UART1.
//!
//! A command travels as a frame: a start byte, a two-byte little-endian length, that many
//! command bytes, and the sum of the command bytes modulo 256. [`FrameReader`] finds the frames
//! in the bytes that arrive, [`handle`] decides what a command asks for, and the functions
//! below it word the reply once the flash routine has run.
use crate::nvm::{
    erase_refusal, has_sector, Error, NorFlashErrorKind, Nvm, NvmCall, NVM_ERR_NO_ERROR,
};
use vstd::prelude::*;

verus! {

/// Baud rate of the loader's UART.
pub const BAUD: u32 = 115_200;
/// Start of frame.
pub const SOF: u8 = 0x55;
/// Largest single write that is accepted.
pub const MAX_CHUNK: usize = 1024;
/// Largest command that is accepted.
pub const MAX_FRAME: usize = 1032;

/// Command: read flash.
pub const READ_REQUEST: u8 = 0x01;
/// Reply to a read.
pub const READ_RESPONSE: u8 = 0x02;
/// Command: write flash.
pub const WRITE_REQUEST: u8 = 0x03;
/// Command: write the image header.
pub const COMMIT_REQUEST: u8 = 0x04;
/// Command: erase flash.
pub const ERASE_REQUEST: u8 = 0x05;
/// Reply to everything but a read.
pub const CONFIRM: u8 = 0xF0;

/// Status: done.
pub const SUCCESS: u8 = 0x02;
/// Status: writing failed.
pub const WRITE_ERROR: u8 = 0x03;
/// Status: reading failed.
pub const READ_ERROR: u8 = 0x04;
/// Status: the checksum of a frame was wrong.
pub const CRC_ERROR: u8 = 0x05;
/// Status: the command could not be executed.
pub const EXEC_ERROR: u8 = 0x07;

/// Commit: the image is to be secured.
pub const ENG_SECURED: u8 = 0xC3;
/// Commit: the image is not to be secured.
pub const ENG_UNSECURED: u8 = 0x3C;

/// Sum of bytes modulo 256.
pub open spec fn checksum(bytes: Seq<u8>) -> int
    decreases bytes.len(),
{
    if bytes.len() == 0 {
        0
    } else {
        (checksum(bytes.drop_last()) + bytes.last()) % 256
    }
}

/// A command as it travels.
pub open spec fn frame_bytes(command: Seq<u8>) -> Seq<u8> {
    seq![SOF, (command.len() % 256) as u8, (command.len() / 256) as u8] + command + seq![
        checksum(command) as u8,
    ]
}

proof fn lemma_checksum_range(bytes: Seq<u8>)
    ensures
        0 <= checksum(bytes) < 256,
    decreases bytes.len(),
{
}

fn sum_of(bytes: &[u8]) -> (sum: u8)
    ensures
        sum == checksum(bytes@),
{
    let mut sum: u8 = 0;
    let mut i: usize = 0;
    while i < bytes.len()
        invariant
            i <= bytes.len(),
            sum == checksum(bytes@.take(i as int)),
        decreases bytes.len() - i,
    {
        proof {
            assert(bytes@.take(i + 1).drop_last() =~= bytes@.take(i as int));
        }
        sum = sum.wrapping_add(bytes[i]);
        i = i + 1;
    }
    assert(bytes@.take(bytes@.len() as int) =~= bytes@);
    sum
}

/// Put a command into a frame.
pub fn send_frame(command: &[u8]) -> (frame: Vec<u8>)
    requires
        command@.len() <= 0xFFFF,
    ensures
        frame@ == frame_bytes(command@),
{
    let len: usize = command.len();
    let mut frame: Vec<u8> = Vec::new();
    frame.push(SOF);
    frame.push((len % 256) as u8);
    frame.push((len / 256) as u8);
    frame.extend_from_slice(command);
    frame.push(sum_of(command));
    proof {
        lemma_checksum_range(command@);
    }
    frame
}

/// A frame that confirms a command with a status.
pub open spec fn confirm(status: u8) -> Seq<u8> {
    frame_bytes(seq![CONFIRM, status])
}

/// Confirm a command with a status.
pub fn send_confirm(status: u8) -> (frame: Vec<u8>)
    ensures
        frame@ == confirm(status),
{
    let command: [u8; 2] = [CONFIRM, status];
    assert(command@ =~= seq![CONFIRM, status]);
    send_frame(&command)
}

/// A frame that answers a read.
pub open spec fn read_response(status: u8, data: Seq<u8>) -> Seq<u8> {
    frame_bytes(
        seq![READ_RESPONSE, status, (data.len() % 256) as u8, (data.len() / 256) as u8] + data,
    )
}

/// Answer a read.
pub fn send_read_response(status: u8, data: &[u8]) -> (frame: Vec<u8>)
    requires
        4 + data@.len() <= 0xFFFF,
    ensures
        frame@ == read_response(status, data@),
{
    let len: usize = data.len();
    let mut command: Vec<u8> = Vec::new();
    command.push(READ_RESPONSE);
    command.push(status);
    command.push((len % 256) as u8);
    command.push((len / 256) as u8);
    command.extend_from_slice(data);
    assert(command@ =~= seq![
        READ_RESPONSE,
        status,
        (data@.len() % 256) as u8,
        (data@.len() / 256) as u8,
    ] + data@);
    send_frame(command.as_slice())
}

/// Where a reader is in the stream of bytes.
pub enum Reading {
    /// Looking for a start byte.
    Idle,
    /// The low byte of the length comes next.
    LengthLow,
    /// The high byte of the length comes next, after this low byte.
    LengthHigh(u8),
    /// Command bytes are coming.
    Body { length: nat, got: Seq<u8> },
    /// The checksum of this command comes next.
    Sum(Seq<u8>),
}

/// What a byte led to.
pub enum Arrival {
    /// Nothing yet.
    More,
    /// A length that cannot be: what was begun is forgotten, and nobody is told.
    Dropped,
    /// A command whose checksum is wrong.
    BadChecksum,
    /// A command.
    Command(Seq<u8>),
}

/// How one byte moves a reader with room for so many command bytes, and what it leads to.
pub open spec fn read_step(room: nat, at: Reading, byte: u8) -> (Reading, Arrival) {
    match at {
        Reading::Idle => (
            if byte == SOF {
                Reading::LengthLow
            } else {
                Reading::Idle
            },
            Arrival::More,
        ),
        Reading::LengthLow => (Reading::LengthHigh(byte), Arrival::More),
        Reading::LengthHigh(low) => {
            let length = (low + 256 * byte) as nat;
            if length == 0 || length > room {
                (Reading::Idle, Arrival::Dropped)
            } else {
                (Reading::Body { length, got: Seq::empty() }, Arrival::More)
            }
        },
        Reading::Body { length, got } => (
            if got.len() + 1 == length {
                Reading::Sum(got.push(byte))
            } else {
                Reading::Body { length, got: got.push(byte) }
            },
            Arrival::More,
        ),
        Reading::Sum(command) => (
            Reading::Idle,
            if byte == checksum(command) {
                Arrival::Command(command)
            } else {
                Arrival::BadChecksum
            },
        ),
    }
}

/// How a stream of bytes moves a reader with room for so many command bytes, and what each byte
/// leads to.
pub open spec fn read_all(room: nat, at: Reading, bytes: Seq<u8>) -> (Reading, Seq<Arrival>)
    decreases bytes.len(),
{
    if bytes.len() == 0 {
        (at, Seq::empty())
    } else {
        let (before, arrivals) = read_all(room, at, bytes.drop_last());
        let (after, arrival) = read_step(room, before, bytes.last());
        (after, arrivals.push(arrival))
    }
}

#[derive(Debug, Copy, Clone, PartialEq, Eq, Structural)]
enum Phase {
    Idle,
    LengthLow,
    LengthHigh(u8),
    Body(usize),
    Sum,
}

/// Finds frames in the bytes that arrive.
pub struct FrameReader {
    phase: Phase,
    body: Vec<u8>,
    room: usize,
}

/// What a byte led to.
#[derive(Debug)]
pub enum FrameEvent {
    /// Nothing yet.
    More,
    /// A length that cannot be: what was begun is forgotten, and nobody is told.
    Dropped,
    /// A command whose checksum is wrong; the sender is told by a frame with [`CRC_ERROR`].
    BadChecksum,
    /// A command.
    Command(Vec<u8>),
}

impl View for FrameEvent {
    type V = Arrival;

    open spec fn view(&self) -> Arrival {
        match *self {
            FrameEvent::More => Arrival::More,
            FrameEvent::Dropped => Arrival::Dropped,
            FrameEvent::BadChecksum => Arrival::BadChecksum,
            FrameEvent::Command(command) => Arrival::Command(command@),
        }
    }
}

impl View for FrameReader {
    type V = Reading;

    closed spec fn view(&self) -> Reading {
        match self.phase {
            Phase::Idle => Reading::Idle,
            Phase::LengthLow => Reading::LengthLow,
            Phase::LengthHigh(low) => Reading::LengthHigh(low),
            Phase::Body(length) => Reading::Body { length: length as nat, got: self.body@ },
            Phase::Sum => Reading::Sum(self.body@),
        }
    }
}

impl FrameReader {
    /// Whether the reader collects no more than it has room for.
    pub closed spec fn well_formed(self) -> bool {
        match self.phase {
            Phase::Body(length) => self.body@.len() < length <= self.room,
            Phase::Sum => 1 <= self.body@.len() <= self.room,
            _ => true,
        }
    }

    /// How many command bytes the reader has room for.
    pub closed spec fn room(self) -> nat {
        self.room as nat
    }

    /// A reader that looks for a start byte, with room for the largest command.
    pub fn new() -> (reader: FrameReader)
        ensures
            reader.well_formed(),
            reader.room() == MAX_FRAME,
            reader.room() == 1032,
            reader@ == Reading::Idle,
    {
        FrameReader::with_room(MAX_FRAME)
    }

    /// A reader that looks for a start byte, with room for so many command bytes.
    pub fn with_room(room: usize) -> (reader: FrameReader)
        ensures
            reader.well_formed(),
            reader.room() == room,
            reader@ == Reading::Idle,
    {
        FrameReader { phase: Phase::Idle, body: Vec::new(), room }
    }

    /// Take the next byte off the wire.
    pub fn read_frame(&mut self, byte: u8) -> (event: FrameEvent)
        requires
            old(self).well_formed(),
        ensures
            final(self).well_formed(),
            final(self).room() == old(self).room(),
            (final(self)@, event@) == read_step(old(self).room(), old(self)@, byte),
            event matches FrameEvent::Command(command) ==> 1 <= command@.len() <= old(self).room(),
            match read_step(old(self).room(), old(self)@, byte).1 {
                Arrival::More => event is More,
                Arrival::Dropped => event is Dropped,
                Arrival::BadChecksum => event is BadChecksum,
                Arrival::Command(arrived) => event matches FrameEvent::Command(command) && command@
                    == arrived,
            },
    {
        match self.phase {
            Phase::Idle => {
                if byte == SOF {
                    self.phase = Phase::LengthLow;
                }
                FrameEvent::More
            },
            Phase::LengthLow => {
                self.phase = Phase::LengthHigh(byte);
                FrameEvent::More
            },
            Phase::LengthHigh(low) => {
                let length: usize = low as usize + 256 * (byte as usize);
                if length == 0 || length > self.room {
                    self.phase = Phase::Idle;
                    return FrameEvent::Dropped;
                }
                self.phase = Phase::Body(length);
                self.body = Vec::new();
                FrameEvent::More
            },
            Phase::Body(length) => {
                self.body.push(byte);
                if self.body.len() == length {
                    self.phase = Phase::Sum;
                }
                FrameEvent::More
            },
            Phase::Sum => {
                let mut command: Vec<u8> = Vec::new();
                std::mem::swap(&mut command, &mut self.body);
                self.phase = Phase::Idle;
                if byte == sum_of(command.as_slice()) {
                    FrameEvent::Command(command)
                } else {
                    FrameEvent::BadChecksum
                }
            },
        }
    }
}

proof fn lemma_read_concat(room: nat, at: Reading, first: Seq<u8>, second: Seq<u8>)
    ensures
        read_all(room, at, first + second).0 == read_all(
            room,
            read_all(room, at, first).0,
            second,
        ).0,
        read_all(room, at, first + second).1 == read_all(room, at, first).1 + read_all(
            room,
            read_all(room, at, first).0,
            second,
        ).1,
    decreases second.len(),
{
    if second.len() == 0 {
        assert(first + second =~= first);
        let arrivals = read_all(room, at, first).1;
        assert(arrivals + Seq::<Arrival>::empty() =~= arrivals);
    } else {
        assert((first + second).drop_last() =~= first + second.drop_last());
        lemma_read_concat(room, at, first, second.drop_last());
        assert(read_all(room, at, first + second).1 =~= read_all(room, at, first).1 + read_all(
            room,
            read_all(room, at, first).0,
            second,
        ).1);
    }
}

/// Bytes that lead to nothing yet.
pub open spec fn all_more(arrivals: Seq<Arrival>) -> bool {
    forall|i: int| 0 <= i < arrivals.len() ==> #[trigger] arrivals[i] == Arrival::More
}

proof fn lemma_read_header(room: nat, command: Seq<u8>)
    requires
        1 <= command.len() <= 0xFFFF,
        command.len() <= room,
    ensures
        ({
            let header = seq![SOF, (command.len() % 256) as u8, (command.len() / 256) as u8];
            let (after, arrivals) = read_all(room, Reading::Idle, header);
            &&& after == (Reading::Body { length: command.len(), got: Seq::empty() })
            &&& arrivals.len() == 3
            &&& all_more(arrivals)
        }),
{
    let low = (command.len() % 256) as u8;
    let high = (command.len() / 256) as u8;
    let header = seq![SOF, low, high];
    assert(header.drop_last() =~= seq![SOF, low]);
    assert(seq![SOF, low].drop_last() =~= seq![SOF]);
    assert(seq![SOF].drop_last() =~= Seq::<u8>::empty());
    reveal_with_fuel(read_all, 4);
}

proof fn lemma_read_body(room: nat, command: Seq<u8>, k: int)
    requires
        1 <= command.len(),
        0 <= k <= command.len(),
    ensures
        ({
            let start = Reading::Body { length: command.len(), got: Seq::empty() };
            let (after, arrivals) = read_all(room, start, command.take(k));
            &&& after == (if k == command.len() {
                Reading::Sum(command)
            } else {
                Reading::Body { length: command.len(), got: command.take(k) }
            })
            &&& arrivals.len() == k
            &&& all_more(arrivals)
        }),
    decreases k,
{
    if k == 0 {
        assert(command.take(0) =~= Seq::<u8>::empty());
    } else {
        lemma_read_body(room, command, k - 1);
        assert(command.take(k).drop_last() =~= command.take(k - 1));
        assert(command.take(k - 1).push(command[k - 1]) =~= command.take(k));
        assert(command.take(command.len() as int) =~= command);
    }
}

proof fn lemma_read_up_to_sum(room: nat, command: Seq<u8>, sum: u8)
    requires
        1 <= command.len() <= 0xFFFF,
        command.len() <= room,
    ensures
        ({
            let header = seq![SOF, (command.len() % 256) as u8, (command.len() / 256) as u8];
            let (after, arrivals) = read_all(room, Reading::Idle, header + command + seq![sum]);
            &&& after == Reading::Idle
            &&& arrivals.len() == command.len() + 4
            &&& all_more(arrivals.drop_last())
            &&& arrivals.last() == read_step(room, Reading::Sum(command), sum).1
        }),
{
    let header = seq![SOF, (command.len() % 256) as u8, (command.len() / 256) as u8];
    lemma_read_header(room, command);
    lemma_read_body(room, command, command.len() as int);
    assert(command.take(command.len() as int) =~= command);
    lemma_read_concat(room, Reading::Idle, header, command);
    let bytes = header + command + seq![sum];
    assert(bytes.drop_last() =~= header + command);
    let (before, arrivals) = read_all(room, Reading::Idle, header + command);
    assert(read_all(room, Reading::Idle, bytes).1.drop_last() =~= arrivals);
}

/// A reader that is given a frame of a command that it has room for gives back that command, at
/// the last byte and not before, and is ready for the next.
pub proof fn law_reader_undoes_framing(room: nat, command: Seq<u8>)
    requires
        1 <= command.len() <= 0xFFFF,
        command.len() <= room,
    ensures
        read_all(room, Reading::Idle, frame_bytes(command)).0 == Reading::Idle,
        read_all(room, Reading::Idle, frame_bytes(command)).1.len() == frame_bytes(command).len(),
        all_more(read_all(room, Reading::Idle, frame_bytes(command)).1.drop_last()),
        read_all(room, Reading::Idle, frame_bytes(command)).1.last() == Arrival::Command(command),
{
    lemma_checksum_range(command);
    lemma_read_up_to_sum(room, command, checksum(command) as u8);
}

/// A frame whose checksum byte was changed is reported as such, and never taken for a command.
pub proof fn law_reader_refuses_bad_checksum(room: nat, command: Seq<u8>, sum: u8)
    requires
        1 <= command.len() <= 0xFFFF,
        command.len() <= room,
        sum != checksum(command),
    ensures
        ({
            let frame = frame_bytes(command).drop_last().push(sum);
            let (after, arrivals) = read_all(room, Reading::Idle, frame);
            &&& after == Reading::Idle
            &&& all_more(arrivals.drop_last())
            &&& arrivals.last() == Arrival::BadChecksum
        }),
{
    let header = seq![SOF, (command.len() % 256) as u8, (command.len() / 256) as u8];
    assert(frame_bytes(command).drop_last().push(sum) =~= header + command + seq![sum]);
    lemma_read_up_to_sum(room, command, sum);
}

/// Whatever is on the wire before a start byte is ignored.
pub proof fn law_reader_skips_noise(room: nat, noise: Seq<u8>, rest: Seq<u8>)
    requires
        forall|i: int| 0 <= i < noise.len() ==> noise[i] != SOF,
    ensures
        read_all(room, Reading::Idle, noise + rest).0 == read_all(room, Reading::Idle, rest).0,
        read_all(room, Reading::Idle, noise).1.len() == noise.len(),
        all_more(read_all(room, Reading::Idle, noise).1),
        read_all(room, Reading::Idle, noise + rest).1 == read_all(room, Reading::Idle, noise).1
            + read_all(room, Reading::Idle, rest).1,
{
    lemma_read_concat(room, Reading::Idle, noise, rest);
    lemma_noise(room, noise);
}

proof fn lemma_noise(room: nat, noise: Seq<u8>)
    requires
        forall|i: int| 0 <= i < noise.len() ==> noise[i] != SOF,
    ensures
        read_all(room, Reading::Idle, noise).0 == Reading::Idle,
        read_all(room, Reading::Idle, noise).1.len() == noise.len(),
        all_more(read_all(room, Reading::Idle, noise).1),
    decreases noise.len(),
{
    if noise.len() > 0 {
        lemma_noise(room, noise.drop_last());
    }
}

/// ASCII of a hexadecimal digit.
pub open spec fn hex_digit(nibble: int) -> u8 {
    if nibble < 10 {
        (0x30 + nibble) as u8
    } else {
        (0x57 + nibble) as u8
    }
}

/// ASCII of a byte in two lower-case hexadecimal digits.
pub open spec fn hex_byte(byte: u8) -> Seq<u8> {
    seq![hex_digit(byte as int / 16), hex_digit(byte as int % 16)]
}

/// ASCII of bytes, two lower-case hexadecimal digits each.
pub open spec fn hex_bytes(bytes: Seq<u8>) -> Seq<u8>
    decreases bytes.len(),
{
    if bytes.len() == 0 {
        Seq::empty()
    } else {
        hex_bytes(bytes.drop_last()) + hex_byte(bytes.last())
    }
}

/// The bytes of a number, most significant first.
pub open spec fn be_bytes(value: u32) -> Seq<u8> {
    seq![
        (value / 0x100_0000) as u8,
        (value / 0x1_0000 % 0x100) as u8,
        (value / 0x100 % 0x100) as u8,
        (value % 0x100) as u8,
    ]
}

fn push_hex(text: &mut Vec<u8>, byte: u8)
    ensures
        final(text)@ == old(text)@ + hex_byte(byte),
{
    let high: u8 = byte / 16;
    let low: u8 = byte % 16;
    text.push(if high < 10 { 0x30 + high } else { 0x57 + high });
    text.push(if low < 10 { 0x30 + low } else { 0x57 + low });
}

fn push_hex_bytes(text: &mut Vec<u8>, bytes: &[u8])
    ensures
        final(text)@ == old(text)@ + hex_bytes(bytes@),
{
    let mut i: usize = 0;
    while i < bytes.len()
        invariant
            i <= bytes.len(),
            text@ == old(text)@ + hex_bytes(bytes@.take(i as int)),
        decreases bytes.len() - i,
    {
        proof {
            assert(bytes@.take(i + 1).drop_last() =~= bytes@.take(i as int));
        }
        push_hex(text, bytes[i]);
        i = i + 1;
    }
    assert(bytes@.take(bytes@.len() as int) =~= bytes@);
}

/// A number in eight lower-case hexadecimal digits, most significant first.
pub fn debug_hex_u32(value: u32) -> (text: Vec<u8>)
    ensures
        text@ == hex_bytes(be_bytes(value)),
{
    let bytes: [u8; 4] = [
        (value / 0x100_0000) as u8,
        (value / 0x1_0000 % 0x100) as u8,
        (value / 0x100 % 0x100) as u8,
        (value % 0x100) as u8,
    ];
    assert(bytes@ =~= be_bytes(value));
    let mut text: Vec<u8> = Vec::new();
    push_hex_bytes(&mut text, &bytes);
    text
}

/// `"\r\n"`.
pub open spec fn crlf() -> Seq<u8> {
    seq![0x0D, 0x0A]
}

/// `"READ_OK: "`.
pub open spec fn read_ok_text() -> Seq<u8> {
    seq![0x52, 0x45, 0x41, 0x44, 0x5F, 0x4F, 0x4B, 0x3A, 0x20]
}

/// `"READ_FAILED"`.
pub open spec fn read_failed_text() -> Seq<u8> {
    seq![0x52, 0x45, 0x41, 0x44, 0x5F, 0x46, 0x41, 0x49, 0x4C, 0x45, 0x44]
}

/// What the loader says of its first read of the flash: the bytes it got, or that it failed.
pub fn probe_report(status: Result<(), Error>, probe: &[u8]) -> (text: Vec<u8>)
    ensures
        text@ == (match status {
            Ok(()) => read_ok_text() + hex_bytes(probe@) + crlf(),
            Err(_) => read_failed_text() + crlf(),
        }),
{
    let mut text: Vec<u8> = Vec::new();
    match status {
        Ok(()) => {
            text.extend_from_slice(&[0x52, 0x45, 0x41, 0x44, 0x5F, 0x4F, 0x4B, 0x3A, 0x20]);
            assert(text@ =~= read_ok_text());
            push_hex_bytes(&mut text, probe);
        },
        Err(_) => {
            text.extend_from_slice(
                &[0x52, 0x45, 0x41, 0x44, 0x5F, 0x46, 0x41, 0x49, 0x4C, 0x45, 0x44],
            );
            assert(text@ =~= read_failed_text());
        },
    }
    text.push(0x0D);
    text.push(0x0A);
    text
}

/// `"WRITE_ERR code=0x"`.
pub open spec fn write_err_text() -> Seq<u8> {
    seq![
        0x57, 0x52, 0x49, 0x54, 0x45, 0x5F, 0x45, 0x52, 0x52, 0x20, 0x63, 0x6F, 0x64, 0x65, 0x3D,
        0x30, 0x78,
    ]
}

/// The code that stands for a write error on the wire.
pub open spec fn error_code(error: Error) -> u32 {
    match error {
        Error::Rom(status) => status,
        Error::Bounds(_) => 0xB000_0000,
        Error::UnsupportedFlash => 0xF000_0000,
    }
}

/// What is sent when a write fails: a line of text with the code, then the confirmation.
pub open spec fn write_failure(error: Error) -> Seq<u8> {
    write_err_text() + hex_bytes(be_bytes(error_code(error))) + crlf() + confirm(WRITE_ERROR)
}

fn send_write_failure(error: Error) -> (bytes: Vec<u8>)
    ensures
        bytes@ == write_failure(error),
{
    let code: u32 = match error {
        Error::Rom(status) => status,
        Error::Bounds(_) => 0xB000_0000,
        Error::UnsupportedFlash => 0xF000_0000,
    };
    let mut bytes: Vec<u8> = Vec::new();
    bytes.extend_from_slice(
        &[
            0x57, 0x52, 0x49, 0x54, 0x45, 0x5F, 0x45, 0x52, 0x52, 0x20, 0x63, 0x6F, 0x64, 0x65,
            0x3D, 0x30, 0x78,
        ],
    );
    assert(bytes@ =~= write_err_text());
    let mut digits: Vec<u8> = debug_hex_u32(code);
    bytes.append(&mut digits);
    bytes.push(0x0D);
    bytes.push(0x0A);
    let mut reply: Vec<u8> = send_confirm(WRITE_ERROR);
    bytes.append(&mut reply);
    bytes
}

/// Little-endian number in two bytes.
pub open spec fn le16(bytes: Seq<u8>, at: int) -> int {
    bytes[at] + 0x100 * bytes[at + 1]
}

/// Little-endian number in four bytes.
pub open spec fn le32(bytes: Seq<u8>, at: int) -> int {
    bytes[at] + 0x100 * bytes[at + 1] + 0x1_0000 * bytes[at + 2] + 0x100_0000 * bytes[at + 3]
}

fn read_le16(bytes: &[u8], at: usize) -> (value: usize)
    requires
        at + 2 <= bytes@.len(),
    ensures
        value == le16(bytes@, at as int),
{
    bytes[at] as usize + 0x100 * (bytes[at + 1] as usize)
}

fn read_le32(bytes: &[u8], at: usize) -> (value: u32)
    requires
        at + 4 <= bytes@.len(),
    ensures
        value == le32(bytes@, at as int),
{
    bytes[at] as u32 + 0x100 * (bytes[at + 1] as u32) + 0x1_0000 * (bytes[at + 2] as u32)
        + 0x100_0000 * (bytes[at + 3] as u32)
}

/// What is to be done for a command.
#[derive(Debug)]
pub enum Step {
    /// Send these bytes.
    Send(Vec<u8>),
    /// Erase, and go on with [`erased`].
    Erase(NvmCall),
    /// Write these bytes, and go on with [`written`].
    Write(NvmCall, Vec<u8>),
    /// Write this image header, and go on with [`committed`].
    Commit(NvmCall, Vec<u8>),
    /// Read this many bytes, and go on with [`read_back`].
    Read(NvmCall, usize),
}

/// The range that an erase command means: the sector of its address, or all but the reserved
/// last sector.
pub open spec fn erase_range(address: int) -> (int, int) {
    if address == 0xFFFF_FFFF {
        (0, 0x1F000)
    } else {
        (address - address % 4096, address - address % 4096 + 4096)
    }
}

/// The four bytes that open an image header, if the commit's field is a known one.
pub open spec fn signature(secure: u8) -> Option<Seq<u8>> {
    if secure == ENG_SECURED {
        Some(seq![0x53, 0x45, 0x43, 0x55])
    } else if secure == ENG_UNSECURED {
        Some(seq![0x4F, 0x4B, 0x4F, 0x4B])
    } else {
        None
    }
}

/// `step` sends exactly these bytes.
pub open spec fn sends(step: Step, bytes: Seq<u8>) -> bool {
    step matches Step::Send(sent) && sent@ == bytes
}

/// Whether `step` is what an erase command asks for.
pub open spec fn is_erase_step(nvm: Nvm, address: int, step: Step) -> bool {
    let (from, to) = erase_range(address);
    if erase_refusal(from, to) is Some {
        sends(step, confirm(EXEC_ERROR))
    } else {
        step matches Step::Erase(call) && nvm.is_erase_call(from, to, Ok(call))
    }
}

/// Whether `step` is what a write command asks for. A command whose data is not as long as it
/// says, or longer than a chunk, is refused before the flash is asked.
pub open spec fn is_write_step(
    nvm: Nvm,
    address: int,
    length: int,
    data: Seq<u8>,
    step: Step,
) -> bool {
    if length != data.len() || length > MAX_CHUNK {
        sends(step, confirm(WRITE_ERROR))
    } else {
        match nvm.write_call(address, length) {
            Ok(call) => step matches Step::Write(asked, bytes) && asked == call && bytes@ == data,
            Err(error) => sends(step, write_failure(error)),
        }
    }
}

/// Whether `step` is what a commit command asks for.
pub open spec fn is_commit_step(nvm: Nvm, image_length: Seq<u8>, secure: u8, step: Step) -> bool {
    match signature(secure) {
        None => sends(step, confirm(EXEC_ERROR)),
        Some(opening) => step matches Step::Commit(call, header) && Ok::<NvmCall, Error>(call)
            == nvm.write_call(0, 8) && header@ == opening + image_length,
    }
}

/// Whether `step` is what a read command asks for.
pub open spec fn is_read_step(nvm: Nvm, address: int, length: int, step: Step) -> bool {
    let capped = if length < MAX_CHUNK {
        length
    } else {
        MAX_CHUNK as int
    };
    match nvm.read_call(address, capped) {
        Ok(call) => step matches Step::Read(asked, count) && asked == call && count == capped,
        Err(_) => sends(step, read_response(READ_ERROR, Seq::empty())),
    }
}

/// Whether `step` is what a command asks for.
pub open spec fn is_step(nvm: Nvm, command: Seq<u8>, step: Step) -> bool {
    let id = command[0];
    if id == ERASE_REQUEST && command.len() == 5 {
        is_erase_step(nvm, le32(command, 1), step)
    } else if id == WRITE_REQUEST && command.len() >= 7 {
        is_write_step(nvm, le32(command, 1), le16(command, 5), command.skip(7), step)
    } else if id == COMMIT_REQUEST && command.len() == 6 {
        is_commit_step(nvm, command.subrange(1, 5), command[5], step)
    } else if id == READ_REQUEST && command.len() == 7 {
        is_read_step(nvm, le32(command, 1), le16(command, 5), step)
    } else {
        sends(step, confirm(EXEC_ERROR))
    }
}

fn handle_erase(nvm: &Nvm, address: u32) -> (step: Step)
    ensures
        is_erase_step(*nvm, address as int, step),
{
    let asked: Result<NvmCall, Error> = if address == 0xFFFF_FFFF {
        nvm.erase(0, 31 * 4096)
    } else {
        let sector_start: u32 = address - address % 4096;
        if sector_start > 0xFFFF_FFFF - 4096 {
            return Step::Send(send_confirm(EXEC_ERROR));
        }
        nvm.erase(sector_start, sector_start + 4096)
    };
    match asked {
        Ok(call) => Step::Erase(call),
        Err(_) => Step::Send(send_confirm(EXEC_ERROR)),
    }
}

fn handle_write(nvm: &Nvm, address: u32, length: usize, data: &[u8]) -> (step: Step)
    ensures
        is_write_step(*nvm, address as int, length as int, data@, step),
{
    if length != data.len() || length > MAX_CHUNK {
        return Step::Send(send_confirm(WRITE_ERROR));
    }
    match nvm.write(address, length) {
        Ok(call) => Step::Write(call, vstd::slice::slice_to_vec(data)),
        Err(error) => Step::Send(send_write_failure(error)),
    }
}

fn handle_commit(nvm: &Nvm, image_length: &[u8], secure: u8) -> (step: Step)
    ensures
        is_commit_step(*nvm, image_length@, secure, step),
{
    let mut header: Vec<u8> = Vec::new();
    if secure == ENG_SECURED {
        header.extend_from_slice(&[0x53, 0x45, 0x43, 0x55]);
        assert(header@ =~= seq![0x53, 0x45, 0x43, 0x55]);
    } else if secure == ENG_UNSECURED {
        header.extend_from_slice(&[0x4F, 0x4B, 0x4F, 0x4B]);
        assert(header@ =~= seq![0x4F, 0x4B, 0x4F, 0x4B]);
    } else {
        return Step::Send(send_confirm(EXEC_ERROR));
    }
    header.extend_from_slice(image_length);
    assert(header@ =~= signature(secure)->Some_0 + image_length@);
    match nvm.write(0, 8) {
        Ok(call) => Step::Commit(call, header),
        Err(_) => Step::Send(send_confirm(WRITE_ERROR)),
    }
}

fn handle_read(nvm: &Nvm, address: u32, length: usize) -> (step: Step)
    ensures
        is_read_step(*nvm, address as int, length as int, step),
{
    let capped: usize = if length < MAX_CHUNK {
        length
    } else {
        MAX_CHUNK
    };
    match nvm.read(address, capped) {
        Ok(call) => Step::Read(call, capped),
        Err(_) => {
            let nothing: Vec<u8> = Vec::new();
            Step::Send(send_read_response(READ_ERROR, nothing.as_slice()))
        },
    }
}

/// Decide what a command asks for.
pub fn handle(nvm: &Nvm, command: &[u8]) -> (step: Step)
    requires
        command@.len() >= 1,
    ensures
        is_step(*nvm, command@, step),
{
    let id: u8 = command[0];
    let len: usize = command.len();
    if id == ERASE_REQUEST && len == 5 {
        handle_erase(nvm, read_le32(command, 1))
    } else if id == WRITE_REQUEST && len >= 7 {
        let data: &[u8] = vstd::slice::slice_subrange(command, 7, len);
        assert(data@ =~= command@.skip(7));
        handle_write(nvm, read_le32(command, 1), read_le16(command, 5), data)
    } else if id == COMMIT_REQUEST && len == 6 {
        handle_commit(nvm, vstd::slice::slice_subrange(command, 1, 5), command[5])
    } else if id == READ_REQUEST && len == 7 {
        handle_read(nvm, read_le32(command, 1), read_le16(command, 5))
    } else {
        Step::Send(send_confirm(EXEC_ERROR))
    }
}

/// What a byte off the wire leads to: nothing yet, or something to be done.
pub open spec fn is_answer(nvm: Nvm, arrival: Arrival, answer: Option<Step>) -> bool {
    match arrival {
        Arrival::More => answer is None,
        Arrival::Dropped => answer is None,
        Arrival::BadChecksum => answer matches Some(step) && sends(step, confirm(CRC_ERROR)),
        Arrival::Command(command) => answer matches Some(step) && is_step(nvm, command, step),
    }
}

/// Take the next byte off the wire, and decide what to do once it completes a frame.
pub fn receive(reader: &mut FrameReader, nvm: &Nvm, byte: u8) -> (answer: Option<Step>)
    requires
        old(reader).well_formed(),
    ensures
        final(reader).well_formed(),
        final(reader).room() == old(reader).room(),
        final(reader)@ == read_step(old(reader).room(), old(reader)@, byte).0,
        is_answer(*nvm, read_step(old(reader).room(), old(reader)@, byte).1, answer),
{
    match reader.read_frame(byte) {
        FrameEvent::More => None,
        FrameEvent::Dropped => None,
        FrameEvent::BadChecksum => Some(Step::Send(send_confirm(CRC_ERROR))),
        FrameEvent::Command(command) => Some(handle(nvm, command.as_slice())),
    }
}

/// The reply to an erase command, from the status of the ROM.
pub fn erased(status: u32) -> (bytes: Vec<u8>)
    ensures
        bytes@ == confirm(if status == NVM_ERR_NO_ERROR { SUCCESS } else { EXEC_ERROR }),
        status == 0 ==> bytes@ == confirm(0x02),
        status != 0 ==> bytes@ == confirm(0x07),
{
    send_confirm(if status == NVM_ERR_NO_ERROR { SUCCESS } else { EXEC_ERROR })
}

/// The reply to a write command, from the status of the ROM.
pub fn written(status: u32) -> (bytes: Vec<u8>)
    ensures
        bytes@ == (if status == NVM_ERR_NO_ERROR {
            confirm(SUCCESS)
        } else {
            write_failure(Error::Rom(status))
        }),
        status == 0 ==> bytes@ == confirm(0x02),
{
    if status == NVM_ERR_NO_ERROR {
        send_confirm(SUCCESS)
    } else {
        send_write_failure(Error::Rom(status))
    }
}

/// The reply to a commit command, from the status of the ROM.
pub fn committed(status: u32) -> (bytes: Vec<u8>)
    ensures
        bytes@ == confirm(if status == NVM_ERR_NO_ERROR { SUCCESS } else { WRITE_ERROR }),
        status == 0 ==> bytes@ == confirm(0x02),
        status != 0 ==> bytes@ == confirm(0x03),
{
    send_confirm(if status == NVM_ERR_NO_ERROR { SUCCESS } else { WRITE_ERROR })
}

/// The reply to a read command, from the status of the ROM and the bytes that it read.
pub fn read_back(status: u32, data: &[u8]) -> (bytes: Vec<u8>)
    requires
        4 + data@.len() <= 0xFFFF,
    ensures
        bytes@ == (if status == NVM_ERR_NO_ERROR {
            read_response(SUCCESS, data@)
        } else {
            read_response(READ_ERROR, Seq::empty())
        }),
        status == 0 ==> bytes@ == read_response(0x02, data@),
        status != 0 ==> bytes@ == read_response(0x04, Seq::empty()),
{
    if status == NVM_ERR_NO_ERROR {
        send_read_response(SUCCESS, data)
    } else {
        let nothing: Vec<u8> = Vec::new();
        send_read_response(READ_ERROR, nothing.as_slice())
    }
}

/// The bytes of a number, least significant first.
pub open spec fn le_bytes(value: u32) -> Seq<u8> {
    seq![
        (value % 0x100) as u8,
        (value / 0x100 % 0x100) as u8,
        (value / 0x1_0000 % 0x100) as u8,
        (value / 0x100_0000) as u8,
    ]
}

/// The command that asks to write `data` at `address`.
pub open spec fn write_request(address: u32, data: Seq<u8>) -> Seq<u8> {
    seq![WRITE_REQUEST] + le_bytes(address) + seq![
        (data.len() % 256) as u8,
        (data.len() / 256) as u8,
    ] + data
}

/// The command that asks to read `length` bytes at `address`.
pub open spec fn read_request(address: u32, length: int) -> Seq<u8> {
    seq![READ_REQUEST] + le_bytes(address) + seq![(length % 256) as u8, (length / 256) as u8]
}

/// The command that asks to erase at `address`.
pub open spec fn erase_request(address: u32) -> Seq<u8> {
    seq![ERASE_REQUEST] + le_bytes(address)
}

/// The command that asks to open the image with the header of the given security and length.
pub open spec fn commit_request(image_length: u32, secure: u8) -> Seq<u8> {
    seq![COMMIT_REQUEST] + le_bytes(image_length) + seq![secure]
}

proof fn lemma_le_bytes(value: u32, command: Seq<u8>)
    requires
        command.len() >= 5,
        command.subrange(1, 5) == le_bytes(value),
    ensures
        le32(command, 1) == value,
{
    assert(command.subrange(1, 5)[0] == command[1]);
    assert(command.subrange(1, 5)[1] == command[2]);
    assert(command.subrange(1, 5)[2] == command[3]);
    assert(command.subrange(1, 5)[3] == command[4]);
    assert(value == value % 0x100 + 0x100 * (value / 0x100 % 0x100) + 0x1_0000 * (value / 0x1_0000
        % 0x100) + 0x100_0000 * (value / 0x100_0000)) by (nonlinear_arith);
}

proof fn lemma_framed_command(nvm: Nvm, command: Seq<u8>, answer: Option<Step>)
    requires
        1 <= command.len() <= MAX_FRAME,
        is_answer(
            nvm,
            read_all(MAX_FRAME as nat, Reading::Idle, frame_bytes(command)).1.last(),
            answer,
        ),
    ensures
        answer matches Some(step) && is_step(nvm, command, step),
{
    law_reader_undoes_framing(MAX_FRAME as nat, command);
}

proof fn lemma_write_request(address: u32, data: Seq<u8>)
    requires
        data.len() <= 0xFFFF,
    ensures
        ({
            let command = write_request(address, data);
            &&& command.len() == 7 + data.len()
            &&& command[0] == WRITE_REQUEST
            &&& le32(command, 1) == address
            &&& le16(command, 5) == data.len()
            &&& command.skip(7) == data
        }),
{
    let command = write_request(address, data);
    assert(command.subrange(1, 5) =~= le_bytes(address));
    lemma_le_bytes(address, command);
    assert(command.skip(7) =~= data);
}

/// A write request that arrives in a frame makes the loader write the request's bytes at the
/// request's address if they are no more than a chunk and lie within the flash, and report an
/// error otherwise.
pub proof fn law_write_request_is_served(
    nvm: Nvm,
    address: u32,
    data: Seq<u8>,
    answer: Option<Step>,
)
    requires
        data.len() <= 1025,
        is_answer(
            nvm,
            read_all(
                MAX_FRAME as nat,
                Reading::Idle,
                frame_bytes(write_request(address, data)),
            ).1.last(),
            answer,
        ),
    ensures
        answer matches Some(step) && (if data.len() > 1024 {
            sends(step, confirm(WRITE_ERROR))
        } else if address + data.len() <= 0x2_0000 {
            step matches Step::Write(call, bytes) && bytes@ == data && call == (NvmCall::Write {
                interface: nvm.interface,
                nvm_type: nvm.nvm_type,
                address,
                length: data.len() as u32,
            })
        } else {
            sends(step, write_failure(Error::Bounds(NorFlashErrorKind::OutOfBounds)))
        }),
{
    lemma_write_request(address, data);
    lemma_framed_command(nvm, write_request(address, data), answer);
}

/// A read request that arrives in a frame makes the loader read as many bytes as were asked for,
/// or the 1024 that a reply can hold if that is less, at the request's address, and
/// report an error if they do not lie within the flash.
pub proof fn law_read_request_is_served(nvm: Nvm, address: u32, length: int, answer: Option<Step>)
    requires
        0 <= length <= 0xFFFF,
        is_answer(
            nvm,
            read_all(
                MAX_FRAME as nat,
                Reading::Idle,
                frame_bytes(read_request(address, length)),
            ).1.last(),
            answer,
        ),
    ensures
        ({
            let capped = if length < 1024 {
                length
            } else {
                1024int
            };
            answer matches Some(step) && (if address + capped <= 0x2_0000 {
                step matches Step::Read(call, count) && count == capped && call == (NvmCall::Read {
                    interface: nvm.interface,
                    nvm_type: nvm.nvm_type,
                    address,
                    length: capped as u32,
                })
            } else {
                sends(step, read_response(READ_ERROR, Seq::empty()))
            })
        }),
{
    let command = read_request(address, length);
    lemma_framed_command(nvm, command, answer);
    assert(command.subrange(1, 5) =~= le_bytes(address));
    lemma_le_bytes(address, command);
}

/// An erase request that arrives in a frame erases the sector of its address, the reserved last
/// sector included, or, for the address of all ones, every sector but that one; any other
/// address is refused.
pub proof fn law_erase_request_is_served(nvm: Nvm, address: u32, answer: Option<Step>, sector: u32)
    requires
        is_answer(
            nvm,
            read_all(
                MAX_FRAME as nat,
                Reading::Idle,
                frame_bytes(erase_request(address)),
            ).1.last(),
            answer,
        ),
        sector < 32,
    ensures
        answer matches Some(step) && (if address < 0x2_0000 || address == 0xFFFF_FFFF {
            step matches Step::Erase(NvmCall::Erase { interface, nvm_type, sectors })
                && interface == nvm.interface && nvm_type == nvm.nvm_type && (has_sector(
                sectors,
                sector,
            ) <==> (if address == 0xFFFF_FFFF {
                sector != 31
            } else {
                sector == address / 4096
            }))
        } else {
            sends(step, confirm(EXEC_ERROR))
        }),
{
    let command = erase_request(address);
    lemma_framed_command(nvm, command, answer);
    assert(command.subrange(1, 5) =~= le_bytes(address));
    lemma_le_bytes(address, command);
}

/// A commit request that arrives in a frame writes, at the start of the flash, the signature that
/// its security asks for and its image length, and is refused if its security is unknown.
pub proof fn law_commit_request_is_served(
    nvm: Nvm,
    image_length: u32,
    secure: u8,
    answer: Option<Step>,
)
    requires
        is_answer(
            nvm,
            read_all(
                MAX_FRAME as nat,
                Reading::Idle,
                frame_bytes(commit_request(image_length, secure)),
            ).1.last(),
            answer,
        ),
    ensures
        answer matches Some(step) && (match signature(secure) {
            Some(opening) => step matches Step::Commit(call, header) && header@ == opening
                + le_bytes(image_length) && call == (NvmCall::Write {
                interface: nvm.interface,
                nvm_type: nvm.nvm_type,
                address: 0,
                length: 8,
            }),
            None => sends(step, confirm(EXEC_ERROR)),
        }),
{
    let command = commit_request(image_length, secure);
    lemma_framed_command(nvm, command, answer);
    assert(command.subrange(1, 5) =~= le_bytes(image_length));
}

/// A frame is answered once it is complete, whether its checksum is right or wrong; nothing else
/// is, a frame of a length that cannot be included.
pub proof fn law_every_command_is_answered(nvm: Nvm, arrival: Arrival, answer: Option<Step>)
    requires
        is_answer(nvm, arrival, answer),
    ensures
        answer is Some <==> arrival is BadChecksum || arrival is Command,
{
}

/// Every frame that the loader replies with is one that a reader of the same protocol accepts, if
/// it has room for it.
pub proof fn law_replies_are_readable(room: nat, status: u8, data: Seq<u8>)
    requires
        4 + data.len() <= 0xFFFF,
        4 + data.len() <= room,
    ensures
        read_all(room, Reading::Idle, confirm(status)).1.last() == Arrival::Command(
            seq![CONFIRM, status],
        ),
        read_all(room, Reading::Idle, read_response(status, data)).1.last() == Arrival::Command(
            seq![READ_RESPONSE, status, (data.len() % 256) as u8, (data.len() / 256) as u8] + data,
        ),
{
    law_reader_undoes_framing(room, seq![CONFIRM, status]);
    law_reader_undoes_framing(
        room,
        seq![READ_RESPONSE, status, (data.len() % 256) as u8, (data.len() / 256) as u8] + data,
    );
}

proof fn lemma_modular_sums(a: int, b: int, c: int)
    requires
        0 <= a < 256,
        0 <= b < 256,
        0 <= c < 256,
    ensures
        ((a + b) % 256 + c) % 256 == (a + (b + c) % 256) % 256,
{
}

proof fn lemma_checksum_push(bytes: Seq<u8>, byte: u8)
    ensures
        checksum(bytes.push(byte)) == (checksum(bytes) + byte) % 256,
{
    assert(bytes.push(byte).drop_last() =~= bytes);
}

proof fn lemma_checksum_concat(first: Seq<u8>, second: Seq<u8>)
    ensures
        checksum(first + second) == (checksum(first) + checksum(second)) % 256,
    decreases second.len(),
{
    lemma_checksum_range(first);
    if second.len() == 0 {
        assert(first + second =~= first);
    } else {
        let shorter = second.drop_last();
        let last = second.last();
        lemma_checksum_concat(first, shorter);
        lemma_checksum_range(shorter);
        assert(first + second =~= (first + shorter).push(last));
        assert(second =~= shorter.push(last));
        lemma_checksum_push(first + shorter, last);
        lemma_checksum_push(shorter, last);
        lemma_modular_sums(checksum(first), checksum(shorter), last as int);
    }
}

/// The checksum of a byte is the byte, and the checksums of two stretches of bytes add up, modulo
/// 256, to the checksum of both: every byte counts, wherever it stands and however many there are.
pub proof fn law_checksums_add_up(first: Seq<u8>, second: Seq<u8>, byte: u8)
    ensures
        checksum(Seq::empty()) == 0,
        checksum(seq![byte]) == byte,
        checksum(first + second) == (checksum(first) + checksum(second)) % 256,
        0 <= checksum(first) < 256,
{
    lemma_checksum_range(first);
    assert(seq![byte] =~= Seq::<u8>::empty().push(byte));
    lemma_checksum_push(Seq::empty(), byte);
    lemma_checksum_concat(first, second);
}

proof fn lemma_modular_difference(a: int, x: int, y: int, b: int)
    requires
        0 <= a < 256,
        0 <= x < 256,
        0 <= y < 256,
        0 <= b < 256,
        x != y,
    ensures
        ((a + x) % 256 + b) % 256 != ((a + y) % 256 + b) % 256,
{
}

/// Changing one byte, whichever, changes the checksum.
pub proof fn law_changed_byte_changes_the_checksum(bytes: Seq<u8>, i: int, byte: u8)
    requires
        0 <= i < bytes.len(),
        byte != bytes[i],
    ensures
        checksum(bytes.update(i, byte)) != checksum(bytes),
{
    let before = bytes.take(i);
    let behind = bytes.skip(i + 1);
    assert(bytes =~= before.push(bytes[i]) + behind);
    assert(bytes.update(i, byte) =~= before.push(byte) + behind);
    lemma_checksum_concat(before.push(bytes[i]), behind);
    lemma_checksum_concat(before.push(byte), behind);
    lemma_checksum_push(before, bytes[i]);
    lemma_checksum_push(before, byte);
    lemma_checksum_range(behind);
    lemma_checksum_range(before);
    lemma_modular_difference(
        checksum(before),
        bytes[i] as int,
        byte as int,
        checksum(behind),
    );
}

/// A frame is four bytes longer than its command: 0x55, the length of the command with its low
/// byte first, the command byte for byte, and the checksum of all of it.
pub proof fn law_frame_is_laid_out(command: Seq<u8>)
    requires
        command.len() <= 0xFFFF,
    ensures
        ({
            let frame = frame_bytes(command);
            &&& frame.len() == command.len() + 4
            &&& frame[0] == 0x55
            &&& frame[1] + 256 * frame[2] == command.len()
            &&& forall|i: int| 0 <= i < command.len() ==> #[trigger] frame[3 + i] == command[i]
            &&& frame[frame.len() - 1] == checksum(command)
        }),
{
    lemma_checksum_range(command);
}

/// A frame in which one byte of the command was changed on its way is reported as damaged, and
/// is never taken for a command.
pub proof fn law_reader_notices_a_changed_byte(room: nat, command: Seq<u8>, i: int, byte: u8)
    requires
        1 <= command.len() <= 0xFFFF,
        command.len() <= room,
        0 <= i < command.len(),
        byte != command[i],
    ensures
        ({
            let damaged = frame_bytes(command).update(3 + i, byte);
            let (after, arrivals) = read_all(room, Reading::Idle, damaged);
            &&& after == Reading::Idle
            &&& all_more(arrivals.drop_last())
            &&& arrivals.last() == Arrival::BadChecksum
        }),
{
    let changed = command.update(i, byte);
    let sum = checksum(command) as u8;
    lemma_checksum_range(command);
    law_changed_byte_changes_the_checksum(command, i, byte);
    law_reader_refuses_bad_checksum(room, changed, sum);
    assert(frame_bytes(command).update(3 + i, byte) =~= frame_bytes(changed).drop_last().push(sum));
}

/// A reader takes the bytes in turn: what has been read decides what the next byte leads to, and
/// two stretches of bytes lead to what the second leads to after the first.
pub proof fn law_reader_takes_bytes_in_turn(
    room: nat,
    at: Reading,
    first: Seq<u8>,
    second: Seq<u8>,
    byte: u8,
)
    ensures
        read_all(room, at, Seq::empty()) == (at, Seq::<Arrival>::empty()),
        read_all(room, at, seq![byte]) == (
            read_step(room, at, byte).0,
            seq![read_step(room, at, byte).1],
        ),
        read_all(room, at, first + second).0 == read_all(
            room,
            read_all(room, at, first).0,
            second,
        ).0,
        read_all(room, at, first + second).1 == read_all(room, at, first).1 + read_all(
            room,
            read_all(room, at, first).0,
            second,
        ).1,
{
    lemma_read_concat(room, at, first, second);
    reveal_with_fuel(read_all, 2);
    assert(seq![byte].drop_last() =~= Seq::<u8>::empty());
    assert(read_all(room, at, seq![byte]).1 =~= seq![read_step(room, at, byte).1]);
}

/// A header of a command that is empty, or longer than there is room for, is dropped without a
/// word, and the next start byte begins a new frame; any other header lets so many bytes of a
/// command follow.
pub proof fn law_reader_drops_impossible_lengths(room: nat, low: u8, high: u8)
    ensures
        ({
            let (after, arrivals) = read_all(room, Reading::Idle, seq![0x55u8, low, high]);
            let length = low + 256 * high;
            &&& arrivals.len() == 3
            &&& arrivals[0] == Arrival::More && arrivals[1] == Arrival::More
            &&& length == 0 || length > room ==> after == Reading::Idle && arrivals[2]
                == Arrival::Dropped
            &&& 1 <= length <= room ==> arrivals[2] == Arrival::More && after == (Reading::Body {
                length: length as nat,
                got: Seq::empty(),
            })
        }),
{
    let header = seq![0x55u8, low, high];
    assert(header.drop_last() =~= seq![0x55u8, low]);
    assert(seq![0x55u8, low].drop_last() =~= seq![0x55u8]);
    assert(seq![0x55u8].drop_last() =~= Seq::<u8>::empty());
    reveal_with_fuel(read_all, 4);
}

/// Two hexadecimal digits stand for each byte, in order, the high one first: every digit is one
/// of `0` to `9` and `a` to `f`, and both together have the value of the byte.
pub proof fn law_hex_digits_have_the_value(bytes: Seq<u8>, i: int)
    requires
        0 <= i < bytes.len(),
    ensures
        hex_bytes(bytes).len() == 2 * bytes.len(),
        ({
            let high = hex_bytes(bytes)[2 * i];
            let low = hex_bytes(bytes)[2 * i + 1];
            &&& 0x30 <= high <= 0x39 || 0x61 <= high <= 0x66
            &&& 0x30 <= low <= 0x39 || 0x61 <= low <= 0x66
            &&& bytes[i] == 16 * (if high <= 0x39 {
                high - 0x30
            } else {
                high - 0x57
            }) + (if low <= 0x39 {
                low - 0x30
            } else {
                low - 0x57
            })
        }),
    decreases bytes.len(),
{
    lemma_hex_length(bytes);
    lemma_hex_length(bytes.drop_last());
    if i < bytes.len() - 1 {
        law_hex_digits_have_the_value(bytes.drop_last(), i);
    }
}

proof fn lemma_hex_length(bytes: Seq<u8>)
    ensures
        hex_bytes(bytes).len() == 2 * bytes.len(),
    decreases bytes.len(),
{
    if bytes.len() > 0 {
        lemma_hex_length(bytes.drop_last());
    }
}

/// The bytes of a number, in either order, add up to the number by their places, and reading a
/// number from its bytes gives it back.
pub proof fn law_numbers_are_positional(value: u32, bytes: Seq<u8>, at: int)
    requires
        0 <= at,
        at + 4 <= bytes.len(),
    ensures
        be_bytes(value).len() == 4,
        0x100_0000 * be_bytes(value)[0] + 0x1_0000 * be_bytes(value)[1] + 0x100 * be_bytes(value)[2]
            + be_bytes(value)[3] == value,
        le_bytes(value).len() == 4,
        le_bytes(value)[0] + 0x100 * le_bytes(value)[1] + 0x1_0000 * le_bytes(value)[2]
            + 0x100_0000 * le_bytes(value)[3] == value,
        le32(le_bytes(value), 0) == value,
        le16(bytes, at) % 0x100 == bytes[at],
        le16(bytes, at) / 0x100 == bytes[at + 1],
        le32(bytes, at) == le16(bytes, at) + 0x1_0000 * le16(bytes, at + 2),
{
    assert(value == value % 0x100 + 0x100 * (value / 0x100 % 0x100) + 0x1_0000 * (value / 0x1_0000
        % 0x100) + 0x100_0000 * (value / 0x100_0000)) by (nonlinear_arith);
}

/// Requests are laid out as the loader expects them: the kind of request, the address or the
/// length of the image with its low byte first, and then what the kind calls for.
pub proof fn law_requests_are_laid_out(
    address: u32,
    data: Seq<u8>,
    length: int,
    secure: u8,
    i: int,
)
    requires
        data.len() <= 0xFFFF,
        0 <= length <= 0xFFFF,
        1 <= i <= 4,
    ensures
        write_request(address, data).len() == 7 + data.len(),
        write_request(address, data)[0] == 0x03,
        write_request(address, data)[i] == le_bytes(address)[i - 1],
        write_request(address, data)[5] + 256 * write_request(address, data)[6] == data.len(),
        write_request(address, data).skip(7) == data,
        read_request(address, length).len() == 7,
        read_request(address, length)[0] == 0x01,
        read_request(address, length)[i] == le_bytes(address)[i - 1],
        read_request(address, length)[5] + 256 * read_request(address, length)[6] == length,
        erase_request(address).len() == 5,
        erase_request(address)[0] == 0x05,
        erase_request(address)[i] == le_bytes(address)[i - 1],
        commit_request(address, secure).len() == 6,
        commit_request(address, secure)[0] == 0x04,
        commit_request(address, secure)[i] == le_bytes(address)[i - 1],
        commit_request(address, secure)[5] == secure,
{
    assert(write_request(address, data).skip(7) =~= data);
}

/// Replies are laid out as the other side expects them: a confirmation carries its status, and
/// the answer to a read its status, the length of the data with its low byte first, and the data
/// byte for byte.
pub proof fn law_replies_are_laid_out(status: u8, data: Seq<u8>)
    requires
        4 + data.len() <= 0xFFFF,
    ensures
        confirm(status) == seq![
            0x55u8,
            2u8,
            0u8,
            0xF0u8,
            status,
            ((0xF0 + status) % 256) as u8,
        ],
        ({
            let frame = read_response(status, data);
            &&& frame.len() == 8 + data.len()
            &&& frame[0] == 0x55
            &&& frame[1] + 256 * frame[2] == 4 + data.len()
            &&& frame[3] == 0x02
            &&& frame[4] == status
            &&& frame[5] + 256 * frame[6] == data.len()
            &&& forall|i: int| 0 <= i < data.len() ==> #[trigger] frame[7 + i] == data[i]
        }),
{
    let command = seq![0xF0u8, status];
    law_checksums_add_up(seq![0xF0u8], seq![status], status);
    law_checksums_add_up(Seq::empty(), Seq::empty(), 0xF0u8);
    assert(seq![0xF0u8] + seq![status] =~= command);
    let body = seq![
        READ_RESPONSE,
        status,
        (data.len() % 256) as u8,
        (data.len() / 256) as u8,
    ] + data;
    law_frame_is_laid_out(body);
    let frame = read_response(status, data);
    assert(frame[3] == body[0]);
    assert(frame[4] == body[1]);
    assert(frame[5] == body[2]);
    assert(frame[6] == body[3]);
    assert forall|i: int| 0 <= i < data.len() implies #[trigger] frame[7 + i] == data[i] by {
        assert(frame[3 + (4 + i)] == body[4 + i]);
    }
}

/// A failed write is reported with the code of its error, the status of the ROM itself where the
/// ROM refused, in eight digits, and then confirmed as a write error.
pub proof fn law_write_failures_carry_their_code(error: Error)
    ensures
        error matches Error::Rom(status) ==> error_code(error) == status,
        error is Bounds ==> error_code(error) == 0xB000_0000u32,
        error is UnsupportedFlash ==> error_code(error) == 0xF000_0000u32,
        ({
            let bytes = write_failure(error);
            &&& bytes.len() == 33
            &&& bytes.subrange(17, 25) == hex_bytes(be_bytes(error_code(error)))
            &&& bytes.skip(27) == confirm(0x03)
        }),
{
    let bytes = write_failure(error);
    lemma_hex_length(be_bytes(error_code(error)));
    law_replies_are_laid_out(0x03, Seq::empty());
    assert(bytes.subrange(17, 25) =~= hex_bytes(be_bytes(error_code(error))));
    assert(bytes.skip(27) =~= confirm(0x03));
}

/// A frame with a wrong checksum is answered with a confirmation of that status, and a command
/// that is no command, by its kind or by its length, with one that it cannot be executed.
pub proof fn law_nonsense_is_refused(
    nvm: Nvm,
    command: Seq<u8>,
    damaged: Option<Step>,
    answer: Option<Step>,
)
    requires
        command.len() >= 1,
        is_answer(nvm, Arrival::BadChecksum, damaged),
        is_answer(nvm, Arrival::Command(command), answer),
        !(command[0] == 0x01 && command.len() == 7),
        !(command[0] == 0x03 && command.len() >= 7),
        !(command[0] == 0x04 && command.len() == 6),
        !(command[0] == 0x05 && command.len() == 5),
    ensures
        damaged matches Some(Step::Send(sent)) && sent@ == seq![
            0x55u8,
            2u8,
            0u8,
            0xF0u8,
            0x05u8,
            0xF5u8,
        ],
        answer matches Some(Step::Send(sent)) && sent@ == seq![
            0x55u8,
            2u8,
            0u8,
            0xF0u8,
            0x07u8,
            0xF7u8,
        ],
{
    law_replies_are_laid_out(0x05, Seq::empty());
    law_replies_are_laid_out(0x07, Seq::empty());
}

/// What a write command asks for, by its bytes: where its data is not as long as it says, or is
/// longer than 1024 bytes, it is refused as a write error; where the data would leave the flash,
/// the failure is reported; and otherwise the flash is asked to write exactly that data at the
/// address.
pub proof fn law_write_command_by_its_bytes(nvm: Nvm, command: Seq<u8>, answer: Option<Step>)
    requires
        command.len() >= 7,
        command[0] == 0x03,
        is_answer(nvm, Arrival::Command(command), answer),
    ensures
        ({
            let address = command[1] + 0x100 * command[2] + 0x1_0000 * command[3] + 0x100_0000
                * command[4];
            let length = command[5] + 256 * command[6];
            if length + 7 != command.len() || length > 1024 {
                answer matches Some(Step::Send(sent)) && sent@ == seq![
                    0x55u8,
                    2u8,
                    0u8,
                    0xF0u8,
                    0x03u8,
                    0xF3u8,
                ]
            } else if address + length <= 0x2_0000 {
                answer matches Some(Step::Write(call, bytes)) && bytes@ == command.skip(7)
                    && call == (NvmCall::Write {
                    interface: nvm.interface,
                    nvm_type: nvm.nvm_type,
                    address: address as u32,
                    length: length as u32,
                })
            } else {
                answer matches Some(Step::Send(sent)) && sent@ == write_failure(
                    Error::Bounds(NorFlashErrorKind::OutOfBounds),
                )
            }
        }),
{
    law_replies_are_laid_out(0x03, Seq::empty());
}

/// What a read command asks for, by its bytes: as many bytes as it says, but at most 1024, at its
/// address, and a reply with a read error and no data where they do not lie within the flash.
pub proof fn law_read_command_by_its_bytes(nvm: Nvm, command: Seq<u8>, answer: Option<Step>)
    requires
        command.len() == 7,
        command[0] == 0x01,
        is_answer(nvm, Arrival::Command(command), answer),
    ensures
        ({
            let address = command[1] + 0x100 * command[2] + 0x1_0000 * command[3] + 0x100_0000
                * command[4];
            let wanted = command[5] + 256 * command[6];
            let count = if wanted <= 1024 {
                wanted
            } else {
                1024
            };
            if address + count <= 0x2_0000 {
                answer matches Some(Step::Read(call, asked)) && asked == count && call == (
                NvmCall::Read {
                    interface: nvm.interface,
                    nvm_type: nvm.nvm_type,
                    address: address as u32,
                    length: count as u32,
                })
            } else {
                answer matches Some(Step::Send(sent)) && sent@ == read_response(0x04, Seq::empty())
            }
        }),
{
}

/// What an erase command asks for, by its bytes: to erase the sector in which its address lies, or
/// all but the last for an address of all ones, and nothing where there is no such sector.
pub proof fn law_erase_command_by_its_bytes(
    nvm: Nvm,
    command: Seq<u8>,
    answer: Option<Step>,
    sector: u32,
)
    requires
        command.len() == 5,
        command[0] == 0x05,
        sector < 32,
        is_answer(nvm, Arrival::Command(command), answer),
    ensures
        ({
            let address = command[1] + 0x100 * command[2] + 0x1_0000 * command[3] + 0x100_0000
                * command[4];
            if address == 0xFFFF_FFFF {
                answer matches Some(Step::Erase(NvmCall::Erase { interface, nvm_type, sectors }))
                    && interface == nvm.interface && nvm_type == nvm.nvm_type && (sectors & (1u32
                    << sector) != 0 <==> sector != 31)
            } else if address < 0x2_0000 {
                answer matches Some(Step::Erase(NvmCall::Erase { interface, nvm_type, sectors }))
                    && interface == nvm.interface && nvm_type == nvm.nvm_type && (sectors & (1u32
                    << sector) != 0 <==> 4096 * sector <= address < 4096 * sector + 4096)
            } else {
                answer matches Some(Step::Send(sent)) && sent@ == seq![
                    0x55u8,
                    2u8,
                    0u8,
                    0xF0u8,
                    0x07u8,
                    0xF7u8,
                ]
            }
        }),
{
    law_replies_are_laid_out(0x07, Seq::empty());
    let address = le32(command, 1);
    if address < 0x2_0000 || address == 0xFFFF_FFFF {
        let sectors = answer->Some_0->Erase_0->Erase_sectors;
        let (from, to) = erase_range(address);
        assert(has_sector(sectors, sector) <==> from <= sector * 4096 < to);
    }
}

/// What a commit command asks for, by its bytes: to write eight bytes at the start of the flash,
/// the signature for its security and then the length of the image as it came, and nothing where
/// its security is unknown.
pub proof fn law_commit_command_by_its_bytes(nvm: Nvm, command: Seq<u8>, answer: Option<Step>)
    requires
        command.len() == 6,
        command[0] == 0x04,
        is_answer(nvm, Arrival::Command(command), answer),
    ensures
        if command[5] == 0xC3 || command[5] == 0x3C {
            answer matches Some(Step::Commit(call, header)) && header@.len() == 8 && header@.skip(4)
                == command.subrange(1, 5) && header@.take(4) == (if command[5] == 0xC3 {
                seq![0x53u8, 0x45u8, 0x43u8, 0x55u8]
            } else {
                seq![0x4Fu8, 0x4Bu8, 0x4Fu8, 0x4Bu8]
            }) && call == (NvmCall::Write {
                interface: nvm.interface,
                nvm_type: nvm.nvm_type,
                address: 0,
                length: 8,
            })
        } else {
            answer matches Some(Step::Send(sent)) && sent@ == seq![
                0x55u8,
                2u8,
                0u8,
                0xF0u8,
                0x07u8,
                0xF7u8,
            ]
        },
{
    law_replies_are_laid_out(0x07, Seq::empty());
    if let Some(opening) = signature(command[5]) {
        let header = answer->Some_0->Commit_1@;
        assert(header.skip(4) =~= command.subrange(1, 5));
        assert(header.take(4) =~= opening);
    }
}

/// The header of an image opens with `SECU` where it is to be secured, and with `OKOK` where it is
/// not; no other choice has a header.
pub proof fn law_image_headers_open_with_a_signature(secure: u8)
    ensures
        secure == 0xC3 ==> signature(secure) == Some(seq![0x53u8, 0x45u8, 0x43u8, 0x55u8]),
        secure == 0x3C ==> signature(secure) == Some(seq![0x4Fu8, 0x4Bu8, 0x4Fu8, 0x4Bu8]),
        secure != 0xC3 && secure != 0x3C ==> signature(secure) is None,
{
}

/// A step that sends bytes sends those bytes and does nothing to the flash.
pub proof fn law_sending_is_only_sending(step: Step, bytes: Seq<u8>)
    ensures
        sends(step, bytes) <==> (step matches Step::Send(sent) && sent@ == bytes),
{
}

/// How a reader moves, byte by byte: 0x55 and nothing else begins a frame; two bytes give the
/// length; then so many bytes are collected, in order; and the byte behind them decides whether
/// what was collected is a command. Only that last byte, or a length that cannot be, leads to
/// anything.
pub proof fn law_reader_moves_byte_by_byte(
    room: nat,
    low: u8,
    length: nat,
    got: Seq<u8>,
    byte: u8,
)
    requires
        got.len() < length,
    ensures
        read_step(room, Reading::Idle, byte) == (
            if byte == 0x55 {
                Reading::LengthLow
            } else {
                Reading::Idle
            },
            Arrival::More,
        ),
        read_step(room, Reading::LengthLow, byte) == (Reading::LengthHigh(byte), Arrival::More),
        read_step(room, Reading::LengthHigh(low), byte) == (if 1 <= low + 256 * byte <= room {
            (
                Reading::Body { length: (low + 256 * byte) as nat, got: Seq::empty() },
                Arrival::More,
            )
        } else {
            (Reading::Idle, Arrival::Dropped)
        }),
        got.len() + 1 < length ==> read_step(room, Reading::Body { length, got }, byte) == (
            Reading::Body { length, got: got.push(byte) },
            Arrival::More,
        ),
        got.len() + 1 == length ==> read_step(room, Reading::Body { length, got }, byte) == (
            Reading::Sum(got.push(byte)),
            Arrival::More,
        ),
        read_step(room, Reading::Sum(got), byte) == (
            Reading::Idle,
            if byte == checksum(got) {
                Arrival::Command(got)
            } else {
                Arrival::BadChecksum
            },
        ),
{
}

/// What the loader says in words is plain ASCII.
pub proof fn law_reports_are_plain_text(i: int)
    ensures
        read_ok_text().len() == "READ_OK: "@.len(),
        0 <= i < read_ok_text().len() ==> read_ok_text()[i] as char == "READ_OK: "@[i],
        read_failed_text().len() == "READ_FAILED"@.len(),
        0 <= i < read_failed_text().len() ==> read_failed_text()[i] as char == "READ_FAILED"@[i],
        write_err_text().len() == "WRITE_ERR code=0x"@.len(),
        0 <= i < write_err_text().len() ==> write_err_text()[i] as char == "WRITE_ERR code=0x"@[i],
        crlf().len() == 2,
        crlf()[0] as char == '\r',
        crlf()[1] as char == '\n',
{
    reveal_strlit("READ_OK: ");
    reveal_strlit("READ_FAILED");
    reveal_strlit("WRITE_ERR code=0x");
}

} // verus!
