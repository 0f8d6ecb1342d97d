//! IEEE 802.15.4 radio driver for the MACA coprocessor.
//!
//! The coprocessor receives at all times; received frames queue up in the packet pool of the
//! support library, and an interrupt counts them. A frame to send is copied into a packet of the
//! pool and queued; an interrupt reports its status. [`Mc1322xRadio`] holds the driver's state
//! and decides, at every poll, callback and request, what becomes of it and what is to be done.
//! Everything here runs inside a critical section.
use crate::layout::{
    holds_octets, mac_frame, mac_octets, phr_length, psdu, read_frame, write_frame, CodecError,
    MAX_PSDU,
};
use crate::port::{Call, Op, Progress};
use crate::rng::{bring_up_program, ensure_maca_ready, is_set};
use vstd::prelude::*;

verus! {

/// MACA status: success.
pub const SUCCESS: u32 = 0;
/// Entries of the power tables.
pub const POWER_LEVELS: u8 = 19;

/// The state of the driver.
#[derive(Debug, Copy, Clone, PartialEq, Eq, Structural)]
pub struct State {
    /// Address of the buffer to receive into, while one is prepared.
    pub rx_buffer: Option<usize>,
    /// Received frames that wait in the packet queue.
    pub rx_pending: u32,
    /// Status of the last completed transmission, until it is taken.
    pub tx_status: Option<u32>,
    /// The channel index that is programmed, where it is known.
    pub tx_channel: Option<u8>,
    /// The pending operation is to give up.
    pub cancelled: bool,
    /// A task waits, and its waker is stored.
    pub waiting: bool,
    /// A transmission without a task is under way.
    pub tx_in_flight: bool,
}

impl State {
    /// The state before anything has happened.
    pub open spec fn spec_new() -> State {
        State {
            rx_buffer: None,
            rx_pending: 0,
            tx_status: None,
            tx_channel: None,
            cancelled: false,
            waiting: false,
            tx_in_flight: false,
        }
    }

    /// The state after the radio was turned on or off: no channel is known to be programmed, and
    /// neither a cancellation nor a buffer survives.
    pub open spec fn switched(self) -> State {
        State { tx_channel: None, cancelled: false, rx_buffer: None, ..self }
    }

    /// The state once a receive operation is prepared: a cancellation of an earlier one does not
    /// concern it.
    pub open spec fn prepared(self, buffer: usize) -> State {
        State { rx_buffer: Some(buffer), cancelled: false, ..self }
    }

    /// A poll of a receive operation, up to the packet queue.
    pub open spec fn receive_step(self) -> (State, ReceiveStep) {
        if self.cancelled {
            (
                State { cancelled: false, waiting: false, rx_buffer: None, ..self },
                ReceiveStep::Cancelled,
            )
        } else if self.rx_pending == 0 {
            (State { waiting: true, ..self }, ReceiveStep::Wait)
        } else {
            (self, ReceiveStep::PopPacket)
        }
    }

    /// The rest of that poll, from whether the packet queue gave a packet.
    pub open spec fn popped_step(self, popped: bool) -> (State, Delivery) {
        if !popped {
            (State { waiting: true, ..self }, Delivery::Wait)
        } else {
            let state = State {
                rx_pending: (self.rx_pending - 1) as u32,
                waiting: false,
                rx_buffer: None,
                ..self
            };
            match self.rx_buffer {
                None => (state, Delivery::Drop),
                Some(buffer) => (state, Delivery::Into(buffer)),
            }
        }
    }

    /// The state once a receive operation was abandoned.
    pub open spec fn abandoned(self) -> State {
        State { rx_buffer: None, waiting: false, cancelled: false, ..self }
    }

    /// The state once the pending operation was cancelled.
    pub open spec fn cancel_step(self) -> State {
        State { cancelled: true, tx_status: None, waiting: false, ..self }
    }

    /// Programming a channel index: nothing is to be done if it is the one.
    pub open spec fn channel_step(self, index: u8) -> (State, Option<Op>) {
        if self.tx_channel == Some(index) {
            (self, None)
        } else {
            (
                State { tx_channel: Some(index), ..self },
                Some(Op::Call(Call::MacaSetChannel { index })),
            )
        }
    }

    /// A poll of a transmission: a status decides, then a cancellation, and otherwise the task
    /// waits.
    pub open spec fn transmit_step(self) -> (State, Progress<bool>) {
        match self.tx_status {
            Some(status) => (
                State { tx_status: None, waiting: false, ..self },
                Progress::Ready(status == SUCCESS),
            ),
            None => if self.cancelled {
                (State { cancelled: false, ..self }, Progress::Ready(false))
            } else {
                (State { waiting: true, ..self }, Progress::Pending)
            },
        }
    }

    /// The state once a frame was received.
    pub open spec fn rx_event(self) -> State {
        State { rx_pending: (self.rx_pending + 1) as u32, waiting: false, ..self }
    }

    /// The state once a transmission was completed.
    pub open spec fn tx_event(self, status: u32) -> State {
        State { tx_status: Some(status), waiting: false, ..self }
    }
}

/// What a poll of a receive operation asks for.
#[derive(Debug, Copy, Clone, PartialEq, Eq, Structural)]
pub enum ReceiveStep {
    /// The operation was cancelled: it is done, without a frame.
    Cancelled,
    /// No frame is waiting: store the task's waker and ask again when woken.
    Wait,
    /// A frame is waiting: take a packet from the queue, and go on with
    /// [`Mc1322xRadio::receive_popped`].
    PopPacket,
}

/// What becomes of a received packet.
#[derive(Debug, Copy, Clone, PartialEq, Eq, Structural)]
pub enum Delivery {
    /// There was none: store the task's waker and ask again when woken.
    Wait,
    /// No buffer is prepared: free the packet; the operation is done, without a frame.
    Drop,
    /// Copy the packet into the buffer at this address and free it; the operation is done, with a
    /// frame.
    Into(usize),
}

/// What is to be sent.
#[derive(Debug)]
pub struct Queued {
    /// The channel call to make first, if any.
    pub channel: Option<Op>,
    /// The PSDU to copy into the packet, which is then queued.
    pub psdu: Vec<u8>,
}

/// Counts and marks for whoever looks at the driver from outside.
#[derive(Debug, Copy, Clone, PartialEq, Eq, Structural)]
pub struct Diagnostics {
    /// Whether a callback has run.
    pub irq_seen: bool,
    /// Lowest stack pointer seen in a callback; 0 until the first one runs.
    pub irq_min_sp_seen: u32,
    /// Polls of a preparation to transmit.
    pub prepare_transmit_polls: u32,
    /// Those of them that found no packet.
    pub prepare_transmit_no_packet: u32,
    /// One once a packet was found.
    pub prepare_transmit_got_packet: u32,
    /// Polls of a transmission.
    pub transmit_polls: u32,
    /// One more than the last status seen.
    pub transmit_status_seen: u32,
    /// One once a transmission was cancelled.
    pub transmit_cancelled_seen: u32,
}

/// One more, modulo 2^32.
pub open spec fn counted(n: u32) -> u32 {
    if n == u32::MAX {
        0
    } else {
        (n + 1) as u32
    }
}

impl Diagnostics {
    /// Nothing seen yet.
    pub open spec fn spec_new() -> Diagnostics {
        Diagnostics {
            irq_seen: false,
            irq_min_sp_seen: 0,
            prepare_transmit_polls: 0,
            prepare_transmit_no_packet: 0,
            prepare_transmit_got_packet: 0,
            transmit_polls: 0,
            transmit_status_seen: 0,
            transmit_cancelled_seen: 0,
        }
    }

    /// With a stack pointer seen in a callback.
    pub open spec fn with_sp(self, sp: u32) -> Diagnostics {
        Diagnostics {
            irq_seen: true,
            irq_min_sp_seen: if !self.irq_seen || sp < self.irq_min_sp_seen {
                sp
            } else {
                self.irq_min_sp_seen
            },
            ..self
        }
    }

    /// With a poll of a preparation to transmit.
    pub open spec fn with_prepare(self, claimed: bool) -> Diagnostics {
        Diagnostics {
            prepare_transmit_polls: counted(self.prepare_transmit_polls),
            prepare_transmit_no_packet: if claimed {
                self.prepare_transmit_no_packet
            } else {
                counted(self.prepare_transmit_no_packet)
            },
            prepare_transmit_got_packet: if claimed {
                1
            } else {
                self.prepare_transmit_got_packet
            },
            ..self
        }
    }

    /// With a poll of a transmission.
    pub open spec fn with_transmit(self, state: State) -> Diagnostics {
        Diagnostics {
            transmit_polls: counted(self.transmit_polls),
            transmit_status_seen: match state.tx_status {
                Some(status) => counted(status),
                None => self.transmit_status_seen,
            },
            transmit_cancelled_seen: if state.tx_status is None && state.cancelled {
                1
            } else {
                self.transmit_cancelled_seen
            },
            ..self
        }
    }

    /// Note a stack pointer seen in a callback.
    pub fn record_irq_sp(&mut self, sp: u32)
        ensures
            *final(self) == old(self).with_sp(sp),
    {
        if !self.irq_seen || sp < self.irq_min_sp_seen {
            self.irq_min_sp_seen = sp;
        }
        self.irq_seen = true;
    }
}

/// The PSDU that a buffer holds for sending: as long as its PHR says, cut to the largest PSDU and
/// to the buffer. An empty buffer holds an empty one.
pub open spec fn psdu_to_send(bytes: Seq<u8>) -> Seq<u8> {
    if bytes.len() == 0 {
        Seq::empty()
    } else {
        let wanted = phr_length(bytes[0]);
        let capped = if wanted <= MAX_PSDU {
            wanted
        } else {
            MAX_PSDU as int
        };
        let length = if capped <= bytes.len() - 1 {
            capped
        } else {
            bytes.len() - 1
        };
        bytes.subrange(1, 1 + length)
    }
}

fn take_psdu(bytes: &[u8]) -> (psdu: Vec<u8>)
    ensures
        psdu@ == psdu_to_send(bytes@),
{
    if bytes.len() == 0 {
        return Vec::new();
    }
    let phr: usize = bytes[0] as usize;
    let mut length: usize = if phr >= 2 {
        phr - 2
    } else {
        0
    };
    if length > MAX_PSDU {
        length = MAX_PSDU;
    }
    if length > bytes.len() - 1 {
        length = bytes.len() - 1;
    }
    vstd::slice::slice_to_vec(vstd::slice::slice_subrange(bytes, 1, 1 + length))
}

/// How many bytes of a received packet are copied: its length, cut to the largest PSDU and to
/// the space for it.
pub open spec fn copied_length(length: u8, space: int) -> int {
    let capped = if length <= MAX_PSDU {
        length as int
    } else {
        MAX_PSDU as int
    };
    if capped <= space {
        capped
    } else {
        space
    }
}

/// Copy the PSDU of a received packet, which starts behind the first byte of the packet's data.
/// Returns how many bytes were copied.
pub fn copy_received_psdu(length: u8, data: &[u8], dst: &mut [u8]) -> (copied: usize)
    requires
        data@.len() >= 1 + copied_length(length, old(dst)@.len() as int),
    ensures
        copied == copied_length(length, old(dst)@.len() as int),
        length <= 125 && length <= old(dst)@.len() ==> copied == length,
        final(dst)@ == data@.subrange(1, 1 + copied) + old(dst)@.skip(copied as int),
        final(dst)@.len() == old(dst)@.len(),
        forall|i: int| 0 <= i < copied ==> #[trigger] final(dst)@[i] == data@[1 + i],
        forall|i: int|
            copied <= i < old(dst)@.len() ==> #[trigger] final(dst)@[i] == old(dst)@[i],
{
    let mut copied: usize = length as usize;
    if copied > MAX_PSDU {
        copied = MAX_PSDU;
    }
    if copied > dst.len() {
        copied = dst.len();
    }
    let mut i: usize = 0;
    while i < copied
        invariant
            i <= copied,
            copied <= dst@.len(),
            dst@.len() == old(dst)@.len(),
            data@.len() >= 1 + copied,
            forall|k: int| 0 <= k < i ==> dst@[k] == data@[k + 1],
            forall|k: int| i <= k < dst@.len() ==> dst@[k] == old(dst)@[k],
        decreases copied - i,
    {
        dst[i] = data[i + 1];
        i = i + 1;
    }
    assert(dst@ =~= data@.subrange(1, 1 + copied) + old(dst)@.skip(copied as int));
    copied
}

/// Fill a buffer with a received packet: its PSDU, and the PHR that goes with it. Returns the
/// length of the PSDU.
pub fn deliver(length: u8, data: &[u8], buffer: &mut [u8; 128]) -> (delivered: usize)
    requires
        data@.len() >= 1 + copied_length(length, 127),
    ensures
        delivered == copied_length(length, 127),
        length <= 125 ==> delivered == length,
        length > 125 ==> delivered == 125,
        final(buffer)@[0] == delivered + 2,
        forall|i: int| 1 <= i <= delivered ==> #[trigger] final(buffer)@[i] == data@[i],
        psdu(final(buffer)@) == data@.subrange(1, 1 + delivered),
        final(buffer)@.skip(1 + delivered) == old(buffer)@.skip(1 + delivered),
{
    let ghost before = buffer@;
    let delivered: usize = {
        let bytes: &mut [u8] = buffer;
        let (_phr, region) = bytes.split_at_mut(1);
        copy_received_psdu(length, data, region)
    };
    let ghost copied = buffer@;
    buffer[0] = (delivered + 2) as u8;
    proof {
        assert(copied =~= before.take(1) + data@.subrange(1, 1 + delivered) + before.skip(
            1 + delivered,
        ));
        assert(psdu(buffer@) =~= data@.subrange(1, 1 + delivered));
        assert forall|i: int| 1 <= i <= delivered implies #[trigger] buffer@[i] == data@[i] by {
            assert(psdu(buffer@)[i - 1] == data@.subrange(1, 1 + delivered)[i - 1]);
        }
        assert(buffer@.skip(1 + delivered) =~= before.skip(1 + delivered));
    }
    delivered
}

/// The radio driver.
#[derive(Debug)]
pub struct Mc1322xRadio {
    /// The state of the driver.
    pub state: State,
    /// The IEEE 802.15.4 extended address.
    pub address: [u8; 8],
    /// Whether the radio was last turned on, rather than off.
    pub on: bool,
    /// Counts and marks.
    pub seen: Diagnostics,
}

impl Mc1322xRadio {
    /// A radio that has not been used yet.
    pub fn new() -> (radio: Mc1322xRadio)
        ensures
            radio.state == State::spec_new(),
            radio.address@ == Seq::new(8, |i: int| 0u8),
            radio.on,
            radio.seen == Diagnostics::spec_new(),
    {
        let radio = Mc1322xRadio {
            state: State {
                rx_buffer: None,
                rx_pending: 0,
                tx_status: None,
                tx_channel: None,
                cancelled: false,
                waiting: false,
                tx_in_flight: false,
            },
            address: [0u8; 8],
            on: true,
            seen: Diagnostics {
                irq_seen: false,
                irq_min_sp_seen: 0,
                prepare_transmit_polls: 0,
                prepare_transmit_no_packet: 0,
                prepare_transmit_got_packet: 0,
                transmit_polls: 0,
                transmit_status_seen: 0,
                transmit_cancelled_seen: 0,
            },
        };
        assert(radio.address@ =~= Seq::new(8, |i: int| 0u8));
        radio
    }

    /// Initialize the radio with its extended address: the program to run, which is empty where
    /// the flag says that someone has brought the block up already. May be done again, and then
    /// changes nothing but the address.
    pub fn init(
        &mut self,
        address: [u8; 8],
        ready: &mut portable_atomic::AtomicBool,
    ) -> (program: Vec<Op>)
        ensures
            final(self).address == address,
            final(self).state == old(self).state,
            final(self).on == old(self).on,
            final(self).seen == old(self).seen,
            program@ == bring_up_program(is_set(*old(ready))),
            is_set(*final(ready)),
    {
        self.address = address;
        ensure_maca_ready(ready)
    }

    /// The IEEE 802.15.4 extended address.
    pub fn ieee802154_address(&self) -> (address: [u8; 8])
        ensures
            address == self.address,
    {
        self.address
    }

    /// Nothing but the state differs.
    pub open spec fn only_state_differs(self, other: Mc1322xRadio) -> bool {
        &&& self.address == other.address
        &&& self.on == other.on
        &&& self.seen == other.seen
    }

    /// Program a channel index if another one is programmed: the call to make, if any.
    pub fn set_channel_index(&mut self, index: u8) -> (call: Option<Op>)
        ensures
            (final(self).state, call) == old(self).state.channel_step(index),
            final(self).only_state_differs(*old(self)),
    {
        match self.state.tx_channel {
            Some(programmed) => {
                if programmed == index {
                    return None;
                }
            },
            None => {},
        }
        self.state.tx_channel = Some(index);
        Some(Op::Call(Call::MacaSetChannel { index }))
    }

    /// Set the channel (11 to 26) for both directions: the call to make, if any.
    pub fn set_channel(&mut self, channel: u8) -> (call: Option<Op>)
        requires
            11 <= channel <= 26,
        ensures
            (final(self).state, call) == old(self).state.channel_step((channel - 11) as u8),
            final(self).only_state_differs(*old(self)),
    {
        self.set_channel_index(channel - 11)
    }

    /// Set the output power, an index into the power tables.
    pub fn set_output_power(&self, power: u8) -> (op: Op)
        requires
            power < POWER_LEVELS,
        ensures
            op == Op::Call(Call::MacaSetPower { power }),
    {
        Op::Call(Call::MacaSetPower { power })
    }

    /// Turn the radio off: the call to make.
    pub fn disable(&mut self) -> (op: Op)
        ensures
            op == Op::Call(Call::MacaOff),
            final(self).state == old(self).state.switched(),
            final(self).only_state_differs(*old(self)),
    {
        self.state.tx_channel = None;
        self.state.cancelled = false;
        self.state.rx_buffer = None;
        Op::Call(Call::MacaOff)
    }

    /// Turn the radio on: the call to make. It drops the programmed channel.
    pub fn enable(&mut self) -> (op: Op)
        ensures
            op == Op::Call(Call::MacaOn),
            final(self).state == old(self).state.switched(),
            final(self).only_state_differs(*old(self)),
    {
        self.state.tx_channel = None;
        self.state.cancelled = false;
        self.state.rx_buffer = None;
        Op::Call(Call::MacaOn)
    }

    /// Prepare to receive into the buffer at an address.
    pub fn prepare_receive(&mut self, buffer: usize)
        ensures
            final(self).state == old(self).state.prepared(buffer),
            final(self).only_state_differs(*old(self)),
    {
        self.state.rx_buffer = Some(buffer);
        self.state.cancelled = false;
    }

    /// Poll a receive operation.
    pub fn receive(&mut self) -> (step: ReceiveStep)
        ensures
            (final(self).state, step) == old(self).state.receive_step(),
            final(self).only_state_differs(*old(self)),
    {
        if self.state.cancelled {
            self.state.cancelled = false;
            self.state.waiting = false;
            self.state.rx_buffer = None;
            return ReceiveStep::Cancelled;
        }
        if self.state.rx_pending == 0 {
            self.state.waiting = true;
            return ReceiveStep::Wait;
        }
        ReceiveStep::PopPacket
    }

    /// Go on with a receive operation, from whether the packet queue gave a packet.
    pub fn receive_popped(&mut self, popped: bool) -> (delivery: Delivery)
        requires
            old(self).state.rx_pending > 0,
        ensures
            (final(self).state, delivery) == old(self).state.popped_step(popped),
            final(self).only_state_differs(*old(self)),
    {
        if !popped {
            self.state.waiting = true;
            return Delivery::Wait;
        }
        self.state.rx_pending = self.state.rx_pending - 1;
        self.state.waiting = false;
        let buffer: Option<usize> = self.state.rx_buffer;
        self.state.rx_buffer = None;
        match buffer {
            None => Delivery::Drop,
            Some(address) => Delivery::Into(address),
        }
    }

    /// A receive operation was abandoned before it was done, or is over.
    pub fn drop_receive(&mut self)
        ensures
            final(self).state == old(self).state.abandoned(),
            final(self).only_state_differs(*old(self)),
    {
        self.state.rx_buffer = None;
        self.state.waiting = false;
        self.state.cancelled = false;
    }

    /// Poll a preparation to transmit the frame in a buffer on a channel, from whether the pool
    /// gave a free packet: with one, what is to be sent; without, the task waits.
    pub fn prepare_transmit(&mut self, channel: u8, claimed: bool, bytes: &[u8]) -> (queued: Option<
        Queued,
    >)
        requires
            channel >= 11,
        ensures
            final(self).address == old(self).address,
            final(self).on == old(self).on,
            final(self).seen == old(self).seen.with_prepare(claimed),
            ({
                let fresh = State { cancelled: false, ..old(self).state };
                if claimed {
                    &&& queued matches Some(frame) && frame.psdu@ == psdu_to_send(bytes@) && (
                        final(self).state,
                        frame.channel,
                    ) == fresh.channel_step((channel - 11) as u8)
                } else {
                    &&& queued is None
                    &&& final(self).state == (State { waiting: true, ..fresh })
                }
            }),
    {
        self.state.cancelled = false;
        self.seen.prepare_transmit_polls = self.seen.prepare_transmit_polls.wrapping_add(1);
        if !claimed {
            let misses: u32 = self.seen.prepare_transmit_no_packet;
            self.seen.prepare_transmit_no_packet = misses.wrapping_add(1);
            self.state.waiting = true;
            return None;
        }
        self.seen.prepare_transmit_got_packet = 1;
        let call: Option<Op> = self.set_channel_index(channel - 11);
        Some(Queued { channel: call, psdu: take_psdu(bytes) })
    }

    /// Poll a transmission: whether it was successful, once that is known.
    pub fn transmit(&mut self) -> (progress: Progress<bool>)
        ensures
            (final(self).state, progress) == old(self).state.transmit_step(),
            final(self).address == old(self).address,
            final(self).on == old(self).on,
            final(self).seen == old(self).seen.with_transmit(old(self).state),
    {
        self.seen.transmit_polls = self.seen.transmit_polls.wrapping_add(1);
        match self.state.tx_status {
            Some(status) => {
                self.state.tx_status = None;
                self.state.waiting = false;
                self.seen.transmit_status_seen = status.wrapping_add(1);
                Progress::Ready(status == SUCCESS)
            },
            None => {
                if self.state.cancelled {
                    self.state.cancelled = false;
                    self.seen.transmit_cancelled_seen = 1;
                    Progress::Ready(false)
                } else {
                    self.state.waiting = true;
                    Progress::Pending
                }
            },
        }
    }

    /// Poll a preparation and a transmission as one operation, from whether the pool gave a free
    /// packet where one was needed: what is to be sent, if anything, and how far the operation
    /// is.
    pub fn prepare_and_transmit(
        &mut self,
        operation: &mut PrepareAndTransmit,
        claimed: bool,
        bytes: &[u8],
    ) -> (polled: (Option<Queued>, Progress<bool>))
        requires
            old(operation).channel >= 11,
        ensures
            final(self).only_state_differs(*old(self)),
            final(operation).channel == old(operation).channel,
            final(operation).queued == (old(operation).queued || claimed),
            ({
                let fresh = State { cancelled: false, ..old(self).state };
                let (programmed, call) = fresh.channel_step((old(operation).channel - 11) as u8);
                if old(operation).queued {
                    &&& polled.0 is None
                    &&& (final(self).state, polled.1) == old(self).state.transmit_step()
                } else if claimed {
                    &&& polled.0 matches Some(frame) && frame.psdu@ == psdu_to_send(bytes@)
                        && frame.channel == call
                    &&& (final(self).state, polled.1) == programmed.transmit_step()
                } else {
                    &&& polled.0 is None
                    &&& polled.1 is Pending
                    &&& final(self).state == (State { waiting: true, ..fresh })
                }
            }),
    {
        let mut frame: Option<Queued> = None;
        if !operation.queued {
            self.state.cancelled = false;
            if !claimed {
                self.state.waiting = true;
                return (None, Progress::Pending);
            }
            let call: Option<Op> = self.set_channel_index(operation.channel - 11);
            frame = Some(Queued { channel: call, psdu: take_psdu(bytes) });
            operation.queued = true;
        }
        match self.state.tx_status {
            Some(status) => {
                self.state.tx_status = None;
                self.state.waiting = false;
                (frame, Progress::Ready(status == SUCCESS))
            },
            None => {
                if self.state.cancelled {
                    self.state.cancelled = false;
                    (frame, Progress::Ready(false))
                } else {
                    self.state.waiting = true;
                    (frame, Progress::Pending)
                }
            },
        }
    }

    /// Cancel whatever operation is pending. Returns whether a task is to be woken.
    pub fn cancel_current_operation(&mut self) -> (wake: bool)
        ensures
            final(self).state == old(self).state.cancel_step(),
            wake == old(self).state.waiting,
            final(self).only_state_differs(*old(self)),
    {
        let wake: bool = self.state.waiting;
        self.state.cancelled = true;
        self.state.tx_status = None;
        self.state.waiting = false;
        wake
    }

    /// A frame was received. Returns whether a task is to be woken.
    pub fn maca_rx_callback(&mut self, sp: u32) -> (wake: bool)
        requires
            old(self).state.rx_pending < u32::MAX,
        ensures
            final(self).state == old(self).state.rx_event(),
            wake == old(self).state.waiting,
            final(self).address == old(self).address,
            final(self).on == old(self).on,
            final(self).seen == old(self).seen.with_sp(sp),
    {
        self.seen.record_irq_sp(sp);
        let wake: bool = self.state.waiting;
        self.state.rx_pending = self.state.rx_pending + 1;
        self.state.waiting = false;
        wake
    }

    /// A transmission was completed with a status. Returns whether a task is to be woken.
    pub fn maca_tx_callback(&mut self, sp: u32, status: u8) -> (wake: bool)
        ensures
            final(self).state == old(self).state.tx_event(status as u32),
            wake == old(self).state.waiting,
            final(self).address == old(self).address,
            final(self).on == old(self).on,
            final(self).seen == old(self).seen.with_sp(sp),
    {
        self.seen.record_irq_sp(sp);
        let wake: bool = self.state.waiting;
        self.state.tx_status = Some(status as u32);
        self.state.waiting = false;
        wake
    }

    /// Begin to send a MAC frame: the buffer that is to be transmitted, or why the frame has no
    /// encoding, in which case the hardware is not touched.
    pub fn send_frame(&self, frame: ieee802154::mac::Frame<'_>) -> (buffer: Result<
        [u8; 128],
        CodecError,
    >)
        ensures
            match mac_octets(frame, MAX_PSDU as int) {
                Ok(octets) => buffer matches Ok(bytes) && holds_octets(
                    Seq::new(128, |i: int| 0u8),
                    bytes@,
                    octets,
                ),
                Err(error) => buffer matches Err(given) && given == error,
            },
    {
        let mut buffer: [u8; 128] = [0u8; 128];
        assert(buffer@ =~= Seq::new(128, |i: int| 0u8));
        match write_frame(&mut buffer, frame) {
            Ok(_) => Ok(buffer),
            Err(error) => Err(error),
        }
    }

    /// Finish receiving a MAC frame: nothing where no frame came, and otherwise the frame in the
    /// buffer, or why it is none.
    pub fn receive_frame<'a>(&self, received: bool, buffer: &'a [u8; 128]) -> (frame: Result<
        Option<ieee802154::mac::Frame<'a>>,
        CodecError,
    >)
        ensures
            frame == (if !received {
                Ok(None)
            } else {
                match mac_frame(psdu(buffer@)) {
                    Ok((decoded, _)) => Ok(Some(decoded)),
                    Err(error) => Err(error),
                }
            }),
    {
        if !received {
            return Ok(None);
        }
        match read_frame(buffer) {
            Ok((frame, _)) => Ok(Some(frame)),
            Err(error) => Err(error),
        }
    }
}

/// A preparation and a transmission as one operation.
#[derive(Debug, Copy, Clone, PartialEq, Eq, Structural)]
pub struct PrepareAndTransmit {
    /// The channel.
    pub channel: u8,
    /// Whether the frame was queued.
    pub queued: bool,
}

impl PrepareAndTransmit {
    /// Begin.
    pub fn new(channel: u8) -> (operation: PrepareAndTransmit)
        requires
            channel >= 11,
        ensures
            operation == (PrepareAndTransmit { channel, queued: false }),
    {
        PrepareAndTransmit { channel, queued: false }
    }

    /// Whether a poll needs to claim a packet first.
    pub fn needs_packet(&self) -> (needs: bool)
        ensures
            needs == !self.queued,
    {
        !self.queued
    }
}

/// A cancelled receive operation is done at its next poll, without a frame, and leaves neither a
/// cancellation nor a buffer behind.
pub proof fn law_cancelled_receive_ends(state: State)
    ensures
        ({
            let (after, step) = state.cancel_step().receive_step();
            &&& step == ReceiveStep::Cancelled
            &&& !after.cancelled
            &&& !after.waiting
            &&& after.rx_buffer is None
        }),
{
}

/// A cancelled transmission is done at its next poll, as a failure, whatever status had arrived
/// before, and leaves no cancellation and no status behind. The status of the cancelled frame
/// itself can still arrive later, and is then taken for that of the transmission that waits.
pub proof fn law_cancelled_transmission_ends(state: State, late: u32)
    ensures
        ({
            let (after, progress) = state.cancel_step().transmit_step();
            &&& progress == Progress::Ready(false)
            &&& !after.cancelled
            &&& after.transmit_step().1 == Progress::<bool>::Pending
            &&& after.tx_event(late).transmit_step().1 == Progress::Ready(late == SUCCESS)
        }),
{
}

/// A cancellation that nobody took up does not reach the operation that is prepared next.
pub proof fn law_preparation_forgets_cancellation(state: State, buffer: usize)
    ensures
        state.cancel_step().prepared(buffer).receive_step().1 != ReceiveStep::Cancelled,
        !state.cancel_step().prepared(buffer).cancelled,
{
}

/// A prepared buffer receives at most one frame: once something was delivered into it, or the
/// operation was cancelled or abandoned, or the radio was switched, no later packet is delivered
/// into it.
pub proof fn law_buffer_is_used_once(state: State, buffer: usize, popped: State, delivery: Delivery)
    requires
        state.rx_pending > 0,
        state.rx_buffer == Some(buffer),
        (popped, delivery) == state.popped_step(true),
    ensures
        delivery == Delivery::Into(buffer),
        popped.popped_step(true).1 == Delivery::Drop,
        state.abandoned().popped_step(true).1 == Delivery::Drop,
        state.switched().popped_step(true).1 == Delivery::Drop,
        state.cancel_step().receive_step().0.popped_step(true).1 == Delivery::Drop,
{
}

/// Abandoning a receive operation that is over changes nothing more.
pub proof fn law_abandoning_is_idempotent(state: State)
    ensures
        state.abandoned().abandoned() == state.abandoned(),
        state.cancel_step().receive_step().0.abandoned()
            == state.cancel_step().receive_step().0,
{
}

/// A channel is programmed exactly where it changes: asking for it again does nothing, and after
/// the radio was switched, asking for any channel programs it.
pub proof fn law_channel_is_programmed_once(state: State, index: u8)
    ensures
        state.channel_step(index).0.tx_channel == Some(index),
        state.channel_step(index).0.channel_step(index) == (
            state.channel_step(index).0,
            None::<Op>,
        ),
        state.switched().channel_step(index).1 == Some(Op::Call(Call::MacaSetChannel { index })),
{
}

/// A received frame is counted until it is taken: one event and one packet taken leave the count
/// as it was.
pub proof fn law_frames_are_counted(state: State)
    requires
        state.rx_pending < u32::MAX,
    ensures
        state.rx_event().rx_pending == state.rx_pending + 1,
        state.rx_event().popped_step(true).0.rx_pending == state.rx_pending,
        !state.cancelled ==> state.rx_event().receive_step().1 == ReceiveStep::PopPacket,
{
}

/// A completed transmission is reported once, as success exactly if its status says so.
pub proof fn law_status_is_reported_once(state: State, status: u32)
    ensures
        ({
            let (after, progress) = state.tx_event(status).transmit_step();
            &&& progress == Progress::Ready(status == SUCCESS)
            &&& after.tx_status is None
        }),
{
}

/// What was delivered into a buffer is, byte for byte, what sending the same buffer sends.
pub proof fn law_delivered_is_sendable(buffer: Seq<u8>, received: Seq<u8>)
    requires
        buffer.len() == 128,
        received.len() <= MAX_PSDU,
        buffer[0] == received.len() + 2,
        psdu(buffer) == received,
    ensures
        psdu_to_send(buffer) == received,
{
}

/// The stack pointer that is kept is the lowest of all that were seen, and none before the first:
/// the first is kept whatever it is, and every other only if it is lower.
pub proof fn law_lowest_stack_pointer_is_kept(seen: Diagnostics, sp: u32)
    ensures
        Diagnostics::spec_new().irq_min_sp_seen == 0,
        Diagnostics::spec_new().with_sp(sp).irq_min_sp_seen == sp,
        seen.irq_seen ==> {
            let kept = seen.with_sp(sp).irq_min_sp_seen;
            &&& kept <= seen.irq_min_sp_seen && kept <= sp
            &&& kept == seen.irq_min_sp_seen || kept == sp
        },
        seen.with_sp(sp).irq_seen,
{
}

/// A received packet is copied whole wherever it is no longer than the largest PSDU and the space
/// for it; otherwise as much of it is copied as the tighter of the two allows.
pub proof fn law_packet_is_copied_whole(length: u8, space: int)
    requires
        0 <= space,
    ensures
        length <= 125 && length <= space ==> copied_length(length, space) == length,
        space < length && space <= 125 ==> copied_length(length, space) == space,
        length > 125 && space >= 125 ==> copied_length(length, space) == 125,
{
}

/// A packet of up to 125 bytes that was delivered into a buffer stands there byte for byte behind
/// a PHR that counts it and its checksum, and nothing behind it was touched: the buffer is the one
/// that the sender of the packet would have sent.
pub proof fn law_delivery_loses_nothing(
    length: u8,
    data: Seq<u8>,
    before: Seq<u8>,
    after: Seq<u8>,
    delivered: int,
)
    requires
        length <= 125,
        data.len() > length,
        before.len() == 128,
        after.len() == 128,
        delivered == copied_length(length, 127),
        after[0] == delivered + 2,
        psdu(after) == data.subrange(1, 1 + delivered),
        after.skip(1 + delivered) == before.skip(1 + delivered),
    ensures
        delivered == length,
        after[0] == length + 2,
        forall|i: int| 1 <= i <= length ==> #[trigger] after[i] == data[i],
        forall|i: int| length < i < 128 ==> #[trigger] after[i] == before[i],
        psdu_to_send(after) == data.subrange(1, 1 + length),
{
    assert forall|i: int| 1 <= i <= length implies #[trigger] after[i] == data[i] by {
        assert(psdu(after)[i - 1] == data.subrange(1, 1 + delivered)[i - 1]);
    }
    assert forall|i: int| length < i < 128 implies #[trigger] after[i] == before[i] by {
        let behind = 1 + delivered;
        assert(after.skip(behind)[i - behind] == before.skip(behind)[i - behind]);
    }
    assert(psdu_to_send(after) =~= data.subrange(1, 1 + length));
}

/// What is sent of a buffer is what stands behind its PHR, in order and from its first byte on:
/// two bytes less than the PHR says, at most 125, and never more than the buffer holds.
pub proof fn law_sent_bytes_follow_the_phr(bytes: Seq<u8>)
    ensures
        bytes.len() == 0 ==> psdu_to_send(bytes).len() == 0,
        bytes.len() > 0 && bytes[0] < 2 ==> psdu_to_send(bytes).len() == 0,
        bytes.len() > 0 && 2 <= bytes[0] <= 127 && bytes[0] <= bytes.len() + 1 ==> psdu_to_send(
            bytes,
        ).len() + 2 == bytes[0],
        bytes.len() >= 126 && bytes[0] > 127 ==> psdu_to_send(bytes).len() == 125,
        0 < bytes.len() < 126 && bytes[0] > bytes.len() + 1 ==> psdu_to_send(bytes).len() + 1
            == bytes.len(),
        forall|i: int|
            0 <= i < psdu_to_send(bytes).len() ==> #[trigger] psdu_to_send(bytes)[i] == bytes[1
                + i],
{
}

/// What is received does not concern sending, and the other way round: receiving and its events
/// leave the status of a transmission, the channel and a transmission under way as they are, and
/// a transmission and its events leave the buffer and the count of waiting frames.
pub proof fn law_directions_are_independent(
    state: State,
    buffer: usize,
    popped: bool,
    status: u32,
    index: u8,
)
    ensures
        forall|after: State|
            after == state.prepared(buffer) || after == state.receive_step().0 || after
                == state.popped_step(popped).0 || after == state.abandoned() || after
                == state.rx_event() ==> (#[trigger] after.tx_status) == state.tx_status
                && after.tx_channel == state.tx_channel && after.tx_in_flight
                == state.tx_in_flight,
        forall|after: State|
            after == state.transmit_step().0 || after == state.tx_event(status) || after
                == state.channel_step(index).0 || after == state.cancel_step() ==> (
            #[trigger] after.rx_buffer) == state.rx_buffer && after.rx_pending == state.rx_pending
                && after.tx_in_flight == state.tx_in_flight,
        state.switched().rx_pending == state.rx_pending,
        state.switched().tx_status == state.tx_status,
        state.switched().waiting == state.waiting,
        state.switched().tx_in_flight == state.tx_in_flight,
        state.cancel_step().tx_channel == state.tx_channel,
        state.tx_event(status).tx_channel == state.tx_channel,
        state.transmit_step().0.tx_channel == state.tx_channel,
        state.channel_step(index).0.tx_status == state.tx_status,
        state.channel_step(index).0.cancelled == state.cancelled,
        state.channel_step(index).0.waiting == state.waiting,
        state.rx_event().cancelled == state.cancelled,
        state.rx_event().rx_buffer == state.rx_buffer,
        state.tx_event(status).cancelled == state.cancelled,
        state.prepared(buffer).rx_pending == state.rx_pending,
        state.prepared(buffer).waiting == state.waiting,
        state.abandoned().rx_pending == state.rx_pending,
{
}

/// A receive operation waits exactly where it is not cancelled and no frame is there, and then
/// keeps its buffer; it never loses count of a frame that it does not take.
pub proof fn law_receive_waits_for_a_frame(state: State)
    ensures
        state.receive_step().1 == ReceiveStep::Cancelled <==> state.cancelled,
        state.receive_step().1 == ReceiveStep::Wait <==> !state.cancelled && state.rx_pending == 0,
        state.receive_step().1 == ReceiveStep::PopPacket <==> !state.cancelled && state.rx_pending
            > 0,
        state.receive_step().0.rx_pending == state.rx_pending,
        !state.receive_step().0.cancelled,
        !state.cancelled ==> state.receive_step().0.rx_buffer == state.rx_buffer,
        state.receive_step().1 == ReceiveStep::Wait ==> state.receive_step().0.waiting,
        state.receive_step().1 == ReceiveStep::PopPacket ==> state.receive_step().0 == state,
        state.cancelled ==> !state.receive_step().0.waiting && state.receive_step().0.rx_buffer
            is None,
{
}

/// A packet goes into the prepared buffer, if there is one, and uses it up, together with one of
/// the frames that wait. Where the queue gave none after all, the operation waits on, with its
/// buffer and the count unchanged.
pub proof fn law_packet_goes_into_the_prepared_buffer(state: State, buffer: usize)
    requires
        state.rx_pending > 0,
    ensures
        state.prepared(buffer).rx_buffer == Some(buffer),
        !state.prepared(buffer).cancelled,
        state.prepared(buffer).popped_step(true).1 == Delivery::Into(buffer),
        state.rx_buffer is None ==> state.popped_step(true).1 == Delivery::Drop,
        state.popped_step(true).0.rx_buffer is None,
        state.popped_step(true).0.rx_pending + 1 == state.rx_pending,
        !state.popped_step(true).0.waiting,
        state.popped_step(true).0.cancelled == state.cancelled,
        state.popped_step(false).1 == Delivery::Wait,
        state.popped_step(false).0.waiting,
        state.popped_step(false).0.rx_buffer == state.rx_buffer,
        state.popped_step(false).0.rx_pending == state.rx_pending,
        state.popped_step(false).0.cancelled == state.cancelled,
{
}

/// A transmission is over exactly once its status has come or it was cancelled, with success
/// exactly for status zero, and otherwise waits; what ended it is used up.
pub proof fn law_transmission_waits_for_its_status(state: State)
    ensures
        state.transmit_step().1 is Pending <==> state.tx_status is None && !state.cancelled,
        state.transmit_step().1 == Progress::Ready(true) <==> state.tx_status == Some(0u32),
        state.transmit_step().1 is Pending ==> state.transmit_step().0.waiting,
        state.transmit_step().0.tx_status is None,
        state.tx_status is Some ==> state.transmit_step().0.cancelled == state.cancelled
            && !state.transmit_step().0.waiting,
        state.tx_status is None ==> !state.transmit_step().0.cancelled,
        state.tx_status is None && state.cancelled ==> state.transmit_step().0.waiting
            == state.waiting,
{
}

/// Every event of the hardware, and every cancellation, ends a wait: whoever waited is woken, and
/// nobody is taken to wait any longer.
pub proof fn law_events_end_a_wait(state: State, status: u32)
    ensures
        !state.rx_event().waiting,
        !state.tx_event(status).waiting,
        !state.cancel_step().waiting,
        !state.abandoned().waiting,
        state.tx_event(status).tx_status == Some(status),
        state.cancel_step().cancelled,
        state.cancel_step().tx_status is None,
        state.abandoned().rx_buffer is None,
        !state.abandoned().cancelled,
        state.switched().tx_channel is None,
        state.switched().rx_buffer is None,
        !state.switched().cancelled,
{
}

/// A driver that has not been used yet waits for nothing, holds nothing and knows no channel.
pub proof fn law_fresh_driver_is_idle()
    ensures
        ({
            let state = State::spec_new();
            &&& state.rx_buffer is None && state.tx_status is None && state.tx_channel is None
            &&& state.rx_pending == 0
            &&& !state.cancelled && !state.waiting && !state.tx_in_flight
        }),
        ({
            let seen = Diagnostics::spec_new();
            &&& !seen.irq_seen && seen.irq_min_sp_seen == 0
            &&& seen.prepare_transmit_polls == 0 && seen.prepare_transmit_no_packet == 0
            &&& seen.prepare_transmit_got_packet == 0 && seen.transmit_polls == 0
            &&& seen.transmit_status_seen == 0 && seen.transmit_cancelled_seen == 0
        }),
{
}

/// Every poll is counted in its own count and in no other: a preparation among the preparations,
/// and among those without a packet if it found none; a transmission among the transmissions.
/// Counts start over after 2^32 polls.
pub proof fn law_polls_are_counted(seen: Diagnostics, state: State, claimed: bool, sp: u32)
    ensures
        ({
            let after = seen.with_prepare(claimed);
            &&& after.prepare_transmit_polls == (seen.prepare_transmit_polls + 1) % 0x1_0000_0000
            &&& after.prepare_transmit_no_packet == (seen.prepare_transmit_no_packet + (if claimed {
                0int
            } else {
                1int
            })) % 0x1_0000_0000
            &&& claimed ==> after.prepare_transmit_got_packet == 1
            &&& !claimed ==> after.prepare_transmit_got_packet == seen.prepare_transmit_got_packet
            &&& after.irq_seen == seen.irq_seen && after.irq_min_sp_seen == seen.irq_min_sp_seen
            &&& after.transmit_polls == seen.transmit_polls
            &&& after.transmit_status_seen == seen.transmit_status_seen
            &&& after.transmit_cancelled_seen == seen.transmit_cancelled_seen
        }),
        ({
            let after = seen.with_transmit(state);
            &&& after.transmit_polls == (seen.transmit_polls + 1) % 0x1_0000_0000
            &&& state.tx_status matches Some(status) ==> after.transmit_status_seen == (status + 1)
                % 0x1_0000_0000 && after.transmit_cancelled_seen == seen.transmit_cancelled_seen
            &&& state.tx_status is None ==> after.transmit_status_seen == seen.transmit_status_seen
            &&& state.tx_status is None && state.cancelled ==> after.transmit_cancelled_seen == 1
            &&& !state.cancelled ==> after.transmit_cancelled_seen == seen.transmit_cancelled_seen
            &&& after.irq_seen == seen.irq_seen && after.irq_min_sp_seen == seen.irq_min_sp_seen
            &&& after.prepare_transmit_polls == seen.prepare_transmit_polls
            &&& after.prepare_transmit_no_packet == seen.prepare_transmit_no_packet
            &&& after.prepare_transmit_got_packet == seen.prepare_transmit_got_packet
        }),
        ({
            let after = seen.with_sp(sp);
            &&& after.prepare_transmit_polls == seen.prepare_transmit_polls
            &&& after.prepare_transmit_no_packet == seen.prepare_transmit_no_packet
            &&& after.prepare_transmit_got_packet == seen.prepare_transmit_got_packet
            &&& after.transmit_polls == seen.transmit_polls
            &&& after.transmit_status_seen == seen.transmit_status_seen
            &&& after.transmit_cancelled_seen == seen.transmit_cancelled_seen
        }),
{
}

/// Where two drivers differ in nothing but their state, they have the same address, the same
/// switch and the same counts.
pub proof fn law_only_the_state_differs(one: Mc1322xRadio, other: Mc1322xRadio)
    ensures
        one.only_state_differs(other) <==> one.address == other.address && one.on == other.on
            && one.seen == other.seen,
{
}

} // verus!
