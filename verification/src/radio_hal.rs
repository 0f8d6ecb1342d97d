//! The radio as a device that is polled: nothing waits, and every operation starts or checks
//! something.
use crate::layout::MAX_PSDU;
use crate::port::{Call, Op};
use crate::radio::{copied_length, copy_received_psdu, Mc1322xRadio, State, SUCCESS};
use vstd::prelude::*;

verus! {

/// Why an operation failed.
#[derive(Debug, Copy, Clone, PartialEq, Eq, Structural)]
pub enum Error {
    /// No free packet was available, or no received packet is queued.
    Busy,
    /// Transmission completed with this status other than success.
    Transmit(u32),
    /// The channel is outside of 11 to 26.
    InvalidChannel,
}

/// Whether the radio is on, and thus receiving, or off.
#[derive(Debug, Copy, Clone, PartialEq, Eq, Structural)]
pub enum Mc1322xRadioState {
    /// On.
    Idle,
    /// Off.
    Sleep,
}

impl Mc1322xRadioState {
    /// The state of a radio that is on.
    pub fn idle() -> (state: Mc1322xRadioState)
        ensures
            state == Mc1322xRadioState::Idle,
    {
        Mc1322xRadioState::Idle
    }

    /// The state of a radio that is off.
    pub fn sleep() -> (state: Mc1322xRadioState)
        ensures
            state == Mc1322xRadioState::Sleep,
    {
        Mc1322xRadioState::Sleep
    }
}

/// The signal strength in dBm that a link quality stands for: a third of it, less a hundred.
pub open spec fn rssi_dbm(lqi: u8) -> int {
    lqi as int / 3 - 100
}

/// The signal strength in dBm that a link quality stands for.
pub fn lqi_to_rssi_dbm(lqi: u8) -> (dbm: i16)
    ensures
        dbm == rssi_dbm(lqi),
        -100 <= dbm <= -15,
{
    (lqi / 3) as i16 - 100
}

/// What is known of a received packet.
#[derive(Debug, Copy, Clone, PartialEq, Eq, Structural)]
pub struct Info {
    /// Link quality.
    pub lqi: u8,
}

impl Default for Info {
    fn default() -> (info: Info)
        ensures
            info.lqi == 0,
    {
        Info { lqi: 0 }
    }
}

impl Info {
    /// The signal strength of the packet in dBm.
    pub fn rssi(&self) -> (dbm: i16)
        ensures
            dbm == rssi_dbm(self.lqi),
    {
        lqi_to_rssi_dbm(self.lqi)
    }
}

/// Typical output power of each power level, in tenths of a dBm.
pub open spec fn power_table() -> Seq<int> {
    seq![
        -300int,
        -280int,
        -270int,
        -260int,
        -240int,
        -210int,
        -190int,
        -170int,
        -160int,
        -150int,
        -110int,
        -100int,
        -45int,
        -30int,
        -15int,
        -10int,
        17int,
        30int,
    ]
}

/// How far a power level is from a power in dBm, in tenths of a dBm.
pub open spec fn power_distance(level: int, power: i8) -> int {
    let difference = power_table()[level] - power * 10;
    if difference < 0 {
        -difference
    } else {
        difference
    }
}

/// `level` is the first of the power levels that are closest to a power in dBm.
pub open spec fn is_closest_level(level: int, power: i8) -> bool {
    &&& 0 <= level < 18
    &&& forall|other: int|
        0 <= other < 18 ==> power_distance(level, power) <= #[trigger] power_distance(other, power)
    &&& forall|other: int|
        0 <= other < level ==> power_distance(level, power) < #[trigger] power_distance(
            other,
            power,
        )
}

fn closest_level(power: i8) -> (level: u8)
    ensures
        is_closest_level(level as int, power),
{
    let table: [i16; 18] = [
        -300, -280, -270, -260, -240, -210, -190, -170, -160, -150, -110, -100, -45, -30, -15, -10,
        17, 30,
    ];
    let target: i16 = power as i16 * 10;
    assert(forall|i: int| 0 <= i < 18 ==> #[trigger] table@[i] == power_table()[i]);
    assert(forall|i: int| 0 <= i < 18 ==> -300 <= #[trigger] power_table()[i] <= 30);
    let mut best: usize = 0;
    let mut best_distance: i16 = if table[0] < target {
        target - table[0]
    } else {
        table[0] - target
    };
    let mut i: usize = 1;
    while i < 18
        invariant
            1 <= i <= 18,
            best < i,
            target == power * 10,
            -1280 <= target <= 1270,
            forall|k: int| 0 <= k < 18 ==> #[trigger] table@[k] == power_table()[k],
            forall|k: int| 0 <= k < 18 ==> -300 <= #[trigger] power_table()[k] <= 30,
            best_distance == power_distance(best as int, power),
            forall|k: int|
                0 <= k < i ==> power_distance(best as int, power) <= #[trigger] power_distance(
                    k,
                    power,
                ),
            forall|k: int|
                0 <= k < best ==> power_distance(best as int, power) < #[trigger] power_distance(
                    k,
                    power,
                ),
        decreases 18 - i,
    {
        assert(table@[i as int] == power_table()[i as int]);
        let distance: i16 = if table[i] < target {
            target - table[i]
        } else {
            table[i] - target
        };
        assert(distance == power_distance(i as int, power));
        if distance < best_distance {
            best = i;
            best_distance = distance;
        }
        i = i + 1;
    }
    best as u8
}

/// One power level is the first of the closest.
pub proof fn law_closest_level_is_unique(a: int, b: int, power: i8)
    requires
        is_closest_level(a, power),
        is_closest_level(b, power),
    ensures
        a == b,
{
    if a < b {
        assert(power_distance(b, power) < power_distance(a, power));
    } else if b < a {
        assert(power_distance(a, power) < power_distance(b, power));
    }
}

/// Asking for exactly the power of a level selects that level.
pub proof fn law_exact_power_is_met(level: int, chosen: int, power: i8)
    requires
        0 <= level < 18,
        power_table()[level] == power * 10,
        is_closest_level(chosen, power),
    ensures
        chosen == level,
{
    assert(power_distance(level, power) == 0);
    assert(power_distance(chosen, power) <= power_distance(level, power));
}

/// The state that was last asked for.
pub open spec fn reported_state(radio: Mc1322xRadio) -> Mc1322xRadioState {
    if radio.on {
        Mc1322xRadioState::Idle
    } else {
        Mc1322xRadioState::Sleep
    }
}

/// A PSDU, cut to the largest.
pub open spec fn cut(data: Seq<u8>) -> Seq<u8> {
    if data.len() <= MAX_PSDU {
        data
    } else {
        data.take(MAX_PSDU as int)
    }
}

/// A packet that was taken from the queue.
#[derive(Debug)]
pub struct Packet {
    /// Length of its PSDU.
    pub length: u8,
    /// Link quality.
    pub lqi: u8,
    /// Its data; the PSDU starts behind the first byte.
    pub data: Vec<u8>,
}

/// The state of the driver once a transmission was started, where the pool gave a packet for it.
pub open spec fn start_step(state: State, claimed: bool) -> State {
    State { cancelled: false, tx_in_flight: state.tx_in_flight || claimed, ..state }
}

/// A check of a transmission: a status ends it, and is handed over.
pub open spec fn check_step(state: State) -> (State, Result<bool, Error>) {
    match state.tx_status {
        None => (state, Ok(false)),
        Some(status) => (
            State { tx_status: None, tx_in_flight: false, ..state },
            if status == SUCCESS {
                Ok(true)
            } else {
                Err(Error::Transmit(status))
            },
        ),
    }
}

/// From its start until its status is handed over, a transmission keeps the radio busy, and it
/// is neither complete before the status arrives nor complete twice. A status that an earlier
/// transmission left behind would be taken for that of this one.
pub proof fn law_transmission_is_busy_until_checked(state: State, status: u32)
    requires
        state.tx_status is None,
    ensures
        ({
            let started = start_step(state, true);
            let completed = started.tx_event(status);
            let (checked, outcome) = check_step(completed);
            &&& started.tx_in_flight
            &&& check_step(started) == (started, Ok::<bool, Error>(false))
            &&& completed.tx_in_flight
            &&& outcome == (if status == SUCCESS {
                Ok::<bool, Error>(true)
            } else {
                Err(Error::Transmit(status))
            })
            &&& !checked.tx_in_flight
            &&& check_step(checked) == (checked, Ok::<bool, Error>(false))
        }),
{
}

/// A radio that was put into a state reports that state, until it is put into another.
pub proof fn law_state_is_remembered(radio: Mc1322xRadio, state: Mc1322xRadioState)
    requires
        radio.on == (state is Idle),
    ensures
        reported_state(radio) == state,
{
}

impl Mc1322xRadio {
    /// Set the output power to the documented level that is closest to a power in dBm, the first of
    /// several: the call to make.
    pub fn set_power(&self, power: i8) -> (op: Op)
        ensures
            op matches Op::Call(Call::MacaSetPower { power: level }) && is_closest_level(
                level as int,
                power,
            ),
    {
        let level: u8 = closest_level(power);
        self.set_output_power(level)
    }

    /// The signal strength of the last packet, from its link quality.
    pub fn poll_rssi(&self, lqi: u8) -> (dbm: i16)
        ensures
            dbm == rssi_dbm(lqi),
    {
        lqi_to_rssi_dbm(lqi)
    }

    /// Turn the radio on or off: the call to make.
    pub fn set_state(&mut self, state: Mc1322xRadioState) -> (op: Op)
        ensures
            op == Op::Call(
                match state {
                    Mc1322xRadioState::Idle => Call::MacaOn,
                    Mc1322xRadioState::Sleep => Call::MacaOff,
                },
            ),
            final(self).state == old(self).state.switched(),
            final(self).on == (state is Idle),
            final(self).address == old(self).address,
            final(self).seen == old(self).seen,
    {
        match state {
            Mc1322xRadioState::Idle => {
                let op: Op = self.enable();
                self.on = true;
                op
            },
            Mc1322xRadioState::Sleep => {
                let op: Op = self.disable();
                self.on = false;
                op
            },
        }
    }

    /// The state that was last asked for.
    pub fn get_state(&self) -> (state: Mc1322xRadioState)
        ensures
            state == reported_state(*self),
    {
        if self.on {
            Mc1322xRadioState::Idle
        } else {
            Mc1322xRadioState::Sleep
        }
    }

    /// Set the channel: the call to make, if any, or an error outside of 11 to 26.
    pub fn try_set_channel(&mut self, channel: u8) -> (call: Result<Option<Op>, Error>)
        ensures
            final(self).only_state_differs(*old(self)),
            if 11 <= channel <= 26 {
                call matches Ok(made) && (final(self).state, made) == old(self).state.channel_step(
                    (channel - 11) as u8,
                )
            } else {
                &&& call == Err::<Option<Op>, Error>(Error::InvalidChannel)
                &&& final(self).state == old(self).state
            },
    {
        if channel < 11 || channel > 26 {
            return Err(Error::InvalidChannel);
        }
        Ok(self.set_channel_index(channel - 11))
    }

    /// Whether a transmission is under way.
    pub fn is_busy(&self) -> (busy: bool)
        ensures
            busy == self.state.tx_in_flight,
    {
        self.state.tx_in_flight
    }

    /// Start to transmit a PSDU on the channel that is programmed, from whether the pool gave a
    /// free packet: what is to be copied into it, or an error without one.
    pub fn start_transmit(&mut self, claimed: bool, data: &[u8]) -> (psdu: Result<Vec<u8>, Error>)
        ensures
            final(self).only_state_differs(*old(self)),
            final(self).state == start_step(old(self).state, claimed),
            if claimed {
                psdu matches Ok(bytes) && bytes@ == cut(data@)
            } else {
                psdu matches Err(error) && error == Error::Busy
            },
    {
        self.state.cancelled = false;
        if !claimed {
            return Err(Error::Busy);
        }
        self.state.tx_in_flight = true;
        if data.len() <= MAX_PSDU {
            Ok(vstd::slice::slice_to_vec(data))
        } else {
            Ok(vstd::slice::slice_to_vec(vstd::slice::slice_subrange(data, 0, MAX_PSDU)))
        }
    }

    /// Check whether a transmission is complete. A status other than success is an error.
    pub fn check_transmit(&mut self) -> (complete: Result<bool, Error>)
        ensures
            final(self).only_state_differs(*old(self)),
            (final(self).state, complete) == check_step(old(self).state),
    {
        match self.state.tx_status {
            Some(status) => {
                self.state.tx_status = None;
                self.state.tx_in_flight = false;
                if status == SUCCESS {
                    Ok(true)
                } else {
                    Err(Error::Transmit(status))
                }
            },
            None => Ok(false),
        }
    }

    /// Start to receive. The radio receives at all times, so only a stale cancellation is
    /// forgotten.
    pub fn start_receive(&mut self)
        ensures
            final(self).only_state_differs(*old(self)),
            final(self).state == (State { cancelled: false, ..old(self).state }),
    {
        self.state.cancelled = false;
    }

    /// Check whether a frame was received.
    pub fn check_receive(&self) -> (received: bool)
        ensures
            received == (self.state.rx_pending > 0),
    {
        self.state.rx_pending > 0
    }

    /// Take a received frame, from the packet that the queue gave, which is asked only if
    /// [`Mc1322xRadio::check_receive`] holds: how many bytes were copied and what is known of the
    /// packet, or an error without one.
    pub fn get_received(&mut self, packet: &Option<Packet>, buff: &mut [u8]) -> (got: Result<
        (usize, Info),
        Error,
    >)
        requires
            packet matches Some(popped) ==> popped.data@.len() >= 1 + copied_length(
                popped.length,
                old(buff)@.len() as int,
            ),
        ensures
            final(self).only_state_differs(*old(self)),
            match (old(self).state.rx_pending > 0, *packet) {
                (true, Some(popped)) => {
                    let copied = copied_length(popped.length, old(buff)@.len() as int);
                    &&& got matches Ok((count, info)) && count == copied && info.lqi == popped.lqi
                    &&& final(buff)@ == popped.data@.subrange(1, 1 + copied) + old(buff)@.skip(
                        copied,
                    )
                    &&& final(self).state == (State {
                        rx_pending: (old(self).state.rx_pending - 1) as u32,
                        ..old(self).state
                    })
                },
                _ => {
                    &&& got == Err::<(usize, Info), Error>(Error::Busy)
                    &&& final(buff)@ == old(buff)@
                    &&& final(self).state == old(self).state
                },
            },
    {
        if self.state.rx_pending == 0 {
            return Err(Error::Busy);
        }
        match packet {
            None => Err(Error::Busy),
            Some(popped) => {
                self.state.rx_pending = self.state.rx_pending - 1;
                let copied: usize = copy_received_psdu(popped.length, popped.data.as_slice(), buff);
                Ok((copied, Info { lqi: popped.lqi }))
            },
        }
    }
}

/// The signal strength rises by one dBm with every third step of the link quality, from -100 dBm
/// for none to -15 dBm for the best.
pub proof fn law_three_steps_are_one_dbm(lqi: u8)
    ensures
        3 * (rssi_dbm(lqi) + 100) <= lqi < 3 * (rssi_dbm(lqi) + 100) + 3,
        rssi_dbm(0) == -100,
        rssi_dbm(255) == -15,
{
}

/// The eighteen levels rise from -30 dBm to 3 dBm, each with the power that is documented for it,
/// in tenths of a dBm.
pub proof fn law_power_levels_rise()
    ensures
        power_table() == seq![
            -300int,
            -280,
            -270,
            -260,
            -240,
            -210,
            -190,
            -170,
            -160,
            -150,
            -110,
            -100,
            -45,
            -30,
            -15,
            -10,
            17,
            30,
        ],
        forall|a: int, b: int|
            0 <= a < b < power_table().len() ==> #[trigger] power_table()[a]
                < #[trigger] power_table()[b],
{
}

/// No level is closer to the power that was asked for than the one that is chosen, and of the
/// levels that are as close it is the lowest; a power beyond either end gets the level at that end.
pub proof fn law_no_level_is_closer(level: int, other: int, power: i8)
    requires
        is_closest_level(level, power),
        0 <= other < 18,
    ensures
        0 <= level < 18,
        ({
            let near = power_table()[level] - 10 * power;
            let far = power_table()[other] - 10 * power;
            &&& near <= far || near <= -far
            &&& -near <= far || -near <= -far
            &&& other < level ==> near != far && near != -far
        }),
        power <= -30 ==> level == 0,
        power >= 3 ==> level == 17,
{
    assert(power_distance(level, power) <= power_distance(other, power));
    if other < level {
        assert(power_distance(level, power) < power_distance(other, power));
    }
    if power <= -30 {
        assert(power_distance(level, power) <= power_distance(0, power));
    }
    if power >= 3 {
        assert(power_distance(level, power) <= power_distance(17, power));
    }
}

/// A PSDU of up to 125 bytes is sent whole, and of a longer one the first 125 bytes.
pub proof fn law_psdu_is_sent_whole(data: Seq<u8>)
    ensures
        data.len() <= 125 ==> cut(data) == data,
        data.len() > 125 ==> cut(data).len() == 125,
        forall|i: int| 0 <= i < cut(data).len() ==> #[trigger] cut(data)[i] == data[i],
{
}

/// Starting and checking a transmission concern nothing but the transmission: what was received,
/// the channel and who waits stay as they are. Starting forgets a cancellation, and without a
/// packet starts nothing; checking hands over a status once, whatever it is.
pub proof fn law_starting_and_checking_leave_the_rest(state: State, claimed: bool)
    ensures
        ({
            let after = start_step(state, claimed);
            &&& after.rx_buffer == state.rx_buffer && after.rx_pending == state.rx_pending
            &&& after.tx_status == state.tx_status && after.tx_channel == state.tx_channel
            &&& after.waiting == state.waiting
            &&& !after.cancelled
            &&& claimed ==> after.tx_in_flight
            &&& !claimed ==> after.tx_in_flight == state.tx_in_flight
        }),
        ({
            let (after, outcome) = check_step(state);
            &&& after.rx_buffer == state.rx_buffer && after.rx_pending == state.rx_pending
            &&& after.tx_channel == state.tx_channel && after.waiting == state.waiting
            &&& after.cancelled == state.cancelled
            &&& after.tx_status is None
            &&& state.tx_status is Some ==> !after.tx_in_flight
            &&& state.tx_status is None ==> after == state && outcome == Ok::<bool, Error>(false)
            &&& state.tx_status == Some(0u32) ==> outcome == Ok::<bool, Error>(true)
            &&& state.tx_status matches Some(status) ==> status != 0 ==> outcome == Err::<
                bool,
                Error,
            >(Error::Transmit(status))
        }),
{
}

} // verus!
