use ieee802154::mac::{
    Address, Frame, FrameContent, FrameType, FrameVersion, Header, PanId, ShortAddress,
};
use mc1322x::layout::{psdu_view, CodecError};
use mc1322x::port::{Call, Op, Progress};
use mc1322x::radio::{
    copy_received_psdu, deliver, Delivery, Mc1322xRadio, PrepareAndTransmit, ReceiveStep,
};
use mc1322x::radio_hal::{lqi_to_rssi_dbm, Error, Info, Mc1322xRadioState, Packet};
use portable_atomic::AtomicBool;

fn acknowledgement(payload: &[u8]) -> Frame<'_> {
    Frame {
        header: Header {
            frame_type: FrameType::Data,
            frame_pending: false,
            ack_request: false,
            pan_id_compress: false,
            seq_no_suppress: false,
            ie_present: false,
            version: FrameVersion::Ieee802154_2003,
            seq: 0x42,
            destination: Some(Address::Short(PanId(1), ShortAddress(2))),
            source: None,
            auxiliary_security_header: None,
        },
        content: FrameContent::Data,
        payload,
        footer: [0, 0],
    }
}

#[test]
fn the_address_is_kept() {
    let mut ready = AtomicBool::new(false);
    let mut radio = Mc1322xRadio::new();
    assert_eq!(radio.ieee802154_address(), [0; 8]);
    let program = radio.init([1, 2, 3, 4, 5, 6, 7, 8], &mut ready);
    assert_eq!(program.len(), 8);
    assert_eq!(program[7], Op::Call(Call::MacaInit));
    assert_eq!(radio.ieee802154_address(), [1, 2, 3, 4, 5, 6, 7, 8]);
    assert!(radio.init([9; 8], &mut ready).is_empty());
    assert_eq!(radio.ieee802154_address(), [9; 8]);
}

#[test]
fn a_channel_is_programmed_once() {
    let mut radio = Mc1322xRadio::new();
    let call = |index| Some(Op::Call(Call::MacaSetChannel { index }));
    assert_eq!(radio.set_channel(11), call(0));
    assert_eq!(radio.set_channel(11), None);
    assert_eq!(radio.set_channel(26), call(15));
    assert_eq!(radio.enable(), Op::Call(Call::MacaOn));
    assert_eq!(radio.set_channel(26), call(15));
    assert_eq!(radio.disable(), Op::Call(Call::MacaOff));
    assert_eq!(radio.set_channel(26), call(15));
    assert_eq!(radio.set_output_power(18), Op::Call(Call::MacaSetPower { power: 18 }));
}

#[test]
fn a_frame_is_received_into_the_prepared_buffer() {
    let mut radio = Mc1322xRadio::new();
    radio.prepare_receive(0x1000);
    assert_eq!(radio.receive(), ReceiveStep::Wait);
    assert!(radio.maca_rx_callback(0x400));
    assert_eq!(radio.receive(), ReceiveStep::PopPacket);
    assert_eq!(radio.receive_popped(true), Delivery::Into(0x1000));
    assert_eq!(radio.receive(), ReceiveStep::Wait);
}

#[test]
fn a_buffer_is_used_once() {
    let mut radio = Mc1322xRadio::new();
    radio.prepare_receive(0x1000);
    radio.maca_rx_callback(0);
    radio.maca_rx_callback(0);
    assert_eq!(radio.receive(), ReceiveStep::PopPacket);
    assert_eq!(radio.receive_popped(true), Delivery::Into(0x1000));
    assert_eq!(radio.receive(), ReceiveStep::PopPacket);
    assert_eq!(radio.receive_popped(true), Delivery::Drop);
    assert_eq!(radio.state.rx_pending, 0);
}

#[test]
fn an_empty_queue_makes_the_task_wait() {
    let mut radio = Mc1322xRadio::new();
    radio.prepare_receive(1);
    radio.maca_rx_callback(0);
    assert_eq!(radio.receive(), ReceiveStep::PopPacket);
    assert_eq!(radio.receive_popped(false), Delivery::Wait);
    assert!(radio.state.waiting);
    assert_eq!(radio.state.rx_pending, 1);
    assert_eq!(radio.state.rx_buffer, Some(1));
}

#[test]
fn a_cancelled_receive_ends_without_a_frame() {
    let mut radio = Mc1322xRadio::new();
    radio.prepare_receive(0x1000);
    assert_eq!(radio.receive(), ReceiveStep::Wait);
    assert!(radio.cancel_current_operation());
    assert!(!radio.cancel_current_operation());
    assert_eq!(radio.receive(), ReceiveStep::Cancelled);
    assert_eq!(radio.state.rx_buffer, None);
    assert_eq!(radio.receive(), ReceiveStep::Wait);
}

#[test]
fn a_new_operation_forgets_a_cancellation() {
    let mut radio = Mc1322xRadio::new();
    radio.cancel_current_operation();
    radio.prepare_receive(7);
    assert_eq!(radio.receive(), ReceiveStep::Wait);
    radio.cancel_current_operation();
    assert!(radio.prepare_transmit(11, true, &[2]).is_some());
    assert_eq!(radio.transmit(), Progress::Pending);
}

#[test]
fn an_abandoned_receive_leaves_nothing_behind() {
    let mut radio = Mc1322xRadio::new();
    radio.prepare_receive(0x1000);
    radio.receive();
    radio.cancel_current_operation();
    radio.drop_receive();
    assert_eq!(radio.state, Mc1322xRadio::new().state);
    radio.maca_rx_callback(0);
    assert_eq!(radio.receive(), ReceiveStep::PopPacket);
    assert_eq!(radio.receive_popped(true), Delivery::Drop);
}

#[test]
fn a_frame_is_queued_with_its_channel() {
    let mut radio = Mc1322xRadio::new();
    assert!(radio.prepare_transmit(15, false, &[5, 1, 2, 3]).is_none());
    assert!(radio.state.waiting);
    let queued = radio.prepare_transmit(15, true, &[5, 1, 2, 3, 9]).unwrap();
    assert_eq!(queued.channel, Some(Op::Call(Call::MacaSetChannel { index: 4 })));
    assert_eq!(queued.psdu, vec![1, 2, 3]);
    let again = radio.prepare_transmit(15, true, &[4, 1, 2]).unwrap();
    assert_eq!(again.channel, None);
    assert_eq!(radio.seen.prepare_transmit_polls, 3);
    assert_eq!(radio.seen.prepare_transmit_no_packet, 1);
    assert_eq!(radio.seen.prepare_transmit_got_packet, 1);
}

#[test]
fn the_length_to_send_is_cut() {
    let mut radio = Mc1322xRadio::new();
    let mut psdu = |bytes: &[u8]| radio.prepare_transmit(11, true, bytes).unwrap().psdu;
    assert_eq!(psdu(&[]), Vec::<u8>::new());
    assert_eq!(psdu(&[200, 1, 2]), vec![1, 2]);
    assert_eq!(psdu(&[1, 1, 2]), Vec::<u8>::new());
    assert_eq!(psdu(&[255; 200]).len(), 125);
}

#[test]
fn a_transmission_reports_its_status_once() {
    let mut radio = Mc1322xRadio::new();
    assert_eq!(radio.transmit(), Progress::Pending);
    assert!(radio.maca_tx_callback(0x200, 0));
    assert_eq!(radio.transmit(), Progress::Ready(true));
    assert_eq!(radio.transmit(), Progress::Pending);
    assert!(radio.maca_tx_callback(0x300, 12));
    assert_eq!(radio.transmit(), Progress::Ready(false));
    assert_eq!(radio.seen.transmit_polls, 4);
    assert_eq!(radio.seen.transmit_status_seen, 13);
    assert_eq!(radio.seen.irq_min_sp_seen, 0x200);
}

#[test]
fn a_cancelled_transmission_fails() {
    let mut radio = Mc1322xRadio::new();
    radio.maca_tx_callback(0, 0);
    radio.cancel_current_operation();
    assert_eq!(radio.transmit(), Progress::Ready(false));
    assert_eq!(radio.transmit(), Progress::Pending);
    assert_eq!(radio.seen.transmit_cancelled_seen, 1);
}

#[test]
fn both_halves_can_be_one_operation() {
    let mut radio = Mc1322xRadio::new();
    let mut operation = PrepareAndTransmit::new(12);
    assert!(operation.needs_packet());
    let (queued, progress) = radio.prepare_and_transmit(&mut operation, false, &[3, 9]);
    assert!(queued.is_none());
    assert_eq!(progress, Progress::Pending);
    let (queued, progress) = radio.prepare_and_transmit(&mut operation, true, &[3, 9]);
    let queued = queued.unwrap();
    assert_eq!(queued.psdu, vec![9]);
    assert_eq!(queued.channel, Some(Op::Call(Call::MacaSetChannel { index: 1 })));
    assert_eq!(progress, Progress::Pending);
    assert!(!operation.needs_packet());
    radio.maca_tx_callback(0, 0);
    let (queued, progress) = radio.prepare_and_transmit(&mut operation, false, &[3, 9]);
    assert!(queued.is_none());
    assert_eq!(progress, Progress::Ready(true));
}

#[test]
fn a_packet_is_copied_behind_its_first_byte() {
    let data: Vec<u8> = (0..130).map(|i| i as u8).collect();
    let mut dst = [0xEEu8; 4];
    assert_eq!(copy_received_psdu(3, &data, &mut dst), 3);
    assert_eq!(dst, [1, 2, 3, 0xEE]);
    assert_eq!(copy_received_psdu(9, &data, &mut dst), 4);
    let mut buffer = [0xEEu8; 128];
    assert_eq!(deliver(2, &data, &mut buffer), 2);
    assert_eq!(&buffer[..4], &[4, 1, 2, 0xEE]);
    assert_eq!(psdu_view(&buffer), &[1, 2]);
    assert_eq!(deliver(255, &data, &mut buffer), 125);
    assert_eq!(buffer[0], 127);
    assert_eq!(buffer[125], 125);
    assert_eq!(buffer[126], 0xEE);
}

#[test]
fn what_was_delivered_can_be_sent() {
    let data: Vec<u8> = (0..130).map(|i| i as u8).collect();
    let mut buffer = [0u8; 128];
    deliver(40, &data, &mut buffer);
    let queued = Mc1322xRadio::new().prepare_transmit(11, true, &buffer).unwrap();
    assert_eq!(queued.psdu, data[1..41].to_vec());
}

#[test]
fn mac_frames_go_through_the_buffer() {
    let radio = Mc1322xRadio::new();
    let frame = acknowledgement(&[1, 2, 3]);
    let buffer = radio.send_frame(frame).unwrap();
    assert_eq!(buffer[0], 12);
    assert_eq!(&buffer[1..11], &[0x01, 0x08, 0x42, 1, 0, 2, 0, 1, 2, 3]);
    assert_eq!(buffer[11..], [0u8; 117]);
    assert_eq!(radio.receive_frame(true, &buffer).unwrap(), Some(frame));
    assert_eq!(radio.receive_frame(false, &buffer).unwrap(), None);
    assert!(matches!(radio.receive_frame(true, &[0; 128]), Err(CodecError::Incomplete)));
    assert!(matches!(
        radio.send_frame(acknowledgement(&[0; 119])),
        Err(CodecError::Incomplete)
    ));
}

#[test]
fn link_quality_becomes_signal_strength() {
    assert_eq!(lqi_to_rssi_dbm(0), -100);
    assert_eq!(lqi_to_rssi_dbm(255), -15);
    assert_eq!(lqi_to_rssi_dbm(100), -67);
    assert_eq!(Mc1322xRadio::new().poll_rssi(5), -99);
    assert_eq!(Info { lqi: 30 }.rssi(), -90);
    assert_eq!(Info::default().lqi, 0);
}

#[test]
fn the_closest_power_level_is_chosen() {
    let radio = Mc1322xRadio::new();
    let level = |power| match radio.set_power(power) {
        Op::Call(Call::MacaSetPower { power }) => power,
        other => panic!("{:?}", other),
    };
    assert_eq!(level(-30), 0);
    assert_eq!(level(-128), 0);
    assert_eq!(level(3), 17);
    assert_eq!(level(127), 17);
    assert_eq!(level(0), 15);
    assert_eq!(level(1), 16);
    assert_eq!(level(-1), 15);
    // Half way between two levels, the lower one.
    assert_eq!(level(-29), 0);
    assert_eq!(level(-25), 3);
    assert_eq!(level(-20), 5);
    assert_eq!(level(-18), 6);
    assert_eq!(level(-13), 9);
}

#[test]
fn the_state_is_remembered() {
    let mut radio = Mc1322xRadio::new();
    assert_eq!(radio.get_state(), Mc1322xRadioState::idle());
    assert_eq!(radio.set_state(Mc1322xRadioState::Sleep), Op::Call(Call::MacaOff));
    assert_eq!(radio.get_state(), Mc1322xRadioState::sleep());
    assert_eq!(radio.set_state(Mc1322xRadioState::Idle), Op::Call(Call::MacaOn));
    assert_eq!(radio.get_state(), Mc1322xRadioState::Idle);
}

#[test]
fn channels_outside_the_band_are_errors() {
    let mut radio = Mc1322xRadio::new();
    assert_eq!(radio.try_set_channel(10), Err(Error::InvalidChannel));
    assert_eq!(radio.try_set_channel(27), Err(Error::InvalidChannel));
    assert_eq!(
        radio.try_set_channel(20),
        Ok(Some(Op::Call(Call::MacaSetChannel { index: 9 })))
    );
    assert_eq!(radio.try_set_channel(20), Ok(None));
}

#[test]
fn a_polled_transmission_is_busy_until_it_is_checked() {
    let mut radio = Mc1322xRadio::new();
    assert_eq!(radio.start_transmit(false, &[1]), Err(Error::Busy));
    assert!(!radio.is_busy());
    assert_eq!(radio.start_transmit(true, &[1, 2]), Ok(vec![1, 2]));
    assert!(radio.is_busy());
    assert_eq!(radio.check_transmit(), Ok(false));
    radio.maca_tx_callback(0, 0);
    assert!(radio.is_busy());
    assert_eq!(radio.check_transmit(), Ok(true));
    assert!(!radio.is_busy());
    radio.start_transmit(true, &[3; 200]).unwrap();
    radio.maca_tx_callback(0, 5);
    assert_eq!(radio.check_transmit(), Err(Error::Transmit(5)));
    assert_eq!(radio.start_transmit(true, &[3; 200]).unwrap().len(), 125);
}

#[test]
fn a_polled_reception_takes_a_packet() {
    let mut radio = Mc1322xRadio::new();
    let packet = Some(Packet { length: 3, lqi: 77, data: vec![9, 1, 2, 3] });
    let mut buff = [0u8; 5];
    radio.start_receive();
    assert!(!radio.check_receive());
    assert_eq!(radio.get_received(&packet, &mut buff), Err(Error::Busy));
    radio.maca_rx_callback(0);
    assert!(radio.check_receive());
    assert_eq!(radio.get_received(&None, &mut buff), Err(Error::Busy));
    assert!(radio.check_receive());
    assert_eq!(radio.get_received(&packet, &mut buff), Ok((3, Info { lqi: 77 })));
    assert_eq!(buff, [1, 2, 3, 0, 0]);
    assert!(!radio.check_receive());
}

#[test]
fn a_cancelled_transmission_fails_and_its_status_may_come_late() {
    let mut radio = Mc1322xRadio::new();
    assert!(radio.prepare_transmit(11, true, &[2]).is_some());
    assert_eq!(radio.transmit(), Progress::Pending);
    radio.cancel_current_operation();
    assert_eq!(radio.transmit(), Progress::Ready(false));
    assert_eq!(radio.transmit(), Progress::Pending);
    radio.maca_tx_callback(0, 0);
    assert_eq!(radio.transmit(), Progress::Ready(true));
}

#[test]
fn the_lowest_stack_pointer_is_kept() {
    let mut radio = Mc1322xRadio::new();
    assert_eq!(radio.seen.irq_min_sp_seen, 0);
    radio.maca_rx_callback(0x300);
    assert_eq!(radio.seen.irq_min_sp_seen, 0x300);
    radio.maca_tx_callback(0x400, 0);
    assert_eq!(radio.seen.irq_min_sp_seen, 0x300);
    radio.maca_tx_callback(0x200, 0);
    assert_eq!(radio.seen.irq_min_sp_seen, 0x200);
    radio.maca_rx_callback(0);
    radio.maca_rx_callback(0x100);
    assert_eq!(radio.seen.irq_min_sp_seen, 0);
}
