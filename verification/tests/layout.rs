use ieee802154::mac::{
    Address, Frame, FrameContent, FrameType, FrameVersion, Header, PanId, ShortAddress,
};
use mc1322x::layout::{
    frame_length, psdu_region, psdu_view, read_frame, set_frame_length, write_frame, CodecError,
    Mc1322xFrame, Mc1322xRxToken, Mc1322xTxToken,
};

fn data_frame(payload: &[u8]) -> Frame<'_> {
    Frame {
        header: Header {
            frame_type: FrameType::Data,
            frame_pending: false,
            ack_request: false,
            pan_id_compress: false,
            seq_no_suppress: false,
            ie_present: false,
            version: FrameVersion::Ieee802154_2006,
            seq: 1,
            destination: Some(Address::Short(PanId(0x1234), ShortAddress(0x5678))),
            source: Some(Address::Short(PanId(0x4321), ShortAddress(0x9abc))),
            auxiliary_security_header: None,
        },
        content: FrameContent::Data,
        payload,
        footer: [0, 0],
    }
}

const OCTETS: [u8; 13] =
    [0x01, 0x98, 0x01, 0x34, 0x12, 0x78, 0x56, 0x21, 0x43, 0xbc, 0x9a, 0xde, 0xf0];

#[test]
fn the_phr_counts_the_checksum() {
    let mut buffer = [0u8; 128];
    set_frame_length(&mut buffer, 125);
    assert_eq!(buffer[0], 127);
    assert_eq!(frame_length(&buffer), 125);
    set_frame_length(&mut buffer, 0);
    assert_eq!(buffer[0], 2);
    assert_eq!(frame_length(&buffer), 0);
    set_frame_length(&mut buffer, 255);
    assert_eq!(buffer[0], 1);
    assert_eq!(frame_length(&buffer), 0);
}

#[test]
fn lengths_round_trip() {
    for length in 0..=253 {
        let mut buffer = [9u8; 128];
        set_frame_length(&mut buffer, length);
        assert_eq!(frame_length(&buffer), length);
        assert_eq!(&buffer[1..], &[9u8; 127][..]);
    }
}

#[test]
fn the_region_is_the_view() {
    let mut buffer = [0u8; 128];
    set_frame_length(&mut buffer, 3);
    psdu_region(&mut buffer).copy_from_slice(&[7, 8, 9]);
    assert_eq!(psdu_view(&buffer), &[7, 8, 9]);
    assert_eq!(buffer[0], 5);
    assert_eq!(buffer[4], 0);
    buffer[0] = 255;
    assert_eq!(psdu_view(&buffer).len(), 127);
    assert_eq!(psdu_region(&mut buffer).len(), 127);
    buffer[0] = 0;
    assert_eq!(psdu_view(&buffer).len(), 0);
}

#[test]
fn frames_are_checked() {
    assert_eq!(Mc1322xFrame::new_checked(&[4, 1, 2]).unwrap().data(), &[1, 2]);
    assert_eq!(Mc1322xFrame::new_checked(&[2]).unwrap().data().len(), 0);
    assert!(Mc1322xFrame::new_checked(&[5, 1, 2]).is_err());
    assert!(Mc1322xFrame::new_checked(&[1, 1, 2]).is_err());
    assert!(Mc1322xFrame::new_checked(&[128; 200]).is_err());
    assert!(Mc1322xFrame::new_checked(&[127; 126]).is_ok());
    assert!(Mc1322xFrame::new_checked(&[127; 125]).is_err());
    assert_eq!(Mc1322xFrame::new_unchecked(&[9, 1, 2]).data(), &[1, 2]);
    let mut bytes = [4, 1, 2, 3];
    Mc1322xFrame::data_mut(&mut bytes)[1] = 7;
    assert_eq!(bytes, [4, 1, 7, 3]);
}

#[test]
fn tokens_hand_out_the_psdu() {
    let mut buffer = [0u8; 128];
    let token = Mc1322xTxToken { buffer: &mut buffer };
    token.consume(2).copy_from_slice(&[5, 6]);
    assert_eq!(&buffer[..4], &[4, 5, 6, 0]);
    assert_eq!(Mc1322xFrame::new_checked(&buffer).unwrap().data(), &[5, 6]);
    let token = Mc1322xRxToken { buffer: &mut buffer };
    assert_eq!(token.consume(), &[5, 6]);
    let token = Mc1322xTxToken { buffer: &mut buffer };
    assert_eq!(token.consume(1000).len(), 125);
    assert_eq!(buffer[0], 127);
}

#[test]
fn a_mac_frame_is_encoded_behind_its_phr() {
    let mut buffer = [0xEEu8; 128];
    assert_eq!(write_frame(&mut buffer, data_frame(&[0xde, 0xf0])).unwrap(), 13);
    assert_eq!(buffer[0], 15);
    assert_eq!(psdu_view(&buffer), &OCTETS);
    assert_eq!(buffer[14], 0xEE);
}

#[test]
fn what_was_encoded_is_decoded() {
    let mut buffer = [0u8; 128];
    let payload: Vec<u8> = (0..100).collect();
    let frame = data_frame(&payload);
    assert_eq!(write_frame(&mut buffer, frame).unwrap(), 111);
    let (decoded, length) = read_frame(&buffer).unwrap();
    assert_eq!(length, 111);
    assert_eq!(decoded, frame);
}

#[test]
fn a_frame_that_does_not_fit_leaves_the_phr() {
    let payload = [0u8; 115];
    let mut buffer = [0x11u8; 128];
    assert!(matches!(
        write_frame(&mut buffer, data_frame(&payload)),
        Err(CodecError::Incomplete)
    ));
    assert_eq!(buffer[0], 0x11);
    assert_eq!(&buffer[126..], &[0x11, 0x11]);
    let mut buffer = [0u8; 128];
    assert_eq!(write_frame(&mut buffer, data_frame(&payload[..114])).unwrap(), 125);
    assert_eq!(buffer[0], 127);
}

#[test]
fn a_frame_without_an_encoding_is_refused() {
    let mut frame = data_frame(&[]);
    frame.header.pan_id_compress = true;
    frame.header.source = None;
    let mut buffer = [0u8; 128];
    assert!(matches!(write_frame(&mut buffer, frame), Err(CodecError::BadInput(_))));
    assert_eq!(buffer[0], 0);
}

#[test]
fn octets_that_are_no_frame_are_refused() {
    let mut buffer = [0u8; 128];
    set_frame_length(&mut buffer, 3);
    buffer[1] = 0x04;
    assert!(matches!(read_frame(&buffer), Err(CodecError::BadInput(_))));
    set_frame_length(&mut buffer, 1);
    assert!(matches!(read_frame(&buffer), Err(CodecError::Incomplete)));
}
