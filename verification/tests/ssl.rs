use mc1322x::nvm::{Error, NorFlashErrorKind, Nvm, NvmCall};
use mc1322x::ssl::{
    committed, debug_hex_u32, erased, handle, probe_report, read_back, receive, send_confirm,
    send_frame, send_read_response, written, FrameEvent, FrameReader, Step, CRC_ERROR, EXEC_ERROR,
    READ_ERROR, SUCCESS, WRITE_ERROR,
};

fn nvm() -> Nvm {
    Nvm { interface: 0, nvm_type: 1 }
}

/// Every event but the ones that say nothing.
fn feed(reader: &mut FrameReader, bytes: &[u8]) -> Vec<FrameEvent> {
    let mut events = Vec::new();
    for byte in bytes {
        match reader.read_frame(*byte) {
            FrameEvent::More => {}
            event => events.push(event),
        }
    }
    events
}

fn sent(step: Step) -> Vec<u8> {
    match step {
        Step::Send(bytes) => bytes,
        other => panic!("{:?}", other),
    }
}

#[test]
fn a_frame_has_start_length_command_and_sum() {
    assert_eq!(send_frame(&[0xF0, 0x02]), vec![0x55, 2, 0, 0xF0, 0x02, 0xF2]);
    assert_eq!(send_confirm(SUCCESS), vec![0x55, 2, 0, 0xF0, 0x02, 0xF2]);
    let long = vec![0xFFu8; 300];
    let frame = send_frame(&long);
    assert_eq!(&frame[..3], &[0x55, 44, 1]);
    assert_eq!(frame[303], (300u32 * 0xFF % 256) as u8);
    assert_eq!(frame.len(), 304);
}

#[test]
fn a_read_response_carries_status_length_and_data() {
    assert_eq!(
        send_read_response(SUCCESS, &[9, 8]),
        vec![0x55, 6, 0, 0x02, 0x02, 2, 0, 9, 8, 0x02 + 0x02 + 2 + 9 + 8]
    );
}

#[test]
fn the_reader_gives_back_what_was_framed() {
    let mut reader = FrameReader::new();
    for length in [1usize, 2, 255, 256, 1024, 1032] {
        let command: Vec<u8> = (0..length).map(|i| (i * 3) as u8).collect();
        let events = feed(&mut reader, &send_frame(&command));
        assert_eq!(events.len(), 1);
        match &events[0] {
            FrameEvent::Command(got) => assert_eq!(*got, command),
            other => panic!("{:?}", other),
        }
    }
}

#[test]
fn noise_before_a_frame_is_ignored() {
    let mut reader = FrameReader::new();
    let mut bytes = vec![0, 1, 2, 0xF0, 0x54, 0x56];
    bytes.extend(send_frame(&[7, 7]));
    let events = feed(&mut reader, &bytes);
    assert_eq!(events.len(), 1);
    assert!(matches!(&events[0], FrameEvent::Command(c) if *c == vec![7, 7]));
}

#[test]
fn a_bad_checksum_is_reported_and_the_next_frame_is_read() {
    let mut reader = FrameReader::new();
    let mut bytes = send_frame(&[1, 2, 3]);
    let last = bytes.len() - 1;
    bytes[last] ^= 1;
    bytes.extend(send_frame(&[4]));
    let events = feed(&mut reader, &bytes);
    assert_eq!(events.len(), 2);
    assert!(matches!(events[0], FrameEvent::BadChecksum));
    assert!(matches!(&events[1], FrameEvent::Command(c) if *c == vec![4]));
}

#[test]
fn impossible_lengths_are_dropped() {
    for (low, high) in [(0u8, 0u8), (9, 4), (0xFF, 0xFF)] {
        let mut reader = FrameReader::new();
        let events = feed(&mut reader, &[0x55, low, high]);
        assert_eq!(events.len(), 1);
        assert!(matches!(events[0], FrameEvent::Dropped));
    }
}

#[test]
fn a_bad_checksum_is_answered_and_a_bad_length_is_not() {
    let mut reader = FrameReader::new();
    let mut answers = Vec::new();
    for byte in [0x55, 0, 0, 0x55, 1, 0, 9, 8] {
        if let Some(step) = receive(&mut reader, &nvm(), byte) {
            answers.push(sent(step));
        }
    }
    assert_eq!(answers, vec![send_confirm(CRC_ERROR)]);
}

#[test]
fn erase_takes_the_sector_of_the_address() {
    match handle(&nvm(), &[5, 0x34, 0x12, 0, 0]) {
        Step::Erase(call) => {
            assert_eq!(call, NvmCall::Erase { interface: 0, nvm_type: 1, sectors: 0b10 })
        }
        other => panic!("{:?}", other),
    }
}

#[test]
fn chip_erase_spares_the_last_sector() {
    match handle(&nvm(), &[5, 0xFF, 0xFF, 0xFF, 0xFF]) {
        Step::Erase(call) => {
            assert_eq!(call, NvmCall::Erase { interface: 0, nvm_type: 1, sectors: 0x7FFF_FFFF })
        }
        other => panic!("{:?}", other),
    }
}

#[test]
fn erase_beyond_the_part_is_refused() {
    for address in [0x0002_0000u32, 0x8000_0000, 0xFFFF_F000, 0xFFFF_FFFE] {
        let mut command = vec![5];
        command.extend(address.to_le_bytes());
        assert_eq!(sent(handle(&nvm(), &command)), send_confirm(EXEC_ERROR));
    }
}

#[test]
fn write_passes_address_and_data_on() {
    let command = [3, 0x00, 0x10, 0x00, 0x00, 3, 0, 0xAA, 0xBB, 0xCC];
    match handle(&nvm(), &command) {
        Step::Write(call, data) => {
            assert_eq!(
                call,
                NvmCall::Write { interface: 0, nvm_type: 1, address: 0x1000, length: 3 }
            );
            assert_eq!(data, vec![0xAA, 0xBB, 0xCC]);
        }
        other => panic!("{:?}", other),
    }
}

#[test]
fn write_with_a_wrong_length_is_refused() {
    let command = [3, 0, 0, 0, 0, 4, 0, 0xAA, 0xBB, 0xCC];
    assert_eq!(sent(handle(&nvm(), &command)), send_confirm(WRITE_ERROR));
}

#[test]
fn write_beyond_the_part_names_a_code() {
    let command = [3, 0xFF, 0xFF, 0x01, 0x00, 2, 0, 1, 2];
    let mut expected = b"WRITE_ERR code=0xb0000000\r\n".to_vec();
    expected.extend(send_confirm(WRITE_ERROR));
    assert_eq!(sent(handle(&nvm(), &command)), expected);
}

#[test]
fn commit_writes_the_header() {
    for (secure, signature) in [(0xC3u8, b"SECU"), (0x3C, b"OKOK")] {
        match handle(&nvm(), &[4, 0x78, 0x56, 0x34, 0x12, secure]) {
            Step::Commit(call, header) => {
                assert_eq!(
                    call,
                    NvmCall::Write { interface: 0, nvm_type: 1, address: 0, length: 8 }
                );
                let mut expected = signature.to_vec();
                expected.extend([0x78, 0x56, 0x34, 0x12]);
                assert_eq!(header, expected);
            }
            other => panic!("{:?}", other),
        }
    }
    assert_eq!(sent(handle(&nvm(), &[4, 0, 0, 0, 0, 0x00])), send_confirm(EXEC_ERROR));
}

#[test]
fn read_is_cut_to_a_chunk() {
    match handle(&nvm(), &[1, 0, 0, 0, 0, 0xFF, 0xFF]) {
        Step::Read(call, length) => {
            assert_eq!(length, 1024);
            assert_eq!(
                call,
                NvmCall::Read { interface: 0, nvm_type: 1, address: 0, length: 1024 }
            );
        }
        other => panic!("{:?}", other),
    }
    assert_eq!(
        sent(handle(&nvm(), &[1, 0, 0, 2, 0, 1, 0])),
        send_read_response(READ_ERROR, &[])
    );
}

#[test]
fn anything_else_is_refused() {
    for command in [&[0u8][..], &[5, 0, 0, 0], &[1, 0, 0, 0, 0, 1], &[4, 0], &[3], &[0x99, 1, 2]] {
        assert_eq!(sent(handle(&nvm(), command)), send_confirm(EXEC_ERROR));
    }
}

#[test]
fn replies_follow_the_status_of_the_flash() {
    assert_eq!(erased(0), send_confirm(SUCCESS));
    assert_eq!(erased(5), send_confirm(EXEC_ERROR));
    assert_eq!(written(0), send_confirm(SUCCESS));
    let mut failed = b"WRITE_ERR code=0x00000005\r\n".to_vec();
    failed.extend(send_confirm(WRITE_ERROR));
    assert_eq!(written(5), failed);
    assert_eq!(committed(0), send_confirm(SUCCESS));
    assert_eq!(committed(5), send_confirm(WRITE_ERROR));
    assert_eq!(read_back(0, &[1, 2]), send_read_response(SUCCESS, &[1, 2]));
    assert_eq!(read_back(1, &[1, 2]), send_read_response(READ_ERROR, &[]));
}

#[test]
fn text_is_hexadecimal() {
    assert_eq!(debug_hex_u32(0x0012_ABEF), b"0012abef".to_vec());
    assert_eq!(probe_report(Ok(()), &[0x00, 0xFF, 0x1A]), b"READ_OK: 00ff1a\r\n".to_vec());
    let out = Err(Error::Bounds(NorFlashErrorKind::OutOfBounds));
    assert_eq!(probe_report(out, &[]), b"READ_FAILED\r\n".to_vec());
}

#[test]
fn a_whole_session_is_understood() {
    let mut reader = FrameReader::new();
    let mut steps = Vec::new();
    let mut wire = b"garbage".to_vec();
    wire.extend(send_frame(&[5, 0, 0, 0, 0]));
    wire.extend(send_frame(&[3, 8, 0, 0, 0, 1, 0, 0x42]));
    for byte in wire {
        if let Some(step) = receive(&mut reader, &nvm(), byte) {
            steps.push(step);
        }
    }
    assert_eq!(steps.len(), 2);
    assert!(matches!(steps[0], Step::Erase(_)));
    assert!(matches!(&steps[1], Step::Write(_, data) if *data == vec![0x42]));
}

#[test]
fn a_write_of_more_than_a_chunk_is_refused() {
    for (length, accepted) in [(1024usize, true), (1025, false)] {
        let mut command = vec![0x03, 0, 0x10, 0, 0, length as u8, (length >> 8) as u8];
        command.extend(vec![0xA5u8; length]);
        let mut reader = FrameReader::new();
        let mut steps = Vec::new();
        for byte in send_frame(&command) {
            steps.extend(receive(&mut reader, &nvm(), byte));
        }
        assert_eq!(steps.len(), 1);
        match steps.remove(0) {
            Step::Write(_, data) => assert!(accepted && data == vec![0xA5u8; length]),
            other => assert!(!accepted && sent(other) == send_confirm(WRITE_ERROR)),
        }
    }
}

#[test]
fn a_long_read_response_is_framed_like_any_command() {
    let data = vec![0x11u8; 2000];
    let mut command = vec![0x02, SUCCESS, 0xD0, 0x07];
    command.extend(&data);
    assert_eq!(send_read_response(SUCCESS, &data), send_frame(&command));
    assert_eq!(read_back(0, &data), send_frame(&command));
}

#[test]
fn a_reader_takes_what_it_has_room_for() {
    let mut small = FrameReader::with_room(3);
    assert!(matches!(&feed(&mut small, &send_frame(&[1, 2, 3]))[0],
        FrameEvent::Command(got) if *got == vec![1, 2, 3]));
    assert!(matches!(&feed(&mut small, &send_frame(&[1, 2, 3, 4])[..3])[0], FrameEvent::Dropped));
    let long: Vec<u8> = (0..5000u32).map(|i| i as u8).collect();
    let mut large = FrameReader::with_room(5000);
    assert!(matches!(&feed(&mut large, &send_frame(&long))[0],
        FrameEvent::Command(got) if *got == long));
}
