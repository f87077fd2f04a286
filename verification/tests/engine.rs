use chprog_lib::frame::{decode_frame, encode_frame, encode_request, REPLY_PREAMBLE, REQUEST_PREAMBLE};
use chprog_lib::key::derive_key;
use chprog_lib::protocol::{ChipInfo, Protocol, ProtocolError, Version};
use chprog_lib::reset::LineStep;
use chprog_lib::sequence::{Bootloader, Sequence};
use chprog_lib::step::Step;

type Outcome = Option<Result<(), ProtocolError>>;

fn nonce() -> [u8; 48] {
    let mut nonce = [0u8; 48];
    for (index, byte) in nonce.iter_mut().enumerate() {
        *byte = index as u8;
    }
    nonce
}

fn reply(payload: &[u8]) -> Vec<u8> {
    encode_frame(REPLY_PREAMBLE, payload)
}

/// Plays `replies` to the operation that `first` opens: the frames that went
/// out, the one left unanswered included, and how the operation ended, if it
/// did.
fn play(protocol: &mut Protocol, first: Step, replies: &[Vec<u8>]) -> (Vec<Vec<u8>>, Outcome) {
    let (mut frames, step) = protocol.replay(first, replies, &nonce());
    match step {
        Step::Done(result) => (frames, Some(result)),
        Step::Exchange { frame, .. } => {
            frames.push(frame);
            (frames, None)
        }
    }
}

fn config_v2() -> Vec<u8> {
    let mut config = vec![0u8; 30];
    config[19] = 2;
    config[20] = 3;
    config[21] = 1;
    config[22] = 0x10;
    config[23] = 0x20;
    config[24] = 0x30;
    config[25] = 0x40;
    config
}

/// A session with a first-generation chip `chip_id`.
fn first_generation(chip_id: u8) -> Protocol {
    let mut protocol = Protocol::new();
    let start = protocol.detect();
    let (_, outcome) =
        play(&mut protocol, start, &[reply(&[chip_id, 0x11]), reply(&[chip_id, 0x11]), reply(&[0x23, 0xF4])]);
    assert_eq!(outcome, Some(Ok(())));
    protocol
}

/// A session with a second-generation chip `chip_id`; the key is the one
/// that `nonce()` gives with the seed 0xA0 of `config_v2()`.
fn second_generation(chip_id: u8) -> Protocol {
    let mut protocol = Protocol::new();
    let start = protocol.detect();
    let key = derive_key(&nonce(), 0xA0, chip_id);
    let sum = key.iter().fold(0u8, |sum, byte| sum.wrapping_add(*byte));
    let chip = reply(&[0xA1, 0x00, 0x02, 0x00, chip_id, 0x11]);
    let (_, outcome) = play(
        &mut protocol,
        start,
        &[chip.clone(), chip, reply(&config_v2()), reply(&[0xA3, 0x00, 0x02, 0x00, sum, 0x00])],
    );
    assert_eq!(outcome, Some(Ok(())));
    protocol
}

#[test]
fn new_session_knows_nothing() {
    let protocol = Protocol::new();
    assert_eq!(protocol.chip_info(), ChipInfo { bootloader: Bootloader::Unknown, chip_id: 0 });
    assert_eq!(protocol.bootkey(), [0u8; 8]);
    assert_eq!(protocol.bootloader_version(), None);
    assert_eq!(Protocol::PACKET_MAXLEN, 256);
}

#[test]
fn probe_is_the_second_generation_chip_detect() {
    let mut protocol = Protocol::new();
    let start = protocol.bootloader_detect();
    let (frames, outcome) = play(&mut protocol, start, &[]);
    assert_eq!(outcome, None);
    assert_eq!(frames, vec![encode_request(Sequence::v2().chip_detect)]);
    assert_eq!(
        frames[0],
        vec![
            0x57, 0xAB, 0xA1, 0x12, 0x00, 0x59, 0x11, 0x4D, 0x43, 0x55, 0x20, 0x49, 0x53, 0x50,
            0x20, 0x26, 0x20, 0x57, 0x43, 0x48, 0x2E, 0x43, 0x4E, 0x15
        ]
    );
}

#[test]
fn two_byte_probe_reply_is_first_generation() {
    let mut protocol = Protocol::new();
    let start = protocol.bootloader_detect();
    let (frames, outcome) = play(&mut protocol, start, &[reply(&[0x52, 0x11])]);
    assert_eq!(frames.len(), 1);
    assert_eq!(outcome, Some(Ok(())));
    assert_eq!(protocol.chip_info().bootloader, Bootloader::V1);
    assert_eq!(protocol.chip_info().chip_id, 0);
}

#[test]
fn any_other_probe_reply_is_second_generation() {
    let payloads: Vec<Vec<u8>> =
        vec![vec![], vec![0x52], vec![1, 2, 3], vec![0xA1, 0x00, 0x02, 0x00, 0x52, 0x11], vec![0; 30]];
    for payload in payloads {
        let mut protocol = Protocol::new();
        let start = protocol.bootloader_detect();
        let (_, outcome) = play(&mut protocol, start, &[reply(&payload)]);
        assert_eq!(outcome, Some(Ok(())));
        assert_eq!(protocol.chip_info().bootloader, Bootloader::V2);
    }
}

#[test]
fn failed_probe_leaves_bootloader_unknown_without_error() {
    let failures: Vec<Vec<u8>> = vec![
        vec![],
        vec![0x55],
        vec![0x54, 0xAA, 0x52, 0x11, 0x63],
        vec![0x55, 0xAA, 0x52, 0x11, 0x64],
    ];
    for bytes in failures {
        let mut protocol = Protocol::new();
        let start = protocol.bootloader_detect();
        let (_, outcome) = play(&mut protocol, start, &[bytes]);
        assert_eq!(outcome, Some(Ok(())));
        assert_eq!(protocol.chip_info().bootloader, Bootloader::Unknown);
    }
}

#[test]
fn known_bootloader_is_not_probed_again() {
    let mut protocol = first_generation(0x52);
    let start = protocol.bootloader_detect();
    let (frames, outcome) = play(&mut protocol, start, &[]);
    assert!(frames.is_empty());
    assert_eq!(outcome, Some(Ok(())));
    assert_eq!(protocol.chip_info().bootloader, Bootloader::V1);
}

#[test]
fn operations_need_a_known_bootloader() {
    let mut protocol = Protocol::new();
    let starts = vec![protocol.chip_detect(), protocol.erase(), protocol.bootloader_exit()];
    for start in starts {
        let (frames, outcome) = play(&mut protocol, start, &[]);
        assert!(frames.is_empty());
        assert_eq!(outcome, Some(Err(ProtocolError::BootloaderUnknown)));
    }
}

#[test]
fn first_generation_chip_is_identified() {
    let mut protocol = Protocol::new();
    let start = protocol.bootloader_detect();
    play(&mut protocol, start, &[reply(&[0x52, 0x11])]);
    let start = protocol.chip_detect();
    let (frames, outcome) = play(&mut protocol, start, &[reply(&[0x54, 0x11]), reply(&[0x23, 0xF4])]);
    assert_eq!(
        frames,
        vec![encode_request(Sequence::v1().chip_detect), encode_request(&[0xBB, 0x00])]
    );
    assert_eq!(outcome, Some(Ok(())));
    assert_eq!(protocol.chip_info(), ChipInfo { bootloader: Bootloader::V1, chip_id: 0x54 });
    assert_eq!(protocol.bootloader_version(), Some(Version { major: 2, minor: 4, patch: None }));
    assert_eq!(protocol.bootkey(), [0u8; 8]);
}

#[test]
fn first_generation_replies_must_have_two_bytes() {
    let mut protocol = Protocol::new();
    let start = protocol.bootloader_detect();
    play(&mut protocol, start, &[reply(&[0x52, 0x11])]);

    let start = protocol.chip_detect();
    let (frames, outcome) = play(&mut protocol, start, &[reply(&[0x54, 0x11, 0x00])]);
    assert_eq!(frames.len(), 1);
    assert_eq!(outcome, Some(Err(ProtocolError::ChipUnknown)));
    assert_eq!(protocol.chip_info().chip_id, 0);

    let start = protocol.chip_detect();
    let (frames, outcome) = play(&mut protocol, start, &[reply(&[0x54, 0x11]), reply(&[0x23])]);
    assert_eq!(frames.len(), 2);
    assert_eq!(outcome, Some(Err(ProtocolError::BootloaderUnknown)));
    assert_eq!(protocol.chip_info().chip_id, 0x54);
    assert_eq!(protocol.bootloader_version(), None);
}

#[test]
fn exchange_errors_end_identification() {
    let mut protocol = Protocol::new();
    let start = protocol.bootloader_detect();
    play(&mut protocol, start, &[reply(&[0x52, 0x11])]);

    let start = protocol.chip_detect();
    let (_, outcome) = play(&mut protocol, start, &[vec![]]);
    assert_eq!(outcome, Some(Err(ProtocolError::SerialTimeout)));
    let start = protocol.chip_detect();
    let (_, outcome) = play(&mut protocol, start, &[vec![0x00, 0x01, 0x02]]);
    assert_eq!(outcome, Some(Err(ProtocolError::PreambleMismatch)));
    let start = protocol.chip_detect();
    let (_, outcome) = play(&mut protocol, start, &[reply(&[0x54, 0x11]), vec![0x55, 0xAA, 0x01, 0x02, 0x04]]);
    assert_eq!(outcome, Some(Err(ProtocolError::ChecksumMismatch)));
}

#[test]
fn second_generation_chip_is_identified_and_keyed() {
    let mut protocol = Protocol::new();
    let start = protocol.bootloader_detect();
    play(&mut protocol, start, &[reply(&[0xA1, 0x00, 0x02, 0x00, 0x52, 0x11])]);
    assert_eq!(protocol.chip_info().bootloader, Bootloader::V2);

    let start = protocol.chip_detect();
    let (frames, outcome) = play(
        &mut protocol,
        start,
        &[
            reply(&[0xA1, 0x00, 0x02, 0x00, 0x52, 0x11]),
            reply(&config_v2()),
            reply(&[0xA3, 0x00, 0x02, 0x00, 0xC0, 0x00]),
        ],
    );
    assert_eq!(outcome, Some(Ok(())));
    assert_eq!(frames.len(), 3);
    assert_eq!(frames[0], encode_request(Sequence::v2().chip_detect));
    assert_eq!(frames[1], encode_request(&[0xA7, 0x02, 0x00, 0x1F, 0x00]));
    let mut key_request = vec![0xA3, 0x30, 0x00];
    key_request.extend_from_slice(&nonce());
    assert_eq!(frames[2], encode_request(&key_request));
    assert_eq!(frames[2].len(), 54);
    assert_eq!(protocol.chip_info(), ChipInfo { bootloader: Bootloader::V2, chip_id: 0x52 });
    assert_eq!(protocol.bootloader_version(), Some(Version { major: 2, minor: 3, patch: Some(1) }));
    assert_eq!(protocol.bootkey(), [0xB8, 0xA9, 0xA6, 0x84, 0xB2, 0xBB, 0xBE, 0x0A]);
}

#[test]
fn unconfirmed_key_is_not_stored() {
    let replies: Vec<Vec<u8>> = vec![
        reply(&[0xA3, 0x00, 0x02, 0x00, 0xC1, 0x00]),
        reply(&[0xC0, 0xC0, 0xC0, 0xC0]),
        reply(&[]),
    ];
    for last in replies {
        let mut protocol = Protocol::new();
        let start = protocol.detect();
        let chip = reply(&[0xA1, 0x00, 0x02, 0x00, 0x52, 0x11]);
        let (frames, outcome) =
            play(&mut protocol, start, &[chip.clone(), chip, reply(&config_v2()), last]);
        assert_eq!(frames.len(), 4);
        assert_eq!(outcome, Some(Err(ProtocolError::BootloaderUnknown)));
        assert_eq!(protocol.bootkey(), [0u8; 8]);
        assert_eq!(protocol.chip_info().chip_id, 0x52);
    }
}

#[test]
fn second_generation_replies_must_have_their_lengths() {
    let mut protocol = Protocol::new();
    let start = protocol.bootloader_detect();
    play(&mut protocol, start, &[reply(&[1, 2, 3])]);

    let start = protocol.chip_detect();
    let (_, outcome) = play(&mut protocol, start, &[reply(&[0xA1, 0x00, 0x02, 0x00, 0x52])]);
    assert_eq!(outcome, Some(Err(ProtocolError::ChipUnknown)));
    let start = protocol.chip_detect();
    let (_, outcome) = play(
        &mut protocol,
        start,
        &[reply(&[0xA1, 0x00, 0x02, 0x00, 0x52, 0x11]), reply(&[0u8; 29])],
    );
    assert_eq!(outcome, Some(Err(ProtocolError::BootloaderUnknown)));
}

#[test]
fn key_exchange_with_a_fresh_nonce() {
    let mut protocol = Protocol::new();
    let start = protocol.detect();
    let chip = reply(&[0xA1, 0x00, 0x02, 0x00, 0x59, 0x11]);
    let mut replies = vec![chip.clone(), chip, reply(&config_v2())].into_iter();
    let mut step = start;
    let mut sent = 0;
    let result = loop {
        match step {
            Step::Done(result) => break result,
            Step::Exchange { frame, pending } => {
                sent += 1;
                let answer = match replies.next() {
                    Some(bytes) => bytes,
                    None => {
                        // the chip derives the key from the challenge it was sent
                        let request = decode_frame(REQUEST_PREAMBLE, &frame).unwrap();
                        assert_eq!(&request[..3], &[0xA3, 0x30, 0x00]);
                        let mut challenge = [0u8; 48];
                        challenge.copy_from_slice(&request[3..]);
                        let key = derive_key(&challenge, 0xA0, 0x59);
                        let sum = key.iter().fold(0u8, |sum, byte| sum.wrapping_add(*byte));
                        reply(&[0, 0, 0, 0, sum])
                    }
                };
                step = protocol.advance(pending, &answer);
            }
        }
    };
    assert_eq!(result, Ok(()));
    assert_eq!(sent, 4);
    let key = protocol.bootkey();
    assert_eq!(key[7], key[0].wrapping_add(0x59));
}

#[test]
fn first_generation_erases_block_by_block() {
    let mut protocol = first_generation(0x52);
    let start = protocol.erase();
    let acks = vec![reply(&[0x00, 0x00]); 15];
    let (frames, outcome) = play(&mut protocol, start, &acks);
    assert_eq!(outcome, Some(Ok(())));
    assert_eq!(frames.len(), 15);
    assert_eq!(frames[0], encode_request(&[0xA6, 0x04, 0x00, 0x00, 0x00, 0x00]));
    for block in 0..14u8 {
        assert_eq!(frames[1 + block as usize], encode_request(&[0xA9, 0x02, 0x00, block * 4]));
    }
}

#[test]
fn erase_count_follows_the_profile() {
    for (chip_id, blocks) in [(0x51u8, 10usize), (0x52, 14), (0x53, 10), (0x54, 14), (0x58, 32), (0x59, 60)] {
        let mut protocol = first_generation(chip_id);
        let start = protocol.erase();
        let acks = vec![reply(&[0x00, 0x00]); 100];
        let (frames, outcome) = play(&mut protocol, start, &acks);
        assert_eq!(outcome, Some(Ok(())));
        assert_eq!(frames.len(), 1 + blocks);
        let last = frames.last().unwrap();
        assert_eq!(last[5], ((blocks - 1) * 4) as u8);
    }
}

#[test]
fn first_generation_erase_failures() {
    let ack = reply(&[0x00, 0x00]);

    // the template is answered, but not acknowledged: the chip is unknown
    for bytes in [reply(&[0x01, 0x00]), reply(&[0xFF]), reply(&[])] {
        let mut protocol = first_generation(0x52);
        let start = protocol.erase();
        let (frames, outcome) = play(&mut protocol, start, &[bytes]);
        assert_eq!(frames.len(), 1);
        assert_eq!(outcome, Some(Err(ProtocolError::ChipUnknown)));
    }

    // a block is not acknowledged
    let mut protocol = first_generation(0x52);
    let start = protocol.erase();
    let (frames, outcome) =
        play(&mut protocol, start, &[ack.clone(), ack.clone(), ack.clone(), reply(&[0x01])]);
    assert_eq!(frames.len(), 4);
    assert_eq!(outcome, Some(Err(ProtocolError::ChipUnknown)));
}

#[test]
fn first_generation_erase_reports_exchange_errors_as_they_are() {
    let ack = reply(&[0x00, 0x00]);
    let failures = [
        (vec![], ProtocolError::SerialTimeout),
        (vec![0x57, 0xAB, 0x00, 0x00], ProtocolError::PreambleMismatch),
        (vec![0x55], ProtocolError::PreambleMismatch),
        (vec![0x55, 0xAA, 0x00, 0x01], ProtocolError::ChecksumMismatch),
        (vec![0x55, 0xAA], ProtocolError::ChecksumMismatch),
    ];

    // the exchange of the flash-erase template fails: no block request follows
    for (bytes, error) in failures.clone() {
        let mut protocol = first_generation(0x52);
        let start = protocol.erase();
        let (frames, outcome) = play(&mut protocol, start, &[bytes, ack.clone(), ack.clone()]);
        assert_eq!(frames, vec![encode_request(&[0xA6, 0x04, 0x00, 0x00, 0x00, 0x00])]);
        assert_eq!(outcome, Some(Err(error)));
    }

    // the exchange for a block fails
    for (bytes, error) in failures {
        let mut protocol = first_generation(0x52);
        let start = protocol.erase();
        let (frames, outcome) =
            play(&mut protocol, start, &[ack.clone(), ack.clone(), bytes, ack.clone()]);
        assert_eq!(frames.len(), 3);
        assert_eq!(outcome, Some(Err(error)));
    }
}

#[test]
fn only_detection_takes_a_failed_exchange_in_its_stride() {
    // every operation of the write procedure after detection, cut off by silence
    let image: Vec<u8> = vec![0x5A; 64];
    let ack = reply(&[0x00, 0x00]);
    for answered in 1..(2 + 11 + 2 + 2 + 1) {
        let mut replies = vec![reply(&[0x51, 0x11]), reply(&[0x51, 0x11]), reply(&[0x11, 0x01])];
        replies.extend(vec![ack.clone(); 16]);
        replies.truncate(answered);
        replies.push(vec![]);
        let mut protocol = Protocol::new();
        let start = protocol.write(image.clone());
        let (frames, outcome) = play(&mut protocol, start, &replies);
        assert_eq!(frames.len(), answered + 1);
        assert_eq!(outcome, Some(Err(ProtocolError::SerialTimeout)));
    }
}

#[test]
fn chip_without_profile_is_not_erased() {
    let mut protocol = first_generation(0x77);
    let start = protocol.erase();
    let (frames, outcome) = play(&mut protocol, start, &[]);
    assert!(frames.is_empty());
    assert_eq!(outcome, Some(Err(ProtocolError::ChipUnknown)));

    let mut protocol = second_generation(0x50);
    let start = protocol.erase();
    let (frames, outcome) = play(&mut protocol, start, &[]);
    assert!(frames.is_empty());
    assert_eq!(outcome, Some(Err(ProtocolError::ChipUnknown)));
}

#[test]
fn second_generation_erases_in_one_request() {
    let mut protocol = second_generation(0x52);
    let start = protocol.erase();
    let (frames, outcome) = play(&mut protocol, start, &[reply(&[0xA4, 0x00, 0x02, 0x00, 0x00, 0x00])]);
    assert_eq!(frames, vec![encode_request(&[0xA4, 0x01, 0x00, 14])]);
    assert_eq!(outcome, Some(Ok(())));

    let mut protocol = second_generation(0x59);
    let start = protocol.erase();
    let (frames, outcome) = play(&mut protocol, start, &[reply(&[0, 0, 0, 0, 0])]);
    assert_eq!(frames, vec![vec![0x57, 0xAB, 0xA4, 0x01, 0x00, 60, 0xE1]]);
    assert_eq!(outcome, Some(Ok(())));
}

#[test]
fn second_generation_erase_failures() {
    for (bytes, error) in [
        (reply(&[0xA4, 0x00, 0x02, 0x00, 0x01, 0x00]), ProtocolError::ChipUnknown),
        (reply(&[0x00, 0x00, 0x00, 0x00]), ProtocolError::ChipUnknown),
        (vec![], ProtocolError::SerialTimeout),
        (vec![0xAA, 0x55, 0x00], ProtocolError::PreambleMismatch),
    ] {
        let mut protocol = second_generation(0x52);
        let start = protocol.erase();
        let (frames, outcome) = play(&mut protocol, start, &[bytes]);
        assert_eq!(frames.len(), 1);
        assert_eq!(outcome, Some(Err(error)));
    }
}

#[test]
fn leaving_the_bootloader() {
    let mut protocol = first_generation(0x52);
    let start = protocol.bootloader_exit();
    let (frames, outcome) = play(&mut protocol, start, &[reply(&[0x00, 0x00])]);
    assert_eq!(frames, vec![encode_request(&[0xA5, 0x02, 0x01, 0x00])]);
    assert_eq!(outcome, Some(Ok(())));

    let mut protocol = second_generation(0x52);
    let start = protocol.bootloader_exit();
    let (frames, outcome) = play(&mut protocol, start, &[reply(&[0x01])]);
    assert_eq!(frames, vec![encode_request(&[0xA2, 0x01, 0x00, 0x01])]);
    assert_eq!(outcome, Some(Ok(())));

    let start = protocol.bootloader_exit();
    let (_, outcome) = play(&mut protocol, start, &[vec![]]);
    assert_eq!(outcome, Some(Err(ProtocolError::SerialTimeout)));
}

#[test]
fn write_procedure_with_a_second_generation_chip() {
    let image: Vec<u8> = (1..=40).collect();
    let key = [0xB8, 0xA9, 0xA6, 0x84, 0xB2, 0xBB, 0xBE, 0x0A];
    let probe = reply(&[0xA1, 0x00, 0x02, 0x00, 0x52, 0x11]);
    let ack = reply(&[0x00, 0x00, 0x00, 0x00, 0x00, 0x00]);
    let replies = vec![
        probe.clone(),
        probe,
        reply(&config_v2()),
        reply(&[0xA3, 0x00, 0x02, 0x00, 0xC0, 0x00]),
        ack.clone(),
        ack.clone(),
        ack.clone(),
        ack,
    ];
    let mut protocol = Protocol::new();
    let start = protocol.write(image.clone());
    let (frames, outcome) = play(&mut protocol, start, &replies);
    assert_eq!(outcome, Some(Ok(())));

    let mut key_request = vec![0xA3, 0x30, 0x00];
    key_request.extend_from_slice(&nonce());
    let mut write = vec![0xA5, 45, 0x00, 0x00, 0x00, 0x00, 0x00, 40];
    let mut verify = vec![0xA6, 45, 0x00, 0x00, 0x00, 0x00, 0x00, 40];
    for (index, byte) in image.iter().enumerate() {
        write.push(byte ^ key[index % 8]);
        verify.push(byte ^ key[index % 8]);
    }
    let expected = vec![
        encode_request(Sequence::v2().chip_detect),
        encode_request(Sequence::v2().chip_detect),
        encode_request(&[0xA7, 0x02, 0x00, 0x1F, 0x00]),
        encode_request(&key_request),
        encode_request(&[0xA4, 0x01, 0x00, 14]),
        encode_request(&write),
        encode_request(&verify),
        encode_request(&[0xA2, 0x01, 0x00, 0x01]),
    ];
    assert_eq!(frames, expected);
    assert_eq!(protocol.chip_info(), ChipInfo { bootloader: Bootloader::V2, chip_id: 0x52 });
    assert_eq!(protocol.bootkey(), key);
}

#[test]
fn write_procedure_with_a_first_generation_chip() {
    let image: Vec<u8> = (0..120).map(|index| index as u8 ^ 0x5A).collect();
    let mut replies = vec![reply(&[0x51, 0x11]), reply(&[0x51, 0x11]), reply(&[0x11, 0x01])];
    replies.extend(vec![reply(&[0x00, 0x00]); 11 + 2 + 2 + 1]);
    let mut protocol = Protocol::new();
    let start = protocol.write(image.clone());
    let (frames, outcome) = play(&mut protocol, start, &replies);
    assert_eq!(outcome, Some(Ok(())));
    assert_eq!(frames.len(), 3 + 11 + 4 + 1);
    assert_eq!(frames[0], encode_request(Sequence::v2().chip_detect));
    assert_eq!(frames[1], encode_request(Sequence::v1().chip_detect));
    assert_eq!(frames[2], encode_request(&[0xBB, 0x00]));
    assert_eq!(frames[3], encode_request(&[0xA6, 0x04, 0x00, 0x00, 0x00, 0x00]));
    assert_eq!(frames[13], encode_request(&[0xA9, 0x02, 0x00, 36]));
    for (at, opcode, addr) in [(14, 0xA8u8, 0usize), (15, 0xA8, 60), (16, 0xA7, 0), (17, 0xA7, 60)] {
        let mut packet = vec![opcode, 60, addr as u8, 0x00];
        packet.extend_from_slice(&image[addr..addr + 60]);
        assert_eq!(frames[at], encode_request(&packet));
    }
    assert_eq!(frames[18], encode_request(&[0xA5, 0x02, 0x01, 0x00]));
    assert_eq!(protocol.bootloader_version(), Some(Version { major: 1, minor: 1, patch: None }));
}

#[test]
fn write_skips_what_is_known() {
    let image: Vec<u8> = vec![0x11; 32];
    let mut protocol = first_generation(0x53);
    let start = protocol.write(image);
    let replies = vec![reply(&[0x00]); 11 + 1 + 1 + 1];
    let (frames, outcome) = play(&mut protocol, start, &replies);
    assert_eq!(outcome, Some(Ok(())));
    assert_eq!(frames.len(), 14);
    assert_eq!(frames[0], encode_request(&[0xA6, 0x04, 0x00, 0x00, 0x00, 0x00]));
}

#[test]
fn write_stops_when_no_bootloader_answers() {
    let mut protocol = Protocol::new();
    let start = protocol.write(vec![0u8; 64]);
    let (frames, outcome) = play(&mut protocol, start, &[vec![]]);
    assert_eq!(frames.len(), 1);
    assert_eq!(outcome, Some(Err(ProtocolError::BootloaderUnknown)));
}

#[test]
fn write_stops_at_the_first_error() {
    let image: Vec<u8> = vec![0x11; 64];
    let ack = reply(&[0x00, 0x00, 0x00, 0x00, 0x00, 0x00]);

    // erase refused
    let mut protocol = second_generation(0x52);
    let start = protocol.write(image.clone());
    let (frames, outcome) = play(&mut protocol, start, &[reply(&[0, 0, 0, 0, 1])]);
    assert_eq!(frames.len(), 1);
    assert_eq!(outcome, Some(Err(ProtocolError::ChipUnknown)));

    // second write packet refused
    let mut protocol = second_generation(0x52);
    let start = protocol.write(image.clone());
    let (frames, outcome) =
        play(&mut protocol, start, &[ack.clone(), ack.clone(), reply(&[0, 0, 0, 0, 0x02])]);
    assert_eq!(frames.len(), 3);
    assert_eq!(outcome, Some(Err(ProtocolError::SerialError)));

    // verify packet lost
    let mut protocol = second_generation(0x52);
    let start = protocol.write(image);
    let (frames, outcome) =
        play(&mut protocol, start, &[ack.clone(), ack.clone(), ack, vec![]]);
    assert_eq!(frames.len(), 4);
    assert_eq!(outcome, Some(Err(ProtocolError::SerialTimeout)));
}

#[test]
fn short_image_is_refused_after_erasing() {
    let mut protocol = second_generation(0x52);
    let start = protocol.write(vec![0xAB; 31]);
    let (frames, outcome) = play(&mut protocol, start, &[reply(&[0, 0, 0, 0, 0])]);
    assert_eq!(frames, vec![encode_request(&[0xA4, 0x01, 0x00, 14])]);
    assert_eq!(outcome, Some(Err(ProtocolError::FileFormatError)));

    let mut protocol = second_generation(0x52);
    let start = protocol.verify(vec![]);
    let chip = reply(&[0xA1, 0x00, 0x02, 0x00, 0x52, 0x11]);
    let (frames, outcome) = play(
        &mut protocol,
        start,
        &[chip, reply(&config_v2()), reply(&[0xA3, 0x00, 0x02, 0x00, 0xC0, 0x00])],
    );
    assert_eq!(frames.len(), 3);
    assert_eq!(outcome, Some(Err(ProtocolError::FileFormatError)));
}

#[test]
fn verify_procedure_identifies_and_verifies() {
    let image: Vec<u8> = (0..57).map(|index| index as u8).collect();
    let key = [0xB8, 0xA9, 0xA6, 0x84, 0xB2, 0xBB, 0xBE, 0x0A];
    let chip = reply(&[0xA1, 0x00, 0x02, 0x00, 0x52, 0x11]);
    let mut protocol = Protocol::new();
    let start = protocol.verify(image.clone());
    let (frames, outcome) = play(
        &mut protocol,
        start,
        &[
            chip.clone(),
            chip,
            reply(&config_v2()),
            reply(&[0xA3, 0x00, 0x02, 0x00, 0xC0, 0x00]),
            reply(&[0, 0, 0, 0, 0x00, 0]),
            reply(&[0, 0, 0, 0, 0xFE, 0]),
        ],
    );
    assert_eq!(outcome, Some(Ok(())));
    assert_eq!(frames.len(), 6);
    let mut first = vec![0xA6, 61, 0x00, 0x00, 0x00, 0x00, 0x00, 57];
    for index in 0..56 {
        first.push(image[index] ^ key[index % 8]);
    }
    assert_eq!(frames[4], encode_request(&first));
    assert_eq!(
        frames[5],
        encode_request(&[0xA6, 7, 0x00, 56, 0x00, 0x00, 0x00, 1, 56 ^ 0xB8, 0xA9])
    );
}

#[test]
fn verify_identifies_even_a_known_chip() {
    let mut protocol = first_generation(0x52);
    let start = protocol.verify(vec![0x22; 40]);
    let (frames, outcome) =
        play(&mut protocol, start, &[reply(&[0x54, 0x11]), reply(&[0x23, 0x04]), reply(&[0x00])]);
    assert_eq!(outcome, Some(Ok(())));
    assert_eq!(frames.len(), 3);
    assert_eq!(frames[0], encode_request(Sequence::v1().chip_detect));
    assert_eq!(protocol.chip_info().chip_id, 0x54);
}

#[test]
fn verify_without_bootloader_fails_at_identification() {
    let mut protocol = Protocol::new();
    let start = protocol.verify(vec![0x22; 40]);
    let (frames, outcome) = play(&mut protocol, start, &[vec![0x00]]);
    assert_eq!(frames.len(), 1);
    assert_eq!(outcome, Some(Err(ProtocolError::BootloaderUnknown)));
}

#[test]
fn first_generation_flash_packet_must_be_acknowledged() {
    for (bytes, error) in [
        (reply(&[0x01, 0x00]), ProtocolError::SerialError),
        (reply(&[]), ProtocolError::SerialError),
        (vec![], ProtocolError::SerialTimeout),
    ] {
        let mut protocol = first_generation(0x52);
        let start = protocol.verify(vec![0x22; 40]);
        let (frames, outcome) =
            play(&mut protocol, start, &[reply(&[0x52, 0x11]), reply(&[0x23, 0x04]), bytes]);
        assert_eq!(frames.len(), 3);
        assert_eq!(outcome, Some(Err(error)));
    }
}

#[test]
fn first_generation_image_off_the_boundary_never_ends() {
    let image: Vec<u8> = (0..59).collect();
    let mut protocol = first_generation(0x52);
    let start = protocol.verify(image.clone());
    let mut replies = vec![reply(&[0x52, 0x11]), reply(&[0x23, 0x04])];
    replies.extend(vec![reply(&[0x00, 0x00]); 5]);
    let (frames, outcome) = play(&mut protocol, start, &replies);
    assert_eq!(outcome, None);
    assert_eq!(frames.len(), 8);
    let mut data = vec![0xA7, 59, 0x00, 0x00];
    data.extend_from_slice(&image);
    assert_eq!(frames[2], encode_request(&data));
    for frame in &frames[3..] {
        assert_eq!(*frame, encode_request(&[0xA7, 0, 59, 0x00]));
    }
}

#[test]
fn every_frame_respects_the_limit() {
    let image: Vec<u8> = (0..=255).cycle().take(1000).collect();
    let mut protocol = second_generation(0x59);
    let start = protocol.write(image);
    let replies = vec![reply(&[0, 0, 0, 0, 0]); 64];
    let (frames, outcome) = play(&mut protocol, start, &replies);
    assert_eq!(outcome, Some(Ok(())));
    assert_eq!(frames.len(), 1 + 18 + 18 + 1);
    for frame in frames {
        assert!(frame.len() <= Protocol::PACKET_MAXLEN);
        assert_eq!(&frame[..2], &[0x57, 0xAB]);
    }
}

#[test]
fn reset_sequence_drives_both_lines() {
    let mut protocol = Protocol::new();
    assert_eq!(
        protocol.chip_reset(),
        vec![
            LineStep::Wait(10),
            LineStep::Reset(true),
            LineStep::Bootsel(true),
            LineStep::Wait(150),
            LineStep::Reset(false),
            LineStep::Wait(100),
            LineStep::Bootsel(false),
            LineStep::Wait(250),
        ]
    );
    assert_eq!(protocol.chip_info().bootloader, Bootloader::Unknown);
}

#[test]
fn replay_stops_when_the_operation_is_over() {
    let mut protocol = first_generation(0x52);
    let start = protocol.bootloader_exit();
    let replies = vec![reply(&[0x00]), reply(&[0x01]), vec![]];
    let (frames, step) = protocol.replay(start, &replies, &nonce());
    assert_eq!(frames, vec![encode_request(&[0xA5, 0x02, 0x01, 0x00])]);
    assert!(matches!(step, Step::Done(Ok(()))));
}

#[test]
fn replay_without_replies_sends_nothing() {
    let mut protocol = first_generation(0x52);
    let start = protocol.erase();
    let (frames, step) = protocol.replay(start, &[], &nonce());
    assert!(frames.is_empty());
    match step {
        Step::Exchange { frame, .. } => {
            assert_eq!(frame, encode_request(&[0xA6, 0x04, 0x00, 0x00, 0x00, 0x00]))
        }
        Step::Done(_) => panic!("the erase request is still to be sent"),
    }
}

#[test]
fn stepping_by_hand_agrees_with_replay() {
    let image: Vec<u8> = (0..200).map(|index| (index * 7) as u8).collect();
    let replies = vec![reply(&[0, 0, 0, 0, 0]); 10];

    let mut replayed = second_generation(0x58);
    let start = replayed.write(image.clone());
    let (frames, last) = replayed.replay(start, &replies, &nonce());
    assert!(matches!(last, Step::Done(Ok(()))));

    let mut stepped = second_generation(0x58);
    let mut step = stepped.write(image);
    let mut sent = Vec::new();
    let mut answers = replies.iter();
    while let Step::Exchange { frame, pending } = step {
        sent.push(frame);
        step = stepped.advance(pending, answers.next().unwrap());
    }
    assert!(matches!(step, Step::Done(Ok(()))));
    assert_eq!(sent, frames);
    assert_eq!(sent.len(), 1 + 4 + 4 + 1);
}

#[test]
fn second_generation_flash_at_the_chunk_boundaries() {
    // image length, packets per pass, image bytes in the last packet, its padded length
    for (len, count, chunk, padded) in
        [(55usize, 1usize, 55u8, 62usize), (56, 1, 56, 56), (57, 2, 1, 2), (111, 2, 55, 62), (112, 2, 56, 56)]
    {
        let image: Vec<u8> = (0..len).map(|index| index as u8).collect();
        let mut protocol = second_generation(0x52);
        let key = protocol.bootkey();
        let start = protocol.write(image.clone());
        let replies = vec![reply(&[0, 0, 0, 0, 0]); 10];
        let (frames, outcome) = play(&mut protocol, start, &replies);
        assert_eq!(outcome, Some(Ok(())));
        assert_eq!(frames.len(), 1 + count + count + 1);
        for pass in 0..2 {
            let opcode = if pass == 0 { 0xA5 } else { 0xA6 };
            for index in 0..count {
                let frame = &frames[1 + pass * count + index];
                let packet = &frame[2..frame.len() - 1];
                let addr = 56 * index;
                assert_eq!(packet[0], opcode);
                assert_eq!(packet[3] as usize, addr);
                assert_eq!(packet[7] as usize, len - addr);
                for (offset, byte) in packet[8..].iter().enumerate() {
                    let plain = if addr + offset < len { image[addr + offset] } else { 0 };
                    assert_eq!(*byte, plain ^ key[(addr + offset) % 8]);
                }
            }
            let frame = &frames[pass * count + count];
            let last = &frame[2..frame.len() - 1];
            assert_eq!(last[7], chunk);
            assert_eq!(last[1] as usize, padded + 5);
            assert_eq!(last.len(), 8 + padded);
        }
    }
}

#[test]
fn first_generation_flash_at_the_chunk_boundaries() {
    for (len, chunks) in [
        (59usize, vec![59u8]),
        (60, vec![60]),
        (61, vec![60, 1]),
        (119, vec![60, 59]),
        (120, vec![60, 60]),
    ] {
        let image: Vec<u8> = (0..len).map(|index| index as u8).collect();
        let mut protocol = first_generation(0x51);
        let start = protocol.write(image.clone());
        let replies = vec![reply(&[0x00, 0x00]); 11 + 6];
        let (frames, outcome) = play(&mut protocol, start, &replies);
        let flashed = &frames[11..];
        let mut addr = 0;
        for (index, chunk) in chunks.iter().enumerate() {
            let mut packet = vec![0xA8, *chunk, addr as u8, 0x00];
            packet.extend_from_slice(&image[addr..addr + *chunk as usize]);
            assert_eq!(flashed[index], encode_request(&packet));
            addr += *chunk as usize;
        }
        if len % 8 == 0 {
            // write, verify, leave
            assert_eq!(outcome, Some(Ok(())));
            assert_eq!(flashed.len(), chunks.len() * 2 + 1);
        } else {
            // the boundary is out of reach: packets without data go on
            assert_eq!(outcome, None);
            assert_eq!(flashed.len(), 7);
            for frame in &flashed[chunks.len()..] {
                assert_eq!(*frame, encode_request(&[0xA8, 0, len as u8, 0x00]));
            }
        }
    }
}
