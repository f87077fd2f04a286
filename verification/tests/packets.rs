use chprog_lib::erase::{erase_all_request, erase_block_request};
use chprog_lib::flash::{accepts_flash, opcode_for, v1_next, v1_packet, v2_next, v2_packet};
use chprog_lib::frame::acknowledges;
use chprog_lib::protocol::Mode;
use chprog_lib::sequence::Bootloader;

const KEY: [u8; 8] = [0xB8, 0xA9, 0xA6, 0x84, 0xB2, 0xBB, 0xBE, 0x0A];

fn image_of(len: usize) -> Vec<u8> {
    (0..len).map(|index| (index % 251) as u8 + 1).collect()
}

/// Walks the first-generation packets of an image until the data is out:
/// the chunk lengths, and whether the walk ended there.
fn v1_walk(len: usize) -> (Vec<usize>, bool) {
    let image = image_of(len);
    let mut chunks = Vec::new();
    let mut addr = 0;
    loop {
        let packet = v1_packet(0xA8, &image, addr);
        assert_eq!(packet[0], 0xA8);
        assert_eq!(packet[1] as usize, packet.len() - 4);
        assert_eq!(packet[2], (addr & 0xFF) as u8);
        assert_eq!(packet[3], ((addr >> 8) & 0xFF) as u8);
        assert_eq!(&packet[4..], &image[addr..addr + packet.len() - 4]);
        assert!(packet.len() - 4 <= 60);
        chunks.push(packet.len() - 4);
        match v1_next(len, addr) {
            None => return (chunks, true),
            Some(next) => {
                if next == len {
                    return (chunks, false);
                }
                addr = next;
            }
        }
    }
}

/// Walks the second-generation packets of an image: address and packet.
fn v2_walk(len: usize) -> Vec<(usize, Vec<u8>)> {
    let image = image_of(len);
    let mut packets = Vec::new();
    let mut addr = 0;
    loop {
        packets.push((addr, v2_packet(0xA5, &KEY, &image, addr)));
        match v2_next(len, addr) {
            None => return packets,
            Some(next) => addr = next,
        }
    }
}

/// What a second-generation packet must be, computed byte by byte.
fn v2_expected(len: usize, addr: usize, chunk: usize, padded: usize) -> Vec<u8> {
    let image = image_of(len);
    let mut packet = vec![
        0xA5,
        (padded + 5) as u8,
        0x00,
        (addr & 0xFF) as u8,
        (addr >> 8) as u8,
        0x00,
        0x00,
        ((len - addr) & 0xFF) as u8,
    ];
    for offset in 0..padded {
        let plain = if offset < chunk { image[addr + offset] } else { 0 };
        packet.push(plain ^ KEY[(addr + offset) % 8]);
    }
    packet
}

#[test]
fn opcodes_by_bootloader_and_mode() {
    assert_eq!(opcode_for(Bootloader::V1, Mode::Write), Some(0xA8));
    assert_eq!(opcode_for(Bootloader::V1, Mode::Verify), Some(0xA7));
    assert_eq!(opcode_for(Bootloader::V2, Mode::Write), Some(0xA5));
    assert_eq!(opcode_for(Bootloader::V2, Mode::Verify), Some(0xA6));
    assert_eq!(opcode_for(Bootloader::Unknown, Mode::Write), None);
}

#[test]
fn v1_packet_layout() {
    let image: Vec<u8> = (1..=40).collect();
    let mut expected = vec![0xA7, 40, 0x00, 0x00];
    expected.extend_from_slice(&image);
    assert_eq!(v1_packet(0xA7, &image, 0), expected);
    assert_eq!(v1_packet(0xA7, &image, 38), vec![0xA7, 2, 38, 0x00, 39, 40]);
    assert_eq!(v1_packet(0xA7, &image, 40), vec![0xA7, 0, 40, 0x00]);
}

#[test]
fn v1_address_is_little_endian() {
    let image = image_of(1000);
    let packet = v1_packet(0xA8, &image, 300);
    assert_eq!(&packet[..4], &[0xA8, 60, 0x2C, 0x01]);
    assert_eq!(&packet[4..], &image[300..360]);
    let packet = v1_packet(0xA8, &image, 960);
    assert_eq!(&packet[..4], &[0xA8, 40, 0xC0, 0x03]);
}

#[test]
fn v1_chunks_at_the_boundaries() {
    assert_eq!(v1_walk(59), (vec![59], false));
    assert_eq!(v1_walk(60), (vec![60], false));
    assert_eq!(v1_walk(61), (vec![60, 1], false));
    assert_eq!(v1_walk(119), (vec![60, 59], false));
    assert_eq!(v1_walk(120), (vec![60, 60], true));
}

#[test]
fn v1_ends_only_on_a_multiple_of_eight() {
    assert_eq!(v1_next(120, 0), Some(60));
    assert_eq!(v1_next(120, 60), None);
    assert_eq!(v1_next(64, 0), Some(60));
    assert_eq!(v1_next(64, 60), None);
    // 59 + 59 % 8 = 62 is never reached: packets without data follow
    assert_eq!(v1_next(59, 0), Some(59));
    assert_eq!(v1_next(59, 59), Some(59));
    assert_eq!(v1_packet(0xA8, &image_of(59), 59), vec![0xA8, 0, 59, 0]);
    assert_eq!(v1_next(61, 60), Some(61));
    assert_eq!(v1_next(61, 61), Some(61));
}

#[test]
fn v2_packet_layout() {
    let image: Vec<u8> = (1..=40).collect();
    let packet = v2_packet(0xA5, &KEY, &image, 0);
    assert_eq!(&packet[..8], &[0xA5, 45, 0x00, 0x00, 0x00, 0x00, 0x00, 40]);
    assert_eq!(packet.len(), 48);
    assert_eq!(&packet[8..16], &[0xB9, 0xAB, 0xA5, 0x80, 0xB7, 0xBD, 0xB9, 0x02]);
    assert_eq!(packet[47], 40 ^ 0x0A);
}

#[test]
fn v2_short_chunk_is_padded_with_masked_zeros() {
    let image = image_of(57);
    let packet = v2_packet(0xA6, &KEY, &image, 56);
    // one byte left: chunk 1, padded 1 + 1 % 8 = 2
    assert_eq!(packet, vec![0xA6, 7, 0x00, 56, 0x00, 0x00, 0x00, 1, 57 ^ 0xB8, 0xA9]);
}

#[test]
fn v2_chunks_at_the_boundaries() {
    let shapes: Vec<(usize, Vec<(usize, usize, usize)>)> = vec![
        (55, vec![(0, 55, 62)]),
        (56, vec![(0, 56, 56)]),
        (57, vec![(0, 56, 56), (56, 1, 2)]),
        (111, vec![(0, 56, 56), (56, 55, 62)]),
        (112, vec![(0, 56, 56), (56, 56, 56)]),
    ];
    for (len, shape) in shapes {
        let packets = v2_walk(len);
        assert_eq!(packets.len(), shape.len());
        for ((addr, packet), (at, chunk, padded)) in packets.iter().zip(shape) {
            assert_eq!(*addr, at);
            assert_eq!(packet.len(), 8 + padded);
            assert_eq!(*packet, v2_expected(len, at, chunk, padded));
        }
    }
}

#[test]
fn v2_header_is_not_masked() {
    let image = image_of(112);
    let zero_key = [0u8; 8];
    let ones_key = [0xFFu8; 8];
    let plain = v2_packet(0xA5, &zero_key, &image, 56);
    let masked = v2_packet(0xA5, &ones_key, &image, 56);
    assert_eq!(&plain[..8], &masked[..8]);
    assert_eq!(&plain[..8], &[0xA5, 61, 0x00, 56, 0x00, 0x00, 0x00, 56]);
    assert_eq!(&plain[8..], &image[56..112]);
    for offset in 8..plain.len() {
        assert_eq!(masked[offset], plain[offset] ^ 0xFF);
    }
}

#[test]
fn v2_remaining_byte_wraps() {
    let image = image_of(600);
    let packet = v2_packet(0xA5, &KEY, &image, 0);
    assert_eq!(packet[7], (600 % 256) as u8);
    let packet = v2_packet(0xA5, &KEY, &image, 336);
    assert_eq!(&packet[..8], &[0xA5, 61, 0x00, 0x50, 0x01, 0x00, 0x00, 8]);
}

#[test]
fn v2_goes_on_while_more_than_a_chunk_remains() {
    assert_eq!(v2_next(40, 0), None);
    assert_eq!(v2_next(56, 0), None);
    assert_eq!(v2_next(57, 0), Some(56));
    assert_eq!(v2_next(57, 56), None);
    assert_eq!(v2_next(112, 0), Some(56));
    assert_eq!(v2_next(112, 56), None);
    assert_eq!(v2_next(113, 56), Some(112));
}

#[test]
fn erase_requests_by_generation() {
    assert_eq!(erase_block_request(0), vec![0xA9, 0x02, 0x00, 0x00]);
    assert_eq!(erase_block_request(13), vec![0xA9, 0x02, 0x00, 52]);
    assert_eq!(erase_block_request(59), vec![0xA9, 0x02, 0x00, 236]);
    assert_eq!(erase_all_request(14), vec![0xA4, 0x01, 0x00, 14]);
    assert_eq!(erase_all_request(60), vec![0xA4, 0x01, 0x00, 60]);
}

#[test]
fn acknowledgement_is_a_zero_at_its_place() {
    assert!(acknowledges(&[0x00, 0x01], 0));
    assert!(!acknowledges(&[0x01, 0x00], 0));
    assert!(acknowledges(&[1, 1, 1, 1, 0, 1], 4));
    assert!(!acknowledges(&[0, 0, 0, 0], 4));
    assert!(!acknowledges(&[], 0));
    assert!(accepts_flash(&[9, 9, 9, 9, 0x00, 9]));
    assert!(accepts_flash(&[9, 9, 9, 9, 0xFE]));
    assert!(!accepts_flash(&[9, 9, 9, 9, 0x01]));
    assert!(!accepts_flash(&[0, 0, 0, 0]));
}
