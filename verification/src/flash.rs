//! Flash packets
//!
//! A firmware image travels to the chip in chunks, one packet each. The two
//! bootloader generations lay their packets out differently, and the second
//! masks the data with the session key.

use vstd::prelude::*;

use crate::protocol::Mode;
use crate::sequence::{templates_of, Bootloader, Sequence};

verus! {

/// Shortest image that is taken for firmware.
pub const MIN_IMAGE_LENGTH: usize = 32;

/// Most image bytes in one packet of the first generation.
pub const V1_CHUNK: usize = 60;

/// Most image bytes in one packet of the second generation.
pub const V2_CHUNK: usize = 56;

/// Longest flash packet of either generation.
pub const MAX_FLASH_PACKET: usize = 70;

/// The length that stands for `len` on an eight-byte boundary:
/// `len + len % 8`. It is a multiple of eight only where `len % 8` is 0 or 4.
pub open spec fn boundary(len: int) -> int {
    len + len % 8
}

/// Image bytes in the next packet: `limit`, or what remains if that is less.
pub open spec fn chunk_size(limit: int, remaining: int) -> int {
    if remaining >= limit {
        limit
    } else {
        remaining
    }
}

/// The low eight bits of `value`.
pub open spec fn low_byte(value: int) -> u8 {
    (value % 256) as u8
}

/// Bits 8 to 15 of `value`.
pub open spec fn high_byte(value: int) -> u8 {
    ((value / 256) % 256) as u8
}

/// The opcode that heads each flash packet of `mode` under `bootloader`.
pub open spec fn mode_opcode(bootloader: Bootloader, mode: Mode) -> Option<u8> {
    match templates_of(bootloader) {
        Some(templates) => Some(
            match mode {
                Mode::Write => templates.mode_write[0],
                Mode::Verify => templates.mode_verify[0],
            },
        ),
        None => None,
    }
}

/// First generation: the packet for the chunk at `addr`. Opcode, chunk
/// length, address low and high, then the chunk as it is.
pub open spec fn v1_packet_of(opcode: u8, image: Seq<u8>, addr: int) -> Seq<u8> {
    let chunk = chunk_size(60, image.len() - addr);
    seq![opcode, low_byte(chunk), low_byte(addr), high_byte(addr)] + image.subrange(
        addr,
        addr + chunk,
    )
}

/// First generation: the address of the packet after the one at `addr`, or
/// `None` when the image is covered up to its boundary.
pub open spec fn v1_next_of(len: int, addr: int) -> Option<int> {
    let next = addr + chunk_size(60, len - addr);
    if next < boundary(len) {
        Some(next)
    } else {
        None
    }
}

/// Second generation: byte `index` of the padded chunk at `addr`, before
/// masking. Behind the image bytes stand zeros.
pub open spec fn v2_plain_byte(image: Seq<u8>, addr: int, chunk: int, index: int) -> u8 {
    if index < chunk {
        image[addr + index]
    } else {
        0
    }
}

/// Second generation: the masked data of the chunk at `addr`. The chunk is
/// padded to its boundary and each byte is XORed with the key byte at its
/// place modulo eight.
pub open spec fn v2_data_of(key: Seq<u8>, image: Seq<u8>, addr: int, chunk: int) -> Seq<u8> {
    Seq::new(
        boundary(chunk) as nat,
        |index: int| v2_plain_byte(image, addr, chunk, index) ^ key[index % 8],
    )
}

/// Second generation: the header of the packet for the chunk at `addr`.
pub open spec fn v2_header_of(opcode: u8, len: int, addr: int) -> Seq<u8> {
    let remaining = len - addr;
    let chunk = chunk_size(56, remaining);
    seq![
        opcode,
        low_byte(boundary(chunk) + 5),
        0x00,
        low_byte(addr),
        high_byte(addr),
        0x00,
        0x00,
        low_byte(remaining),
    ]
}

/// Second generation: the packet for the chunk at `addr`. Eight header bytes
/// in the clear, then the masked data.
pub open spec fn v2_packet_of(opcode: u8, key: Seq<u8>, image: Seq<u8>, addr: int) -> Seq<u8> {
    v2_header_of(opcode, image.len() as int, addr) + v2_data_of(
        key,
        image,
        addr,
        chunk_size(56, image.len() - addr),
    )
}

/// Second generation: the address of the packet after the one at `addr`, or
/// `None` when that packet is the last. A packet whose padding reaches past
/// the image is the last.
pub open spec fn v2_next_of(len: int, addr: int) -> Option<int> {
    let remaining = len - addr;
    let padded = boundary(chunk_size(56, remaining));
    if remaining >= padded && addr + padded < boundary(len) {
        Some(addr + padded)
    } else {
        None
    }
}

/// Whether a second-generation chip took a flash packet: byte 4 of the
/// payload `reply` is zero, or `0xFE` for a last, short packet.
pub open spec fn flash_accepted(reply: Seq<u8>) -> bool {
    reply.len() > 4 && (reply[4] == 0x00 || reply[4] == 0xFE)
}

/// Whether an exec address agrees with the address `expected`.
pub open spec fn address_is(next: Option<usize>, expected: Option<int>) -> bool {
    match next {
        Some(addr) => expected == Some(addr as int),
        None => expected is None,
    }
}

/// Picks the opcode that heads each flash packet of `mode`.
pub fn opcode_for(bootloader: Bootloader, mode: Mode) -> (opcode: Option<u8>)
    ensures
        opcode == mode_opcode(bootloader, mode),
{
    match Sequence::for_bootloader(bootloader) {
        Some(sequence) => Some(
            match mode {
                Mode::Write => sequence.mode_write[0],
                Mode::Verify => sequence.mode_verify[0],
            },
        ),
        None => None,
    }
}

/// Builds the first-generation packet for the chunk at `addr`.
pub fn v1_packet(opcode: u8, image: &[u8], addr: usize) -> (packet: Vec<u8>)
    requires
        addr <= image.len(),
    ensures
        packet@ == v1_packet_of(opcode, image@, addr as int),
        packet.len() == 4 + chunk_size(60, image.len() - addr),
        packet.len() <= MAX_FLASH_PACKET,
{
    let remaining = image.len() - addr;
    let chunk = if remaining >= V1_CHUNK {
        V1_CHUNK
    } else {
        remaining
    };
    let mut packet: Vec<u8> = Vec::new();
    packet.push(opcode);
    packet.push((chunk % 256) as u8);
    packet.push((addr % 256) as u8);
    packet.push(((addr / 256) % 256) as u8);
    let ghost header = packet@;
    let mut index: usize = 0;
    while index < chunk
        invariant
            index <= chunk,
            addr + chunk <= image.len(),
            packet@ == header + image@.subrange(addr as int, addr + index),
        decreases chunk - index,
    {
        packet.push(image[addr + index]);
        index += 1;
    }
    packet
}

/// Tells where the first-generation packet after the one at `addr` starts.
pub fn v1_next(len: usize, addr: usize) -> (next: Option<usize>)
    requires
        addr <= len,
    ensures
        address_is(next, v1_next_of(len as int, addr as int)),
        next matches Some(after) ==> after <= len,
{
    let remaining = len - addr;
    let chunk = if remaining >= V1_CHUNK {
        V1_CHUNK
    } else {
        remaining
    };
    let after = addr + chunk;
    if after < len || len % 8 != 0 {
        Some(after)
    } else {
        None
    }
}

/// Builds the second-generation packet for the chunk at `addr`, masked with
/// `key`.
pub fn v2_packet(opcode: u8, key: &[u8; 8], image: &[u8], addr: usize) -> (packet: Vec<u8>)
    requires
        addr <= image.len(),
    ensures
        packet@ == v2_packet_of(opcode, key@, image@, addr as int),
        packet.len() == 8 + boundary(chunk_size(56, image.len() - addr)),
        packet.len() <= MAX_FLASH_PACKET,
{
    let remaining = image.len() - addr;
    let chunk = if remaining >= V2_CHUNK {
        V2_CHUNK
    } else {
        remaining
    };
    let padded = chunk + chunk % 8;
    let mut packet: Vec<u8> = Vec::new();
    packet.push(opcode);
    packet.push(((padded + 5) % 256) as u8);
    packet.push(0x00);
    packet.push((addr % 256) as u8);
    packet.push(((addr / 256) % 256) as u8);
    packet.push(0x00);
    packet.push(0x00);
    packet.push((remaining % 256) as u8);
    let ghost header = packet@;
    assert(header =~= v2_header_of(opcode, image.len() as int, addr as int));
    let ghost data = v2_data_of(key@, image@, addr as int, chunk as int);
    let mut index: usize = 0;
    while index < padded
        invariant
            index <= padded,
            padded == boundary(chunk as int),
            addr + chunk <= image.len(),
            data == v2_data_of(key@, image@, addr as int, chunk as int),
            packet@ == header + data.take(index as int),
        decreases padded - index,
    {
        let plain = if index < chunk {
            image[addr + index]
        } else {
            0
        };
        packet.push(plain ^ key[index % 8]);
        assert(data.take(index + 1) =~= data.take(index as int).push(data[index as int]));
        index += 1;
    }
    assert(data.take(index as int) =~= data);
    packet
}

/// Tells where the second-generation packet after the one at `addr` starts.
pub fn v2_next(len: usize, addr: usize) -> (next: Option<usize>)
    requires
        addr <= len,
    ensures
        address_is(next, v2_next_of(len as int, addr as int)),
        next matches Some(after) ==> after <= len,
{
    let remaining = len - addr;
    let chunk = if remaining >= V2_CHUNK {
        V2_CHUNK
    } else {
        remaining
    };
    let padded = chunk + chunk % 8;
    if remaining >= padded {
        let after = addr + padded;
        if after < len || len % 8 != 0 {
            Some(after)
        } else {
            None
        }
    } else {
        None
    }
}

/// Tells whether a second-generation chip took a flash packet.
pub fn accepts_flash(reply: &[u8]) -> (accepted: bool)
    ensures
        accepted == flash_accepted(reply@),
{
    reply.len() > 4 && (reply[4] == 0x00 || reply[4] == 0xFE)
}

/// First generation: no packet carries more than 60 image bytes, and the
/// packets go on while the address is short of the image's boundary. Where
/// the image's length is a multiple of eight that is while image bytes
/// remain; where it is not, the boundary is never reached and packets
/// without data follow the last chunk for as long as the chip acknowledges
/// them.
pub proof fn lemma_v1_chunks(len: int, addr: int)
    requires
        0 <= addr <= len,
    ensures
        0 <= chunk_size(60, len - addr) <= 60,
        addr + chunk_size(60, len - addr) <= len,
        len % 8 == 0 ==> (v1_next_of(len, addr) is Some <==> addr + 60 < len),
        len % 8 != 0 ==> v1_next_of(len, addr) is Some,
        v1_next_of(len, addr) matches Some(next) ==> next == addr + chunk_size(60, len - addr),
{
}

/// Second generation: packets that start at a multiple of 56 are followed
/// only by packets that do, each 56 bytes on, for as long as more than 56
/// bytes remain.
pub proof fn lemma_v2_chunks(len: int, addr: int)
    requires
        0 <= addr <= len,
        addr % 56 == 0,
    ensures
        v2_next_of(len, addr) is Some <==> addr + 56 < len,
        v2_next_of(len, addr) matches Some(next) ==> next == addr + 56 && next % 56 == 0,
{
    assert(addr % 8 == 0) by {
        assert(addr == 56 * (addr / 56));
    }
}

/// Second generation: only the data behind the eight header bytes is masked,
/// and a data byte is masked with the key byte at its own address modulo
/// eight, so the key runs on across packets.
pub proof fn lemma_v2_mask_follows_address(
    opcode: u8,
    key: Seq<u8>,
    image: Seq<u8>,
    addr: int,
    index: int,
)
    requires
        0 <= addr <= image.len(),
        addr % 56 == 0,
        0 <= index < boundary(chunk_size(56, image.len() - addr)),
    ensures
        v2_packet_of(opcode, key, image, addr).subrange(0, 8) == v2_header_of(
            opcode,
            image.len() as int,
            addr,
        ),
        v2_packet_of(opcode, key, image, addr)[8 + index] == v2_plain_byte(
            image,
            addr,
            chunk_size(56, image.len() - addr),
            index,
        ) ^ key[(addr + index) % 8],
{
    assert(addr % 8 == 0) by {
        assert(addr == 56 * (addr / 56));
    }
    assert((addr + index) % 8 == index % 8);
    assert(v2_packet_of(opcode, key, image, addr).subrange(0, 8) =~= v2_header_of(
        opcode,
        image.len() as int,
        addr,
    ));
}

} // verus!
