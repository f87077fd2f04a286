//! Erase requests
//!
//! The first bootloader generation erases flash block by block, the second
//! in one request that names the number of blocks.

use vstd::prelude::*;

use crate::definitions::{definition_of, lemma_erase_blocks_bounded};
use crate::sequence::{v1_templates, v2_templates, Bootloader, Sequence};

verus! {

/// First generation: the request that erases block `index`.
pub open spec fn erase_block_request_of(index: int) -> Seq<u8> {
    seq![0xA9u8, 0x02, 0x00, (index * 4) as u8]
}

/// Second generation: the request that erases `blocks` blocks, the
/// flash-erase template with the count in its last byte.
pub open spec fn erase_all_request_of(blocks: u8) -> Seq<u8> {
    v2_templates().flash_erase.update(3, blocks)
}

/// Every request that erasing a chip of `blocks` erase blocks sends, in
/// order, when the chip acknowledges each.
pub open spec fn erase_requests(bootloader: Bootloader, blocks: u8) -> Seq<Seq<u8>> {
    match bootloader {
        Bootloader::Unknown => Seq::empty(),
        Bootloader::V1 => seq![v1_templates().flash_erase] + Seq::new(
            blocks as nat,
            |index: int| erase_block_request_of(index),
        ),
        Bootloader::V2 => seq![erase_all_request_of(blocks)],
    }
}

/// Builds the first-generation request that erases block `index`.
pub fn erase_block_request(index: u8) -> (request: Vec<u8>)
    requires
        index * 4 <= u8::MAX,
    ensures
        request@ == erase_block_request_of(index as int),
{
    let mut request: Vec<u8> = Vec::new();
    request.push(0xA9);
    request.push(0x02);
    request.push(0x00);
    request.push(index * 4);
    assert(request@ =~= erase_block_request_of(index as int));
    request
}

/// Builds the second-generation request that erases `blocks` blocks.
pub fn erase_all_request(blocks: u8) -> (request: Vec<u8>)
    ensures
        request@ == erase_all_request_of(blocks),
        request.len() == 4,
{
    let template = Sequence::v2().flash_erase;
    let mut request: Vec<u8> = Vec::new();
    let mut index: usize = 0;
    while index < 4
        invariant
            index <= 4,
            template@ == v2_templates().flash_erase,
            request@ == template@.take(index as int),
        decreases 4 - index,
    {
        request.push(template[index]);
        index += 1;
    }
    request.set(3, blocks);
    assert(request@ =~= erase_all_request_of(blocks));
    request
}

/// Erasing a chip of the first generation sends the flash-erase template and
/// then one request for each erase block of the chip's profile, block `i`
/// with `4 * i` in its last byte. A chip of the second generation gets a
/// single request.
pub proof fn lemma_erase_request_count(chip_id: u8)
    ensures
        definition_of(chip_id) matches Some(definition) ==> {
            let blocks = definition.erase_blocks;
            &&& erase_requests(Bootloader::V1, blocks).len() == 1 + blocks
            &&& erase_requests(Bootloader::V1, blocks)[0] == v1_templates().flash_erase
            &&& forall|index: int|
                0 <= index < blocks ==> {
                    &&& #[trigger] erase_requests(Bootloader::V1, blocks)[1 + index]
                        == erase_block_request_of(index)
                    &&& erase_block_request_of(index)[3] == 4 * index
                }
            &&& erase_requests(Bootloader::V2, blocks) == seq![erase_all_request_of(blocks)]
            &&& erase_all_request_of(blocks) == seq![0xA4u8, 0x01, 0x00, blocks]
        },
{
    if let Some(definition) = definition_of(chip_id) {
        let blocks = definition.erase_blocks;
        lemma_erase_blocks_bounded(chip_id);
        assert(erase_all_request_of(blocks) =~= seq![0xA4u8, 0x01, 0x00, blocks]);
    }
}

} // verus!
