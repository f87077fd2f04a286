//! Device profiles
//!
//! Each microcontroller type has its own memory capacity and boot parameters.

use vstd::prelude::*;

verus! {

/// Memory layout of one chip model.
#[derive(Clone, Copy, Debug, PartialEq, Eq, Structural)]
pub struct Definition {
    pub flash_blocks: u8,
    pub erase_blocks: u8,
    pub boot_address: u32,
}

/// The registry: chip identifier to profile. Identifiers outside the family
/// have no profile.
pub open spec fn definition_of(chip_id: u8) -> Option<Definition> {
    if chip_id == 0x51 || chip_id == 0x53 {
        Some(Definition { flash_blocks: 10, erase_blocks: 10, boot_address: 0x3800 })
    } else if chip_id == 0x52 || chip_id == 0x54 {
        Some(Definition { flash_blocks: 16, erase_blocks: 14, boot_address: 0x3800 })
    } else if chip_id == 0x58 {
        Some(Definition { flash_blocks: 40, erase_blocks: 32, boot_address: 0xF400 })
    } else if chip_id == 0x59 {
        Some(Definition { flash_blocks: 64, erase_blocks: 60, boot_address: 0xF400 })
    } else {
        None
    }
}

/// Largest erase-block count in the registry.
pub const MAX_ERASE_BLOCKS: u8 = 60;

impl Definition {
    /// Looks a chip identifier up in the registry.
    pub fn for_chip(chip_id: u8) -> (found: Option<Definition>)
        ensures
            found == definition_of(chip_id),
    {
        match chip_id {
            0x51 | 0x53 => Some(
                Definition { flash_blocks: 10, erase_blocks: 10, boot_address: 0x3800 },
            ),
            0x52 | 0x54 => Some(
                Definition { flash_blocks: 16, erase_blocks: 14, boot_address: 0x3800 },
            ),
            0x58 => Some(Definition { flash_blocks: 40, erase_blocks: 32, boot_address: 0xF400 }),
            0x59 => Some(Definition { flash_blocks: 64, erase_blocks: 60, boot_address: 0xF400 }),
            _ => None,
        }
    }
}

/// No profile erases more blocks than the chip has, nor more than
/// [`MAX_ERASE_BLOCKS`].
pub proof fn lemma_erase_blocks_bounded(chip_id: u8)
    ensures
        definition_of(chip_id) matches Some(definition) ==> definition.erase_blocks
            <= definition.flash_blocks && definition.erase_blocks <= MAX_ERASE_BLOCKS,
{
}

} // verus!
