//! Command templates
//!
//! Each bootloader generation understands its own fixed byte sequences for
//! managing the microcontroller.

use vstd::prelude::*;

verus! {

/// Bootloader generation found on the chip.
#[derive(Clone, Copy, Debug, Hash, PartialEq, Eq, Structural)]
pub enum Bootloader {
    Unknown,
    V1,
    V2,
}

/// Request templates of one bootloader generation.
#[derive(Clone, Copy)]
pub struct Sequence {
    pub chip_detect: &'static [u8],
    pub bootloader_exit: &'static [u8],
    pub flash_erase: &'static [u8],
    pub mode_write: &'static [u8],
    pub mode_verify: &'static [u8],
    pub config_read: &'static [u8],
    pub config_write: &'static [u8],
}

/// The bytes of a [`Sequence`], field by field.
pub struct Templates {
    pub chip_detect: Seq<u8>,
    pub bootloader_exit: Seq<u8>,
    pub flash_erase: Seq<u8>,
    pub mode_write: Seq<u8>,
    pub mode_verify: Seq<u8>,
    pub config_read: Seq<u8>,
    pub config_write: Seq<u8>,
}

/// Templates of the first bootloader generation.
pub open spec fn v1_templates() -> Templates {
    Templates {
        chip_detect: seq![
            0xA2u8, 0x13, 0x55, 0x53, 0x42, 0x20, 0x44, 0x42, 0x47, 0x20, 0x43, 0x48, 0x35, 0x35,
            0x39, 0x20, 0x26, 0x20, 0x49, 0x53, 0x50, 0x00,
        ],
        bootloader_exit: seq![0xA5u8, 0x02, 0x01, 0x00],
        flash_erase: seq![0xA6u8, 0x04, 0x00, 0x00, 0x00, 0x00],
        mode_write: seq![0xA8u8],
        mode_verify: seq![0xA7u8],
        config_read: seq![0xBBu8, 0x00],
        config_write: Seq::empty(),
    }
}

/// Templates of the second bootloader generation.
pub open spec fn v2_templates() -> Templates {
    Templates {
        chip_detect: seq![
            0xA1u8, 0x12, 0x00, 0x59, 0x11, 0x4D, 0x43, 0x55, 0x20, 0x49, 0x53, 0x50, 0x20, 0x26,
            0x20, 0x57, 0x43, 0x48, 0x2E, 0x43, 0x4E,
        ],
        bootloader_exit: seq![0xA2u8, 0x01, 0x00, 0x01],
        flash_erase: seq![0xA4u8, 0x01, 0x00, 0x00],
        mode_write: seq![0xA5u8],
        mode_verify: seq![0xA6u8],
        config_read: seq![0xA7u8, 0x02, 0x00, 0x1F, 0x00],
        config_write: seq![
            0xA8u8, 0x0E, 0x00, 0x07, 0x00, 0xFF, 0xFF, 0xFF, 0xFF, 0x03, 0x00, 0x00, 0x00, 0xFF,
            0x4E, 0x00, 0x00,
        ],
    }
}

/// The registry: which templates belong to which bootloader. An undetected
/// bootloader has none.
pub open spec fn templates_of(bootloader: Bootloader) -> Option<Templates> {
    match bootloader {
        Bootloader::Unknown => None,
        Bootloader::V1 => Some(v1_templates()),
        Bootloader::V2 => Some(v2_templates()),
    }
}

impl View for Sequence {
    type V = Templates;

    open spec fn view(&self) -> Templates {
        Templates {
            chip_detect: self.chip_detect@,
            bootloader_exit: self.bootloader_exit@,
            flash_erase: self.flash_erase@,
            mode_write: self.mode_write@,
            mode_verify: self.mode_verify@,
            config_read: self.config_read@,
            config_write: self.config_write@,
        }
    }
}

impl Sequence {
    /// Templates of the first bootloader generation.
    pub fn v1() -> (sequence: Sequence)
        ensures
            sequence@ == v1_templates(),
    {
        let sequence = Sequence {
            chip_detect: &[
                0xA2, 0x13, 0x55, 0x53, 0x42, 0x20, 0x44, 0x42, 0x47, 0x20, 0x43, 0x48, 0x35,
                0x35, 0x39, 0x20, 0x26, 0x20, 0x49, 0x53, 0x50, 0x00,
            ],
            bootloader_exit: &[0xA5, 0x02, 0x01, 0x00],
            flash_erase: &[0xA6, 0x04, 0x00, 0x00, 0x00, 0x00],
            mode_write: &[0xA8],
            mode_verify: &[0xA7],
            config_read: &[0xBB, 0x00],
            config_write: &[],
        };
        proof {
            let expected = v1_templates();
            assert(sequence.chip_detect@ =~= expected.chip_detect);
            assert(sequence.bootloader_exit@ =~= expected.bootloader_exit);
            assert(sequence.flash_erase@ =~= expected.flash_erase);
            assert(sequence.mode_write@ =~= expected.mode_write);
            assert(sequence.mode_verify@ =~= expected.mode_verify);
            assert(sequence.config_read@ =~= expected.config_read);
            assert(sequence.config_write@ =~= expected.config_write);
        }
        sequence
    }

    /// Templates of the second bootloader generation.
    pub fn v2() -> (sequence: Sequence)
        ensures
            sequence@ == v2_templates(),
    {
        let sequence = Sequence {
            chip_detect: &[
                0xA1, 0x12, 0x00, 0x59, 0x11, 0x4D, 0x43, 0x55, 0x20, 0x49, 0x53, 0x50, 0x20,
                0x26, 0x20, 0x57, 0x43, 0x48, 0x2E, 0x43, 0x4E,
            ],
            bootloader_exit: &[0xA2, 0x01, 0x00, 0x01],
            flash_erase: &[0xA4, 0x01, 0x00, 0x00],
            mode_write: &[0xA5],
            mode_verify: &[0xA6],
            config_read: &[0xA7, 0x02, 0x00, 0x1F, 0x00],
            config_write: &[
                0xA8, 0x0E, 0x00, 0x07, 0x00, 0xFF, 0xFF, 0xFF, 0xFF, 0x03, 0x00, 0x00, 0x00,
                0xFF, 0x4E, 0x00, 0x00,
            ],
        };
        proof {
            let expected = v2_templates();
            assert(sequence.chip_detect@ =~= expected.chip_detect);
            assert(sequence.bootloader_exit@ =~= expected.bootloader_exit);
            assert(sequence.flash_erase@ =~= expected.flash_erase);
            assert(sequence.mode_write@ =~= expected.mode_write);
            assert(sequence.mode_verify@ =~= expected.mode_verify);
            assert(sequence.config_read@ =~= expected.config_read);
            assert(sequence.config_write@ =~= expected.config_write);
        }
        sequence
    }

    /// Looks a bootloader up in the registry.
    pub fn for_bootloader(bootloader: Bootloader) -> (found: Option<Sequence>)
        ensures
            match found {
                Some(sequence) => templates_of(bootloader) == Some(sequence@),
                None => templates_of(bootloader) is None,
            },
    {
        match bootloader {
            Bootloader::Unknown => None,
            Bootloader::V1 => Some(Sequence::v1()),
            Bootloader::V2 => Some(Sequence::v2()),
        }
    }
}

} // verus!
