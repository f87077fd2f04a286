use chprog_lib::definitions::Definition;
use chprog_lib::sequence::{Bootloader, Sequence};

#[test]
fn every_chip_of_the_family_has_its_profile() {
    let small = Definition { flash_blocks: 10, erase_blocks: 10, boot_address: 0x3800 };
    let medium = Definition { flash_blocks: 16, erase_blocks: 14, boot_address: 0x3800 };
    assert_eq!(Definition::for_chip(0x51), Some(small));
    assert_eq!(Definition::for_chip(0x52), Some(medium));
    assert_eq!(Definition::for_chip(0x53), Some(small));
    assert_eq!(Definition::for_chip(0x54), Some(medium));
    assert_eq!(
        Definition::for_chip(0x58),
        Some(Definition { flash_blocks: 40, erase_blocks: 32, boot_address: 0xF400 })
    );
    assert_eq!(
        Definition::for_chip(0x59),
        Some(Definition { flash_blocks: 64, erase_blocks: 60, boot_address: 0xF400 })
    );
}

#[test]
fn other_identifiers_have_no_profile() {
    for chip_id in 0..=255u8 {
        let known = [0x51, 0x52, 0x53, 0x54, 0x58, 0x59].contains(&chip_id);
        assert_eq!(Definition::for_chip(chip_id).is_some(), known);
    }
}

#[test]
fn first_generation_templates() {
    let sequence = Sequence::v1();
    assert_eq!(
        sequence.chip_detect,
        &[
            0xA2, 0x13, 0x55, 0x53, 0x42, 0x20, 0x44, 0x42, 0x47, 0x20, 0x43, 0x48, 0x35, 0x35,
            0x39, 0x20, 0x26, 0x20, 0x49, 0x53, 0x50, 0x00
        ]
    );
    assert_eq!(sequence.bootloader_exit, &[0xA5, 0x02, 0x01, 0x00]);
    assert_eq!(sequence.flash_erase, &[0xA6, 0x04, 0x00, 0x00, 0x00, 0x00]);
    assert_eq!(sequence.mode_write, &[0xA8]);
    assert_eq!(sequence.mode_verify, &[0xA7]);
    assert_eq!(sequence.config_read, &[0xBB, 0x00]);
    assert!(sequence.config_write.is_empty());
}

#[test]
fn second_generation_templates() {
    let sequence = Sequence::v2();
    assert_eq!(
        sequence.chip_detect,
        &[
            0xA1, 0x12, 0x00, 0x59, 0x11, 0x4D, 0x43, 0x55, 0x20, 0x49, 0x53, 0x50, 0x20, 0x26,
            0x20, 0x57, 0x43, 0x48, 0x2E, 0x43, 0x4E
        ]
    );
    assert_eq!(sequence.bootloader_exit, &[0xA2, 0x01, 0x00, 0x01]);
    assert_eq!(sequence.flash_erase, &[0xA4, 0x01, 0x00, 0x00]);
    assert_eq!(sequence.mode_write, &[0xA5]);
    assert_eq!(sequence.mode_verify, &[0xA6]);
    assert_eq!(sequence.config_read, &[0xA7, 0x02, 0x00, 0x1F, 0x00]);
    assert_eq!(
        sequence.config_write,
        &[
            0xA8, 0x0E, 0x00, 0x07, 0x00, 0xFF, 0xFF, 0xFF, 0xFF, 0x03, 0x00, 0x00, 0x00, 0xFF,
            0x4E, 0x00, 0x00
        ]
    );
}

#[test]
fn registry_is_keyed_by_bootloader() {
    assert!(Sequence::for_bootloader(Bootloader::Unknown).is_none());
    let v1 = Sequence::for_bootloader(Bootloader::V1).unwrap();
    assert_eq!(v1.config_read, Sequence::v1().config_read);
    let v2 = Sequence::for_bootloader(Bootloader::V2).unwrap();
    assert_eq!(v2.config_read, Sequence::v2().config_read);
}
