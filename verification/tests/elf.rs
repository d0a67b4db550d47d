use tarnos::elf::{load, ElfError};

/// An image with one segment of `memsz` bytes at `vaddr`, of which `filesz`
/// come from the file.
fn image(vaddr: u64, filesz: u64, memsz: u64) -> Vec<u8> {
    let mut b = vec![0u8; 64 + 56];
    b[..4].copy_from_slice(&[0x7f, b'E', b'L', b'F']);
    b[4] = 2;
    b[5] = 1;
    b[16] = 2;
    b[18] = 62;
    b[24..32].copy_from_slice(&(vaddr + 4).to_le_bytes());
    b[32..40].copy_from_slice(&64u64.to_le_bytes());
    b[54] = 56;
    b[56] = 1;
    b[64] = 1;
    b[68] = 6;
    b[72..80].copy_from_slice(&120u64.to_le_bytes());
    b[80..88].copy_from_slice(&vaddr.to_le_bytes());
    b[96..104].copy_from_slice(&filesz.to_le_bytes());
    b[104..112].copy_from_slice(&memsz.to_le_bytes());
    for i in 0..16u8 {
        b.push(i + 1);
    }
    b
}

#[test]
fn a_segment_is_loaded() {
    let data = image(0x40_0010, 16, 0x2000);
    let loaded = load(&data).unwrap();
    assert_eq!(loaded.entry, 0x40_0014);
    assert_eq!(loaded.segments.len(), 1);
    let seg = &loaded.segments[0];
    assert_eq!(seg.first_page(), 0x40_0000);
    assert_eq!(seg.last_page(), 0x40_2000);
    assert!(seg.flags.writable);
    assert!(seg.flags.user);
    assert!(seg.flags.no_execute);
    let first = seg.page_image(&data, 0x40_0000);
    assert_eq!(first.len(), 4096);
    assert_eq!(&first[..16], &[0u8; 16]);
    assert_eq!(first[16], 1);
    assert_eq!(first[31], 16);
    assert_eq!(first[32], 0);
    let second = seg.page_image(&data, 0x40_1000);
    assert!(second.iter().all(|b| *b == 0));
}

#[test]
fn bad_images_are_refused() {
    assert_eq!(load(&[0u8; 10]).err(), Some(ElfError::TooShort));
    let mut b = image(0x40_0000, 16, 16);
    b[0] = 0;
    assert_eq!(load(&b).err(), Some(ElfError::BadMagic));
    let mut b = image(0x40_0000, 16, 16);
    b[4] = 1;
    assert_eq!(load(&b).err(), Some(ElfError::NotElf64));
    let mut b = image(0x40_0000, 16, 16);
    b[5] = 2;
    assert_eq!(load(&b).err(), Some(ElfError::NotLittleEndian));
    let mut b = image(0x40_0000, 16, 16);
    b[16] = 3;
    assert_eq!(load(&b).err(), Some(ElfError::NotExecutable));
    let mut b = image(0x40_0000, 16, 16);
    b[18] = 3;
    assert_eq!(load(&b).err(), Some(ElfError::WrongMachine));
    assert_eq!(
        load(&image(0x40_0000, 17, 17)).err(),
        Some(ElfError::SegmentExceedsFile)
    );
    assert_eq!(
        load(&image(0xffff_8000_0000_0000, 16, 16)).err(),
        Some(ElfError::SegmentOutOfRange)
    );
    assert_eq!(
        load(&image(0, 16, 16)).err(),
        Some(ElfError::SegmentOutOfRange)
    );
}
