use tarnos::driver::block::{BlockDevice, BlockError};
use tarnos::driver::Driver;
use tarnos::fs::fat::{mount_root, Fat12Volume, FatError};

struct MemDisk {
    bytes: Vec<u8>,
    broken: bool,
}

impl Driver for MemDisk {
    fn name(&self) -> &'static str {
        "memdisk"
    }
}

impl BlockDevice for MemDisk {
    fn capacity_sectors(&self) -> u64 {
        (self.bytes.len() / 512) as u64
    }

    fn read_sectors(&mut self, lba: u64, buf: &mut [u8]) -> Result<(), BlockError> {
        if buf.is_empty() || buf.len() % 512 != 0 {
            return Err(BlockError::BufferNotSectorAligned);
        }
        if self.broken {
            return Err(BlockError::DeviceError);
        }
        let start = lba as usize * 512;
        if start + buf.len() > self.bytes.len() {
            return Err(BlockError::OutOfRange);
        }
        buf.copy_from_slice(&self.bytes[start..start + buf.len()]);
        Ok(())
    }
}

/// One reserved sector, one table of one sector, one directory sector of
/// sixteen entries, and 29 clusters of one sector.
fn boot_sector() -> Vec<u8> {
    let mut b = vec![0u8; 512];
    b[11] = 0;
    b[12] = 2;
    b[13] = 1;
    b[14] = 1;
    b[16] = 1;
    b[17] = 16;
    b[19] = 32;
    b[22] = 1;
    b[510] = 0x55;
    b[511] = 0xAA;
    b
}

fn set_entry(fat: &mut [u8], cluster: usize, value: u16) {
    let at = cluster + cluster / 2;
    if cluster % 2 == 0 {
        fat[at] = value as u8;
        fat[at + 1] = (fat[at + 1] & 0xF0) | ((value >> 8) as u8 & 0x0F);
    } else {
        fat[at] = (fat[at] & 0x0F) | ((value << 4) as u8);
        fat[at + 1] = (value >> 4) as u8;
    }
}

fn disk() -> MemDisk {
    let mut bytes = vec![0u8; 32 * 512];
    bytes[..512].copy_from_slice(&boot_sector());
    set_entry(&mut bytes[512..1024], 2, 0xFFF);
    set_entry(&mut bytes[512..1024], 3, 4);
    set_entry(&mut bytes[512..1024], 4, 6);
    set_entry(&mut bytes[512..1024], 6, 0xFF8);
    set_entry(&mut bytes[512..1024], 7, 7);
    let root = 1024;
    bytes[root] = 0xE5;
    bytes[root + 32..root + 43].copy_from_slice(b"HELLO   TXT");
    bytes[root + 32 + 26] = 2;
    bytes[root + 32 + 28] = 5;
    bytes[root + 64..root + 75].copy_from_slice(b"BIG     BIN");
    bytes[root + 64 + 26] = 3;
    bytes[root + 64 + 28] = 0x78;
    bytes[root + 64 + 29] = 0x05;
    bytes[root + 96..root + 107].copy_from_slice(b"LOOP       ");
    bytes[root + 96 + 26] = 7;
    bytes[root + 96 + 28] = 1;
    bytes[root + 128..root + 139].copy_from_slice(b"EMPTY      ");
    let data = 3 * 512;
    bytes[data..data + 5].copy_from_slice(b"hello");
    for (place, cluster) in [3usize, 4, 6].iter().enumerate() {
        let start = data + (cluster - 2) * 512;
        for k in 0..512 {
            bytes[start + k] = place as u8 + 1;
        }
    }
    MemDisk {
        bytes,
        broken: false,
    }
}

#[test]
fn a_volume_is_mounted_from_its_boot_sector() {
    let mut d = disk();
    let v = Fat12Volume::mount(&mut d).unwrap();
    assert_eq!(v.fat_start_lba, 1);
    assert_eq!(v.root_dir_start_lba, 2);
    assert_eq!(v.root_dir_sectors, 1);
    assert_eq!(v.data_start_lba, 3);
    assert_eq!(v.total_clusters, 29);
    assert_eq!(v.sectors_per_cluster, 1);
}

#[test]
fn bad_boot_sectors_are_refused() {
    let mut b = boot_sector();
    b[510] = 0;
    assert_eq!(
        Fat12Volume::parse_boot_sector(&b),
        Err(FatError::BadSignature)
    );
    let mut b = boot_sector();
    b[12] = 4;
    assert_eq!(
        Fat12Volume::parse_boot_sector(&b),
        Err(FatError::UnsupportedSectorSize)
    );
    let mut b = boot_sector();
    b[13] = 0;
    assert_eq!(
        Fat12Volume::parse_boot_sector(&b),
        Err(FatError::CorruptBootSector)
    );
    let mut b = boot_sector();
    b[19] = 0xFF;
    b[20] = 0xFF;
    assert_eq!(Fat12Volume::parse_boot_sector(&b), Err(FatError::NotFat12));
}

#[test]
fn files_are_read_whole() {
    let mut d = disk();
    let v = Fat12Volume::mount(&mut d).unwrap();
    assert_eq!(v.read_file(&mut d, "hello.txt").unwrap(), b"hello".to_vec());
    let big = v.read_file(&mut d, "BIG.BIN").unwrap();
    assert_eq!(big.len(), 0x578);
    assert_eq!(big[0], 1);
    assert_eq!(big[511], 1);
    assert_eq!(big[512], 2);
    assert_eq!(big[1024], 3);
    assert_eq!(big[0x577], 3);
}

#[test]
fn lookup_ignores_case() {
    let mut d = disk();
    let v = Fat12Volume::mount(&mut d).unwrap();
    let upper = v.read_file(&mut d, "HELLO.TXT");
    let mixed = v.read_file(&mut d, "HeLLo.tXt");
    assert_eq!(upper, mixed);
    assert!(upper.is_ok());
}

#[test]
fn file_errors_are_told_apart() {
    let mut d = disk();
    let v = Fat12Volume::mount(&mut d).unwrap();
    assert_eq!(
        v.read_file(&mut d, "missing.txt"),
        Err(FatError::NoSuchFile)
    );
    assert_eq!(
        v.read_file(&mut d, "much-too-long.txt"),
        Err(FatError::NameTooLong)
    );
    assert_eq!(v.read_file(&mut d, "loop"), Err(FatError::CorruptFat));
    d.broken = true;
    assert_eq!(
        v.read_file(&mut d, "hello.txt"),
        Err(FatError::Io(BlockError::DeviceError))
    );
    assert_eq!(
        Fat12Volume::mount(&mut d),
        Err(FatError::Io(BlockError::DeviceError))
    );
    assert_eq!(mount_root::<MemDisk>(None), Err(FatError::NoDevice));
    let mut good = disk();
    assert!(mount_root(Some(&mut good)).is_ok());
}

#[test]
fn twelve_bit_entries_are_unpacked() {
    let mut fat = vec![0u8; 12];
    set_entry(&mut fat, 2, 0xABC);
    set_entry(&mut fat, 3, 0x123);
    assert_eq!(Fat12Volume::fat12_entry(&fat, 2), Ok(0xABC));
    assert_eq!(Fat12Volume::fat12_entry(&fat, 3), Ok(0x123));
    assert_eq!(
        Fat12Volume::fat12_entry(&fat, 100),
        Err(FatError::CorruptFat)
    );
}

#[test]
fn names_are_packed() {
    assert_eq!(Fat12Volume::to_83_name("a.b"), Some(*b"A       B  "));
    assert_eq!(Fat12Volume::to_83_name("hello.txt"), Some(*b"HELLO   TXT"));
    assert_eq!(Fat12Volume::to_83_name("noext"), Some(*b"NOEXT      "));
    assert_eq!(Fat12Volume::to_83_name("ninechars"), None);
    assert_eq!(Fat12Volume::to_83_name("a.long"), None);
}

/// A device that only ever reads one sector at a time.
struct Strict(MemDisk, Vec<u64>);

impl Driver for Strict {
    fn name(&self) -> &'static str {
        "strict"
    }
}

impl BlockDevice for Strict {
    fn capacity_sectors(&self) -> u64 {
        self.0.capacity_sectors()
    }

    fn read_sectors(&mut self, lba: u64, buf: &mut [u8]) -> Result<(), BlockError> {
        if buf.len() != 512 {
            return Err(BlockError::DeviceError);
        }
        self.1.push(lba);
        self.0.read_sectors(lba, buf)
    }
}

#[test]
fn files_are_read_by_the_sector() {
    let mut d = Strict(disk(), Vec::new());
    let v = Fat12Volume::mount(&mut d).unwrap();
    assert_eq!(d.1, vec![0]);
    d.1.clear();
    assert_eq!(v.read_file(&mut d, "big.bin").unwrap().len(), 0x578);
    assert_eq!(d.1, vec![2, 1, 4, 5, 7]);
    d.1.clear();
    assert_eq!(v.read_file(&mut d, "much-too-long.txt"), Err(FatError::NameTooLong));
    assert_eq!(d.1, Vec::<u64>::new());
}

#[test]
fn a_chain_that_is_too_short_is_corrupt() {
    let mut d = disk();
    d.bytes[1024 + 32 + 29] = 2;
    let v = Fat12Volume::mount(&mut d).unwrap();
    assert_eq!(v.read_file(&mut d, "hello.txt"), Err(FatError::CorruptFat));
    assert_eq!(v.read_file(&mut d, "empty"), Ok(Vec::new()));
}

#[test]
fn bytes_are_cut_to_the_recorded_size() {
    assert_eq!(Fat12Volume::file_bytes(vec![1, 2, 3], 2), Ok(vec![1, 2]));
    assert_eq!(Fat12Volume::file_bytes(vec![1, 2, 3], 3), Ok(vec![1, 2, 3]));
    assert_eq!(Fat12Volume::file_bytes(vec![1, 2, 3], 4), Err(FatError::CorruptFat));
    assert_eq!(Fat12Volume::file_bytes(vec![1, 2, 3], 0), Ok(vec![]));
}

/// A device that fails one request, counted from the first, with an error of
/// its own.
struct Flaky(MemDisk, usize, BlockError);

impl Driver for Flaky {
    fn name(&self) -> &'static str {
        "flaky"
    }
}

impl BlockDevice for Flaky {
    fn capacity_sectors(&self) -> u64 {
        self.0.capacity_sectors()
    }

    fn read_sectors(&mut self, lba: u64, buf: &mut [u8]) -> Result<(), BlockError> {
        if self.1 == 0 {
            return Err(self.2);
        }
        self.1 -= 1;
        self.0.read_sectors(lba, buf)
    }
}

#[test]
fn the_first_request_that_fails_decides() {
    let mut d = disk();
    let v = Fat12Volume::mount(&mut d).unwrap();
    let mut failing = Flaky(disk(), 0, BlockError::RequestTooLarge);
    assert_eq!(
        Fat12Volume::mount(&mut failing),
        Err(FatError::Io(BlockError::RequestTooLarge))
    );
    for served in 0..5 {
        let mut flaky = Flaky(disk(), served, BlockError::DeviceError);
        assert_eq!(
            v.read_file(&mut flaky, "big.bin"),
            Err(FatError::Io(BlockError::DeviceError))
        );
    }
    let mut flaky = Flaky(disk(), 5, BlockError::DeviceError);
    assert_eq!(v.read_file(&mut flaky, "big.bin").unwrap().len(), 0x578);
    let mut flaky = Flaky(disk(), 1, BlockError::DeviceError);
    assert_eq!(v.read_file(&mut flaky, "none.txt"), Err(FatError::NoSuchFile));
}
