//! FAT12: boot sector, cluster chains, flat root-directory lookup of 8.3
//! names, and whole-file reads, on top of any block device.
//!
//! Read-only, no long filenames, no subdirectories, no caching. What a
//! volume, a directory, a chain and a file are is stated over the bytes of
//! the device; the device itself may fail any read.
use vstd::prelude::*;
use vstd::string::*;
use crate::bytes;
use crate::driver::block;
use crate::driver::block::{
    BlockDevice, BlockError, BlockRequest, Exchange, SECTOR_SIZE,
};

verus! {

/// Offset of the boot sector's signature.
pub const BOOT_SIG_OFFSET: usize = 510;

pub const BPB_BYTS_PER_SEC: usize = 11;

pub const BPB_SEC_PER_CLUS: usize = 13;

pub const BPB_RSVD_SEC_CNT: usize = 14;

pub const BPB_NUM_FATS: usize = 16;

pub const BPB_ROOT_ENT_CNT: usize = 17;

pub const BPB_TOT_SEC_16: usize = 19;

pub const BPB_FAT_SZ_16: usize = 22;

pub const BPB_TOT_SEC_32: usize = 32;

/// Size of a directory entry.
pub const DIRENT_SIZE: usize = 32;

pub const DIRENT_NAME_LEN: usize = 11;

pub const DIRENT_ATTR: usize = 11;

pub const DIRENT_FST_CLUS_LO: usize = 26;

pub const DIRENT_FILE_SIZE: usize = 28;

/// First byte of the entry that ends the directory.
pub const DIRENT_FREE_REST: u8 = 0x00;

/// First byte of a deleted entry.
pub const DIRENT_DELETED: u8 = 0xE5;

/// Lowest of the values that end a cluster chain.
pub const FAT12_EOC_MIN: u16 = 0xFF8;

pub const FAT12_BAD_CLUSTER: u16 = 0xFF7;

/// A volume with this many clusters or more is not FAT12.
pub const FAT12_MAX_CLUSTERS: u64 = 4085;

/// The first cluster that holds data.
pub const FIRST_DATA_CLUSTER: u32 = 2;

#[derive(Debug, Clone, Copy, PartialEq, Eq, Structural)]
pub enum FatError {
    /// The block device failed to service a read.
    Io(BlockError),
    /// The boot sector lacks the signature.
    BadSignature,
    /// The volume's sector size is not the device's.
    UnsupportedSectorSize,
    /// A boot sector field that the geometry divides or multiplies by is
    /// zero.
    CorruptBootSector,
    /// The cluster count is outside the range of FAT12.
    NotFat12,
    /// No root-directory entry has the requested name.
    NoSuchFile,
    /// A cluster chain leaves the table, runs into a free, bad or reserved
    /// entry, is longer than the volume, or holds less than its file.
    CorruptFat,
    /// The requested name is not of the 8.3 form.
    NameTooLong,
    /// There is no block device to mount.
    NoDevice,
}

/// The 16-bit field at `off`.
pub open spec fn field16(b: Seq<u8>, off: int) -> int {
    bytes::le_value(b.subrange(off, off + 2)) as int
}

/// The 32-bit field at `off`.
pub open spec fn field32(b: Seq<u8>, off: int) -> int {
    bytes::le_value(b.subrange(off, off + 4)) as int
}

/// A mounted volume's geometry.
#[derive(Debug, Clone, Copy, PartialEq, Eq, Structural)]
pub struct Fat12Volume {
    pub sectors_per_cluster: u64,
    pub fat_size_sectors: u64,
    pub fat_start_lba: u64,
    pub root_dir_start_lba: u64,
    pub root_dir_sectors: u64,
    pub data_start_lba: u64,
    /// Total number of data clusters: what makes the volume FAT12, and the
    /// bound on how long a chain can be.
    pub total_clusters: u64,
}

/// How many sectors a directory of `entries` entries takes.
pub open spec fn root_sectors(entries: int) -> int {
    (entries * DIRENT_SIZE + SECTOR_SIZE - 1) / (SECTOR_SIZE as int)
}

/// The sectors of the volume, from whichever of the two count fields is in
/// use.
pub open spec fn total_sectors(boot: Seq<u8>) -> int {
    if field16(boot, BPB_TOT_SEC_16 as int) != 0 {
        field16(boot, BPB_TOT_SEC_16 as int)
    } else {
        field32(boot, BPB_TOT_SEC_32 as int)
    }
}

/// What a boot sector says about its volume.
pub open spec fn volume_of(boot: Seq<u8>) -> Result<Fat12Volume, FatError> {
    let sectors_per_cluster = boot[BPB_SEC_PER_CLUS as int] as int;
    let num_fats = boot[BPB_NUM_FATS as int] as int;
    let fat_size = field16(boot, BPB_FAT_SZ_16 as int);
    let fat_start = field16(boot, BPB_RSVD_SEC_CNT as int);
    let root_dir_sectors = root_sectors(field16(boot, BPB_ROOT_ENT_CNT as int));
    let root_start = fat_start + num_fats * fat_size;
    let data_start = root_start + root_dir_sectors;
    let data_sectors = if total_sectors(boot) > data_start {
        total_sectors(boot) - data_start
    } else {
        0
    };
    if boot[510] != 0x55 || boot[511] != 0xAA {
        Err(FatError::BadSignature)
    } else if field16(boot, BPB_BYTS_PER_SEC as int) != SECTOR_SIZE {
        Err(FatError::UnsupportedSectorSize)
    } else if sectors_per_cluster == 0 || num_fats == 0 || fat_size == 0 {
        Err(FatError::CorruptBootSector)
    } else if data_sectors / sectors_per_cluster >= FAT12_MAX_CLUSTERS {
        Err(FatError::NotFat12)
    } else {
        Ok(
            Fat12Volume {
                sectors_per_cluster: sectors_per_cluster as u64,
                fat_size_sectors: fat_size as u64,
                fat_start_lba: fat_start as u64,
                root_dir_start_lba: root_start as u64,
                root_dir_sectors: root_dir_sectors as u64,
                data_start_lba: data_start as u64,
                total_clusters: (data_sectors / sectors_per_cluster) as u64,
            },
        )
    }
}

/// How the device failed, as an outcome tells: an I/O error is the device's
/// own, and with any other outcome every request was served.
pub open spec fn device_failure<T>(r: Result<T, FatError>) -> Option<BlockError> {
    match r {
        Err(FatError::Io(e)) => Some(e),
        _ => None,
    }
}

/// The packed 12-bit table entry of `cluster`, if the table reaches that
/// far: two entries share three bytes.
pub open spec fn entry_of(fat: Seq<u8>, cluster: int) -> Option<int> {
    let offset = cluster * 3 / 2;
    if offset + 1 >= fat.len() {
        None
    } else if cluster % 2 == 0 {
        Some(field16(fat, offset) % 0x1000)
    } else {
        Some(field16(fat, offset) / 0x10)
    }
}

/// The clusters of the chain that starts at `cluster`, or `None` if it is
/// corrupt or longer than `room` clusters.
pub open spec fn chain_of(fat: Seq<u8>, cluster: int, room: nat) -> Option<Seq<int>>
    decreases room,
{
    if cluster < FIRST_DATA_CLUSTER || room == 0 {
        None
    } else {
        match entry_of(fat, cluster) {
            None => None,
            Some(next) => if next >= FAT12_EOC_MIN {
                Some(seq![cluster])
            } else if next == 0 || next == FAT12_BAD_CLUSTER {
                None
            } else {
                match chain_of(fat, next, (room - 1) as nat) {
                    None => None,
                    Some(rest) => Some(seq![cluster] + rest),
                }
            },
        }
    }
}

/// An ASCII letter in upper case; any other byte as it is.
pub open spec fn upper(c: u8) -> u8 {
    if 0x61 <= c <= 0x7A {
        (c - 0x20) as u8
    } else {
        c
    }
}

/// The position of the last dot before `n`, or -1.
pub open spec fn last_dot(name: Seq<u8>, n: nat) -> int
    decreases n,
{
    if n == 0 {
        -1
    } else if name[n - 1] == 0x2E {
        n - 1
    } else {
        last_dot(name, (n - 1) as nat)
    }
}

/// What stands before the last dot.
pub open spec fn name_base(name: Seq<u8>) -> Seq<u8> {
    let dot = last_dot(name, name.len());
    if dot < 0 {
        name
    } else {
        name.take(dot)
    }
}

/// What stands after the last dot.
pub open spec fn name_ext(name: Seq<u8>) -> Seq<u8> {
    let dot = last_dot(name, name.len());
    if dot < 0 {
        Seq::empty()
    } else {
        name.skip(dot + 1)
    }
}

/// Whether a name is of the 8.3 form.
pub open spec fn is_83_name(name: Seq<u8>) -> bool {
    &&& 0 < name_base(name).len() <= 8
    &&& name_ext(name).len() <= 3
    &&& forall|i: int| 0 <= i < name.len() ==> (#[trigger] name[i]) < 128
}

/// The form in which a directory entry stores a name: eight bytes of base
/// and three of extension, upper case, padded with spaces.
pub open spec fn packed_83(name: Seq<u8>) -> Seq<u8> {
    Seq::new(
        DIRENT_NAME_LEN as nat,
        |i: int|
            if i < name_base(name).len() {
                upper(name_base(name)[i])
            } else if 8 <= i && i - 8 < name_ext(name).len() {
                upper(name_ext(name)[i - 8])
            } else {
                0x20u8
            },
    )
}

/// Whether an entry's attributes mark a part of a long filename.
pub open spec fn is_long_name(attr: u8) -> bool {
    attr % 16 == 15
}

/// Whether an entry's attributes mark the volume label.
pub open spec fn is_volume_label(attr: u8) -> bool {
    (attr / 8) % 2 == 1
}

/// The entry at position `i` of a directory.
pub open spec fn dir_entry(dir: Seq<u8>, i: int) -> Seq<u8> {
    dir.subrange(i * DIRENT_SIZE, i * DIRENT_SIZE + DIRENT_SIZE)
}

/// Whether an entry is a file of the packed name `name83`.
pub open spec fn names_file(entry: Seq<u8>, name83: Seq<u8>) -> bool {
    &&& entry[0] != DIRENT_DELETED
    &&& !is_long_name(entry[DIRENT_ATTR as int])
    &&& !is_volume_label(entry[DIRENT_ATTR as int])
    &&& entry.take(DIRENT_NAME_LEN as int) == name83
}

/// First cluster and size of the first file named `name83` at position `i`
/// or later; an entry that was never used ends the directory.
pub open spec fn find_from(dir: Seq<u8>, name83: Seq<u8>, i: nat) -> Option<(int, int)>
    decreases dir.len() - i * DIRENT_SIZE,
{
    if (i + 1) * DIRENT_SIZE > dir.len() {
        None
    } else {
        let entry = dir_entry(dir, i as int);
        if entry[0] == DIRENT_FREE_REST {
            None
        } else if names_file(entry, name83) {
            Some((field16(entry, DIRENT_FST_CLUS_LO as int), field32(entry, DIRENT_FILE_SIZE as int)))
        } else {
            find_from(dir, name83, i + 1)
        }
    }
}

/// Whether the search for `name83` ends at this entry.
pub open spec fn ends_at(entry: Seq<u8>, name83: Seq<u8>) -> bool {
    entry[0] == DIRENT_FREE_REST || names_file(entry, name83)
}

/// Whether the search for `name83` ends at one of the `n` entries from `i`
/// on: at the file, or at the end of the directory.
pub open spec fn search_ends(dir: Seq<u8>, name83: Seq<u8>, i: nat, n: nat) -> bool {
    exists|k: int| i <= k < i + n && ends_at(#[trigger] dir_entry(dir, k), name83)
}

/// How many sectors of the directory are looked at from sector `sector` on,
/// out of `total`.
pub open spec fn sectors_scanned(dir: Seq<u8>, name83: Seq<u8>, sector: nat, total: nat) -> nat
    decreases total - sector,
{
    if sector >= total {
        0
    } else if search_ends(dir, name83, sector * 16, 16) {
        1
    } else {
        1 + sectors_scanned(dir, name83, sector + 1, total)
    }
}

impl Fat12Volume {
    /// The root directory's bytes.
    pub open spec fn root_dir(self, image: Seq<u8>) -> Seq<u8> {
        block::sectors(
            image,
            self.root_dir_start_lba as int,
            self.root_dir_sectors * SECTOR_SIZE,
        )
    }

    /// The first copy of the allocation table.
    pub open spec fn table(self, image: Seq<u8>) -> Seq<u8> {
        block::sectors(image, self.fat_start_lba as int, self.fat_size_sectors * SECTOR_SIZE)
    }

    /// How many bytes a cluster holds.
    pub open spec fn cluster_bytes(self) -> int {
        self.sectors_per_cluster * SECTOR_SIZE
    }

    /// The sector at which a cluster begins.
    pub open spec fn cluster_lba(self, cluster: int) -> int {
        self.data_start_lba + (cluster - FIRST_DATA_CLUSTER) * self.sectors_per_cluster
    }

    /// The bytes of the first `n` clusters of a chain.
    pub open spec fn chain_bytes(self, image: Seq<u8>, chain: Seq<int>, n: nat) -> Seq<u8>
        decreases n,
    {
        if n == 0 {
            Seq::empty()
        } else {
            self.chain_bytes(image, chain, (n - 1) as nat) + block::sectors(
                image,
                self.cluster_lba(chain[n - 1]),
                self.cluster_bytes(),
            )
        }
    }

    /// A file of `size` bytes whose data starts at `cluster`.
    pub open spec fn file_data(self, image: Seq<u8>, cluster: int, size: int) -> Result<
        Seq<u8>,
        FatError,
    > {
        if size == 0 {
            Ok(Seq::empty())
        } else {
            match chain_of(self.table(image), cluster, self.total_clusters as nat) {
                None => Err(FatError::CorruptFat),
                Some(chain) => {
                    let data = self.chain_bytes(image, chain, chain.len());
                    if size <= data.len() {
                        Ok(data.take(size))
                    } else {
                        Err(FatError::CorruptFat)
                    }
                },
            }
        }
    }

    /// The contents of the file named `name` in the root directory.
    pub open spec fn file(self, image: Seq<u8>, name: Seq<u8>) -> Result<Seq<u8>, FatError> {
        if !is_83_name(name) {
            Err(FatError::NameTooLong)
        } else {
            match find_from(self.root_dir(image), packed_83(name), 0) {
                None => Err(FatError::NoSuchFile),
                Some(found) => self.file_data(image, found.0, found.1),
            }
        }
    }

    /// What is asked of the device for the first `n` clusters of a chain.
    pub open spec fn chain_requests(self, chain: Seq<int>, n: nat) -> Seq<BlockRequest>
        decreases n,
    {
        if n == 0 {
            Seq::empty()
        } else {
            self.chain_requests(chain, (n - 1) as nat) + block::one_by_one(
                self.cluster_lba(chain[n - 1]),
                self.sectors_per_cluster as nat,
            )
        }
    }

    /// What is asked of the device to look `name83` up.
    pub open spec fn lookup_requests(self, image: Seq<u8>, name83: Seq<u8>) -> Seq<BlockRequest> {
        block::one_by_one(
            self.root_dir_start_lba as int,
            sectors_scanned(self.root_dir(image), name83, 0, self.root_dir_sectors as nat),
        )
    }

    /// What is asked of the device for a file's data: the allocation table,
    /// then the clusters, and nothing at all for an empty file.
    pub open spec fn data_requests(self, image: Seq<u8>, cluster: int, size: int) -> Seq<
        BlockRequest,
    > {
        if size == 0 {
            Seq::empty()
        } else {
            block::one_by_one(self.fat_start_lba as int, self.fat_size_sectors as nat) + match chain_of(
                self.table(image),
                cluster,
                self.total_clusters as nat,
            ) {
                None => Seq::empty(),
                Some(chain) => self.chain_requests(chain, chain.len()),
            }
        }
    }

    /// Everything that reading the file named `name` asks of the device, in
    /// order.
    pub open spec fn file_requests(self, image: Seq<u8>, name: Seq<u8>) -> Seq<BlockRequest> {
        if !is_83_name(name) {
            Seq::empty()
        } else {
            self.lookup_requests(image, packed_83(name)) + match find_from(
                self.root_dir(image),
                packed_83(name),
                0,
            ) {
                None => Seq::empty(),
                Some(found) => self.data_requests(image, found.0, found.1),
            }
        }
    }

    /// The geometry that every mounted volume has.
    pub open spec fn valid(self) -> bool {
        &&& 0 < self.sectors_per_cluster <= 0xFF
        &&& 0 < self.fat_size_sectors <= 0xFFFF
        &&& self.fat_start_lba <= 0xFFFF
        &&& self.root_dir_sectors <= 0x1000
        &&& self.root_dir_start_lba <= 0x100_0000
        &&& self.data_start_lba <= 0x100_1000
        &&& self.total_clusters < FAT12_MAX_CLUSTERS
    }

    /// Parses a boot sector.
    pub fn parse_boot_sector(boot: &[u8]) -> (r: Result<Self, FatError>)
        requires
            boot@.len() == SECTOR_SIZE,
        ensures
            r == volume_of(boot@),
            r matches Ok(v) ==> v.valid(),
    {
        if boot[BOOT_SIG_OFFSET] != 0x55 || boot[BOOT_SIG_OFFSET + 1] != 0xAA {
            return Err(FatError::BadSignature);
        }
        let bytes_per_sector: u16 = bytes::read_u16(boot, BPB_BYTS_PER_SEC);
        if bytes_per_sector as usize != SECTOR_SIZE {
            return Err(FatError::UnsupportedSectorSize);
        }
        let sectors_per_cluster: u64 = boot[BPB_SEC_PER_CLUS] as u64;
        let reserved_sector_count: u64 = bytes::read_u16(boot, BPB_RSVD_SEC_CNT) as u64;
        let num_fats: u64 = boot[BPB_NUM_FATS] as u64;
        let root_entry_count: u64 = bytes::read_u16(boot, BPB_ROOT_ENT_CNT) as u64;
        let total_sectors_16: u64 = bytes::read_u16(boot, BPB_TOT_SEC_16) as u64;
        let fat_size_sectors: u64 = bytes::read_u16(boot, BPB_FAT_SZ_16) as u64;
        let total_sectors_32: u64 = bytes::read_u32(boot, BPB_TOT_SEC_32) as u64;
        if sectors_per_cluster == 0 || num_fats == 0 || fat_size_sectors == 0 {
            return Err(FatError::CorruptBootSector);
        }
        let root_dir_sectors: u64 = (root_entry_count * 32 + 511) / 512;
        let fat_start_lba: u64 = reserved_sector_count;
        assert(num_fats * fat_size_sectors <= 0xFF * 0xFFFF) by (nonlinear_arith)
            requires
                num_fats <= 0xFF,
                fat_size_sectors <= 0xFFFF,
        ;
        let root_dir_start_lba: u64 = fat_start_lba + num_fats * fat_size_sectors;
        let data_start_lba: u64 = root_dir_start_lba + root_dir_sectors;
        let total: u64 = if total_sectors_16 != 0 {
            total_sectors_16
        } else {
            total_sectors_32
        };
        let data_sectors: u64 = if total > data_start_lba {
            total - data_start_lba
        } else {
            0
        };
        let total_clusters: u64 = data_sectors / sectors_per_cluster;
        if total_clusters >= FAT12_MAX_CLUSTERS {
            return Err(FatError::NotFat12);
        }
        Ok(
            Fat12Volume {
                sectors_per_cluster,
                fat_size_sectors,
                fat_start_lba,
                root_dir_start_lba,
                root_dir_sectors,
                data_start_lba,
                total_clusters,
            },
        )
    }

    /// Reads and parses the boot sector of `device`. The result is what its
    /// first sector says, or, if the device fails the read, that failure.
    pub fn mount<D: BlockDevice>(device: &mut D) -> (r: Result<Self, FatError>)
        ensures
            final(device).image() == old(device).image(),
            final(device).log() == old(device).log().push(
                ((0u64, SECTOR_SIZE as nat), device_failure(r)),
            ),
            match r {
                Err(FatError::Io(_)) => true,
                _ => r == volume_of(block::sectors(old(device).image(), 0, SECTOR_SIZE as int)),
            },
            r matches Ok(v) ==> v.valid(),
    {
        let mut boot_sector: Vec<u8> = vec![0; SECTOR_SIZE];
        match device.read_sectors(0, boot_sector.as_mut_slice()) {
            Err(e) => Err(FatError::Io(e)),
            Ok(_) => Fat12Volume::parse_boot_sector(boot_sector.as_slice()),
        }
    }

    /// The packed table entry of `cluster`.
    pub fn fat12_entry(fat: &[u8], cluster: u32) -> (r: Result<u16, FatError>)
        ensures
            match r {
                Ok(entry) => entry_of(fat@, cluster as int) == Some(entry as int),
                Err(e) => entry_of(fat@, cluster as int) is None && e == FatError::CorruptFat,
            },
    {
        let offset: u64 = (cluster as u64) * 3 / 2;
        if offset + 1 >= fat.len() as u64 {
            return Err(FatError::CorruptFat);
        }
        let packed: u16 = bytes::read_u16(fat, offset as usize);
        if cluster % 2 == 0 {
            Ok(packed % 0x1000)
        } else {
            Ok(packed / 0x10)
        }
    }

    /// Every cluster of the chain that starts at `start_cluster`, in order.
    /// Bounded by the volume's cluster count, so a cyclic chain cannot loop
    /// forever.
    pub fn cluster_chain(&self, fat: &[u8], start_cluster: u32) -> (r: Result<Vec<u32>, FatError>)
        requires
            self.valid(),
        ensures
            match r {
                Ok(chain) => {
                    &&& chain_of(fat@, start_cluster as int, self.total_clusters as nat)
                        == Some(chain@.map_values(|c: u32| c as int))
                    &&& 0 < chain@.len() <= self.total_clusters
                    &&& chain@[0] == start_cluster
                    &&& forall|i: int|
                        0 <= i < chain@.len() ==> FIRST_DATA_CLUSTER <= #[trigger] chain@[i]
                    &&& forall|i: int|
                        0 < i < chain@.len() ==> (#[trigger] chain@[i]) < 0x1_0000
                },
                Err(e) => {
                    &&& chain_of(fat@, start_cluster as int, self.total_clusters as nat) is None
                    &&& e == FatError::CorruptFat
                },
            },
    {
        let mut chain: Vec<u32> = Vec::new();
        let mut cluster: u32 = start_cluster;
        let ghost whole = chain_of(fat@, start_cluster as int, self.total_clusters as nat);
        let ghost as_int = |c: u32| c as int;
        assert(chain@.map_values(as_int) =~= Seq::<int>::empty());
        loop
            invariant
                self.valid(),
                chain@.len() <= self.total_clusters,
                whole == chain_of(fat@, start_cluster as int, self.total_clusters as nat),
                whole == prefixed(
                    chain@.map_values(as_int),
                    chain_of(fat@, cluster as int, (self.total_clusters - chain@.len()) as nat),
                ),
                as_int == (|c: u32| c as int),
                forall|i: int| 0 <= i < chain@.len() ==> FIRST_DATA_CLUSTER <= #[trigger] chain@[i],
                forall|i: int| 0 < i < chain@.len() ==> (#[trigger] chain@[i]) < 0x1_0000,
                chain@.len() > 0 ==> cluster < 0x1_0000 && chain@[0] == start_cluster,
                chain@.len() == 0 ==> cluster == start_cluster,
            decreases self.total_clusters - chain@.len(),
        {
            if cluster < FIRST_DATA_CLUSTER {
                return Err(FatError::CorruptFat);
            }
            if chain.len() as u64 >= self.total_clusters {
                return Err(FatError::CorruptFat);
            }
            let ghost before = chain@;
            let ghost room = (self.total_clusters - chain@.len()) as nat;
            chain.push(cluster);
            proof {
                assert(chain@.map_values(as_int) =~= before.map_values(as_int).push(
                    cluster as int,
                ));
            }
            match Fat12Volume::fat12_entry(fat, cluster) {
                Err(e) => {
                    return Err(e);
                },
                Ok(next) => {
                    if next >= FAT12_EOC_MIN {
                        assert(before.map_values(as_int) + seq![cluster as int]
                            =~= chain@.map_values(as_int));
                        return Ok(chain);
                    }
                    if next == 0 || next == FAT12_BAD_CLUSTER {
                        return Err(FatError::CorruptFat);
                    }
                    proof {
                        match chain_of(fat@, next as int, (room - 1) as nat) {
                            Some(rest) => {
                                assert(before.map_values(as_int) + (seq![cluster as int] + rest)
                                    =~= chain@.map_values(as_int) + rest);
                            },
                            None => {},
                        }
                    }
                    cluster = next as u32;
                },
            }
        }
    }
}

/// `rest` with `head` in front.
pub open spec fn prefixed(head: Seq<int>, rest: Option<Seq<int>>) -> Option<Seq<int>> {
    match rest {
        Some(s) => Some(head + s),
        None => None,
    }
}

/// The position of the last dot in `name`, or its length if it has none.
fn find_last_dot(name: &[u8]) -> (r: usize)
    ensures
        r <= name@.len(),
        r == name@.len() ==> last_dot(name@, name@.len()) == -1,
        r < name@.len() ==> last_dot(name@, name@.len()) == r,
{
    let mut n: usize = name.len();
    while n > 0
        invariant
            n <= name@.len(),
            last_dot(name@, name@.len()) == last_dot(name@, n as nat),
        decreases n,
    {
        if name[n - 1] == 0x2E {
            return n - 1;
        }
        n = n - 1;
    }
    name.len()
}

/// An ASCII letter in upper case; any other byte as it is.
fn to_upper(c: u8) -> (r: u8)
    ensures
        r == upper(c),
{
    if c >= 0x61 && c <= 0x7A {
        c - 0x20
    } else {
        c
    }
}

fn all_ascii(name: &[u8]) -> (r: bool)
    ensures
        r == forall|i: int| 0 <= i < name@.len() ==> (#[trigger] name@[i]) < 128,
{
    let mut i: usize = 0;
    while i < name.len()
        invariant
            i <= name@.len(),
            forall|j: int| 0 <= j < i ==> (#[trigger] name@[j]) < 128,
        decreases name@.len() - i,
    {
        if name[i] >= 128 {
            assert(!(name@[i as int] < 128));
            return false;
        }
        i = i + 1;
    }
    true
}

/// Whether the eleven name bytes of the entry at `at` are `name83`.
fn same_name(dir: &[u8], at: usize, name83: &[u8; DIRENT_NAME_LEN]) -> (r: bool)
    requires
        at + DIRENT_SIZE <= dir@.len(),
    ensures
        r == (dir@.subrange(at as int, at + DIRENT_SIZE).take(DIRENT_NAME_LEN as int) == name83@),
{
    let ghost entry = dir@.subrange(at as int, at + DIRENT_SIZE);
    let mut k: usize = 0;
    while k < DIRENT_NAME_LEN
        invariant
            k <= 11,
            DIRENT_NAME_LEN == 11,
            DIRENT_SIZE == 32,
            at + DIRENT_SIZE <= dir@.len(),
            entry == dir@.subrange(at as int, at + DIRENT_SIZE),
            forall|j: int| 0 <= j < k ==> entry[j] == name83@[j],
        decreases 11 - k,
    {
        assert(dir@.len() == dir.len());
        if dir[at + k] != name83[k] {
            assert(entry.take(11)[k as int] != name83@[k as int]);
            return false;
        }
        k = k + 1;
    }
    assert(entry.take(11) =~= name83@);
    true
}

impl Fat12Volume {
    /// The packed form of a name like `HELLO.TXT`, or `None` if it is not of
    /// the 8.3 form.
    pub fn to_83_name(name: &str) -> (r: Option<[u8; DIRENT_NAME_LEN]>)
        ensures
            match r {
                Some(packed) => is_83_name(name.spec_bytes()) && packed@ == packed_83(
                    name.spec_bytes(),
                ),
                None => !is_83_name(name.spec_bytes()),
            },
    {
        let b = name.as_bytes();
        let dot: usize = find_last_dot(b);
        let ext_start: usize = if dot < b.len() {
            dot + 1
        } else {
            b.len()
        };
        let ghost base = name_base(b@);
        let ghost ext = name_ext(b@);
        proof {
            if dot < b@.len() {
                assert(base =~= b@.take(dot as int));
                assert(ext =~= b@.skip(dot + 1));
            } else {
                assert(base =~= b@);
                assert(ext =~= Seq::<u8>::empty());
            }
        }
        if dot == 0 || dot > 8 || b.len() - ext_start > 3 || !all_ascii(b) {
            return None;
        }
        let mut out: [u8; DIRENT_NAME_LEN] = [0x20; DIRENT_NAME_LEN];
        let mut i: usize = 0;
        while i < DIRENT_NAME_LEN
            invariant
                i <= 11,
                DIRENT_NAME_LEN == 11,
                out@.len() == 11,
                dot <= 8,
                ext_start <= b@.len(),
                dot <= b@.len(),
                b@.len() - ext_start <= 3,
                base == name_base(b@),
                ext == name_ext(b@),
                base.len() == dot,
                ext.len() == b@.len() - ext_start,
                forall|k: int| 0 <= k < dot ==> base[k] == b@[k],
                forall|k: int| 0 <= k < ext.len() ==> ext[k] == b@[ext_start + k],
                forall|k: int| 0 <= k < i ==> out@[k] == packed_83(b@)[k],
            decreases 11 - i,
        {
            if i < dot {
                out[i] = to_upper(b[i]);
            } else if i >= 8 && i - 8 < b.len() - ext_start {
                out[i] = to_upper(b[ext_start + (i - 8)]);
                assert(ext[i - 8] == b@[ext_start + (i - 8)]);
            } else {
                out[i] = 0x20;
            }
            i = i + 1;
        }
        assert(out@ =~= packed_83(b@));
        Some(out)
    }

    /// First cluster and size of the file named `name83` among the entries
    /// of one directory sector. `Ok(None)` means the search goes on in the
    /// next sector.
    fn scan_sector(sector: &[u8], name83: &[u8; DIRENT_NAME_LEN], Ghost(dir): Ghost<Seq<u8>>, Ghost(
        first,
    ): Ghost<int>) -> (r: Result<Option<(u16, u32)>, FatError>)
        requires
            sector@.len() == SECTOR_SIZE,
            0 <= first,
            (first + 16) * DIRENT_SIZE <= dir.len(),
            sector@ == dir.subrange(first * DIRENT_SIZE, (first + 16) * DIRENT_SIZE),
        ensures
            match r {
                Ok(Some(found)) => search_ends(dir, name83@, first as nat, 16) && find_from(
                    dir,
                    name83@,
                    first as nat,
                ) == Some((found.0 as int, found.1 as int)),
                Ok(None) => !search_ends(dir, name83@, first as nat, 16) && find_from(dir, name83@, first as nat) == find_from(
                    dir,
                    name83@,
                    (first + 16) as nat,
                ),
                Err(e) => e == FatError::NoSuchFile && search_ends(dir, name83@, first as nat, 16)
                    && find_from(dir, name83@, first as nat) is None,
            },
    {
        let mut e: usize = 0;
        while e < 16
            invariant
                e <= 16,
                sector@.len() == 512,
                0 <= first,
                (first + 16) * DIRENT_SIZE <= dir.len(),
                sector@ == dir.subrange(first * DIRENT_SIZE, (first + 16) * DIRENT_SIZE),
                find_from(dir, name83@, first as nat) == find_from(
                    dir,
                    name83@,
                    (first + e) as nat,
                ),
                forall|k: int|
                    first <= k < first + e ==> !ends_at(#[trigger] dir_entry(dir, k), name83@),
            decreases 16 - e,
        {
            let at: usize = e * DIRENT_SIZE;
            let ghost entry = dir_entry(dir, first + e);
            proof {
                assert(entry =~= sector@.subrange(at as int, at + 32));
            }
            let first_byte: u8 = sector[at];
            assert(entry[0] == first_byte);
            if first_byte == DIRENT_FREE_REST {
                return Err(FatError::NoSuchFile);
            }
            let attr: u8 = sector[at + DIRENT_ATTR];
            assert(entry[DIRENT_ATTR as int] == attr);
            if first_byte != DIRENT_DELETED && attr % 16 != 15 && (attr / 8) % 2 != 1 && same_name(
                sector,
                at,
                name83,
            ) {
                let first_cluster: u16 = bytes::read_u16(sector, at + DIRENT_FST_CLUS_LO);
                let file_size: u32 = bytes::read_u32(sector, at + DIRENT_FILE_SIZE);
                proof {
                    assert(entry.subrange(26, 28) =~= sector@.subrange(at + 26, at + 28));
                    assert(entry.subrange(28, 32) =~= sector@.subrange(at + 28, at + 32));
                }
                return Ok(Some((first_cluster, file_size)));
            }
            e = e + 1;
        }
        Ok(None)
    }

    /// Reads one sector.
    fn read_sector<D: BlockDevice>(device: &mut D, lba: u64) -> (r: Result<Vec<u8>, FatError>)
        ensures
            final(device).image() == old(device).image(),
            final(device).log() == old(device).log().push(
                ((lba, SECTOR_SIZE as nat), device_failure(r)),
            ),
            match r {
                Ok(sector) => sector@ == block::sectors(
                    old(device).image(),
                    lba as int,
                    SECTOR_SIZE as int,
                ),
                Err(e) => e is Io,
            },
    {
        let mut sector: Vec<u8> = vec![0; SECTOR_SIZE];
        match device.read_sectors(lba, sector.as_mut_slice()) {
            Err(e) => Err(FatError::Io(e)),
            Ok(_) => Ok(sector),
        }
    }

    /// Reads `count` sectors from `lba` on, one at a time, since a device
    /// need not service more in one call.
    fn read_sectors<D: BlockDevice>(device: &mut D, lba: u64, count: u64) -> (r: Result<
        Vec<u8>,
        FatError,
    >)
        requires
            lba + count <= u64::MAX,
        ensures
            final(device).image() == old(device).image(),
            block::asked(
                old(device).log(),
                final(device).log(),
                block::one_by_one(lba as int, count as nat),
                device_failure(r),
            ),
            match r {
                Ok(data) => data@ == block::sectors(
                    old(device).image(),
                    lba as int,
                    count * SECTOR_SIZE,
                ),
                Err(e) => e is Io,
            },
    {
        let ghost image = device.image();
        let ghost before = device.log();
        let ghost wanted = block::one_by_one(lba as int, count as nat);
        let mut data: Vec<u8> = Vec::new();
        let mut i: u64 = 0;
        proof {
            block::lemma_asked_nothing(before);
            assert(wanted.take(0) =~= Seq::<BlockRequest>::empty());
        }
        while i < count
            invariant
                lba + count <= u64::MAX,
                i <= count,
                image == old(device).image(),
                before == old(device).log(),
                wanted == block::one_by_one(lba as int, count as nat),
                device.image() == image,
                block::asked(before, device.log(), wanted.take(i as int), None),
                data@ == block::sectors(image, lba as int, i * SECTOR_SIZE),
            decreases count - i,
        {
            let ghost middle = device.log();
            let answer = Fat12Volume::read_sector(device, lba + i);
            proof {
                assert(wanted[i as int] == ((lba + i) as u64, SECTOR_SIZE as nat));
                block::lemma_asked_next(before, middle, wanted, i as int, device_failure(answer));
            }
            match answer {
                Err(e) => {
                    return Err(e);
                },
                Ok(sector) => {
                    let mut sector = sector;
                    data.append(&mut sector);
                },
            }
            i = i + 1;
            assert(data@ =~= block::sectors(image, lba as int, i * SECTOR_SIZE));
        }
        assert(wanted.take(i as int) =~= wanted);
        Ok(data)
    }

    /// First cluster and size of the file named `name83` in the root
    /// directory.
    pub fn find_dir_entry<D: BlockDevice>(
        &self,
        device: &mut D,
        name83: &[u8; DIRENT_NAME_LEN],
    ) -> (r: Result<(u16, u32), FatError>)
        requires
            self.valid(),
        ensures
            final(device).image() == old(device).image(),
            block::asked(
                old(device).log(),
                final(device).log(),
                self.lookup_requests(old(device).image(), name83@),
                device_failure(r),
            ),
            match r {
                Ok(found) => find_from(self.root_dir(old(device).image()), name83@, 0) == Some(
                    (found.0 as int, found.1 as int),
                ),
                Err(FatError::Io(_)) => true,
                Err(e) => {
                    &&& e == FatError::NoSuchFile
                    &&& find_from(self.root_dir(old(device).image()), name83@, 0) is None
                },
            },
            self.root_dir_sectors == 0 ==> r == Err::<(u16, u32), FatError>(FatError::NoSuchFile),
    {
        let ghost image = device.image();
        let ghost before = device.log();
        let ghost dir = self.root_dir(image);
        let ghost wanted = self.lookup_requests(image, name83@);
        let ghost total = self.root_dir_sectors as nat;
        let mut i: u64 = 0;
        proof {
            block::lemma_asked_nothing(before);
            assert(wanted.take(0) =~= Seq::<BlockRequest>::empty());
        }
        while i < self.root_dir_sectors
            invariant
                self.valid(),
                i <= self.root_dir_sectors,
                image == old(device).image(),
                before == old(device).log(),
                device.image() == image,
                dir == self.root_dir(image),
                wanted == self.lookup_requests(image, name83@),
                total == self.root_dir_sectors,
                find_from(dir, name83@, 0) == find_from(dir, name83@, (i * 16) as nat),
                sectors_scanned(dir, name83@, 0, total) == i + sectors_scanned(
                    dir,
                    name83@,
                    i as nat,
                    total,
                ),
                block::asked(before, device.log(), wanted.take(i as int), None),
            decreases self.root_dir_sectors - i,
        {
            let lba: u64 = self.root_dir_start_lba + i;
            let ghost middle = device.log();
            let answer = Fat12Volume::read_sector(device, lba);
            proof {
                assert(wanted[i as int] == (lba, SECTOR_SIZE as nat));
                block::lemma_asked_next(before, middle, wanted, i as int, device_failure(answer));
            }
            let sector: Vec<u8> = match answer {
                Err(e) => {
                    return Err(e);
                },
                Ok(sector) => sector,
            };
            proof {
                assert(sector@ =~= dir.subrange(i * 16 * 32, (i * 16 + 16) * 32));
            }
            match Fat12Volume::scan_sector(sector.as_slice(), name83, Ghost(dir), Ghost(i * 16)) {
                Err(e) => {
                    assert(wanted.take(i + 1) =~= wanted);
                    return Err(e);
                },
                Ok(Some(found)) => {
                    assert(wanted.take(i + 1) =~= wanted);
                    return Ok(found);
                },
                Ok(None) => {},
            }
            i = i + 1;
        }
        assert(wanted.take(i as int) =~= wanted);
        Err(FatError::NoSuchFile)
    }

    /// The first copy of the allocation table.
    pub fn read_fat_table<D: BlockDevice>(&self, device: &mut D) -> (r: Result<Vec<u8>, FatError>)
        requires
            self.valid(),
        ensures
            final(device).image() == old(device).image(),
            block::asked(
                old(device).log(),
                final(device).log(),
                block::one_by_one(self.fat_start_lba as int, self.fat_size_sectors as nat),
                device_failure(r),
            ),
            match r {
                Ok(fat) => fat@ == self.table(old(device).image()),
                Err(e) => e is Io,
            },
    {
        Fat12Volume::read_sectors(device, self.fat_start_lba, self.fat_size_sectors)
    }

    /// The bytes of a chain of clusters.
    fn read_chain<D: BlockDevice>(&self, device: &mut D, chain: &Vec<u32>) -> (r: Result<
        Vec<u8>,
        FatError,
    >)
        requires
            self.valid(),
            chain@.len() <= self.total_clusters,
            forall|k: int|
                0 <= k < chain@.len() ==> FIRST_DATA_CLUSTER <= #[trigger] chain@[k] < 0x1_0000,
        ensures
            final(device).image() == old(device).image(),
            ({
                let clusters = chain@.map_values(|c: u32| c as int);
                &&& block::asked(
                    old(device).log(),
                    final(device).log(),
                    self.chain_requests(clusters, clusters.len()),
                    device_failure(r),
                )
                &&& match r {
                    Ok(data) => data@ == self.chain_bytes(
                        old(device).image(),
                        clusters,
                        clusters.len(),
                    ),
                    Err(e) => e is Io,
                }
            }),
    {
        let ghost image = device.image();
        let ghost before = device.log();
        let ghost clusters = chain@.map_values(|c: u32| c as int);
        let mut data: Vec<u8> = Vec::new();
        let mut i: usize = 0;
        proof {
            block::lemma_asked_nothing(before);
        }
        while i < chain.len()
            invariant
                self.valid(),
                i <= chain@.len(),
                image == old(device).image(),
                before == old(device).log(),
                device.image() == image,
                clusters == chain@.map_values(|c: u32| c as int),
                forall|k: int| 0 <= k < chain@.len() ==> FIRST_DATA_CLUSTER <= #[trigger] chain@[k]
                    < 0x1_0000,
                block::asked(
                    before,
                    device.log(),
                    self.chain_requests(clusters, i as nat),
                    None,
                ),
                data@ == self.chain_bytes(image, clusters, i as nat),
            decreases chain@.len() - i,
        {
            let cluster: u32 = chain[i];
            proof {
                let a = cluster - 2;
                let b = self.sectors_per_cluster as int;
                assert(0 <= a * b <= 0x1_0000 * 0xFF) by (nonlinear_arith)
                    requires
                        0 <= a < 0x1_0000,
                        0 < b <= 0xFF,
                ;
                assert(clusters[i as int] == cluster);
            }
            let lba: u64 = self.data_start_lba + (cluster as u64 - FIRST_DATA_CLUSTER as u64)
                * self.sectors_per_cluster;
            let ghost middle = device.log();
            let answer = Fat12Volume::read_sectors(device, lba, self.sectors_per_cluster);
            proof {
                block::lemma_asked_then(
                    before,
                    middle,
                    device.log(),
                    self.chain_requests(clusters, i as nat),
                    block::one_by_one(lba as int, self.sectors_per_cluster as nat),
                    device_failure(answer),
                );
            }
            match answer {
                Err(e) => {
                    proof {
                        self.lemma_chain_asked(
                            before,
                            device.log(),
                            clusters,
                            (i + 1) as nat,
                            clusters.len(),
                            device_failure(answer),
                        );
                    }
                    return Err(e);
                },
                Ok(bytes) => {
                    let mut bytes = bytes;
                    data.append(&mut bytes);
                },
            }
            i = i + 1;
        }
        Ok(data)
    }

    /// A request that failed in the first `n` clusters is one of those for
    /// the whole chain.
    proof fn lemma_chain_asked(
        self,
        before: Seq<Exchange>,
        after: Seq<Exchange>,
        chain: Seq<int>,
        n: nat,
        all: nat,
        failure: Option<BlockError>,
    )
        requires
            n <= all,
            failure is Some,
            block::asked(before, after, self.chain_requests(chain, n), failure),
        ensures
            block::asked(before, after, self.chain_requests(chain, all), failure),
        decreases all - n,
    {
        if n < all {
            block::lemma_asked_in_vain(
                before,
                after,
                self.chain_requests(chain, n),
                block::one_by_one(
                    self.cluster_lba(chain[n as int]),
                    self.sectors_per_cluster as nat,
                ),
                failure,
            );
            self.lemma_chain_asked(before, after, chain, n + 1, all, failure);
        }
    }

    /// The `size` bytes of a file, out of the bytes of its clusters.
    pub fn file_bytes(data: Vec<u8>, size: u32) -> (r: Result<Vec<u8>, FatError>)
        ensures
            r matches Ok(d) ==> d@ == data@.take(size as int),
            (r is Err) == (data@.len() < size),
            r matches Err(e) ==> e == FatError::CorruptFat,
    {
        if (data.len() as u64) < size as u64 {
            return Err(FatError::CorruptFat);
        }
        let mut data = data;
        let ghost all = data@;
        data.truncate(size as usize);
        assert(data@ =~= all.take(size as int));
        Ok(data)
    }

    /// A file of `size` bytes whose data starts at `cluster`.
    fn read_data<D: BlockDevice>(&self, device: &mut D, cluster: u16, size: u32) -> (r: Result<
        Vec<u8>,
        FatError,
    >)
        requires
            self.valid(),
        ensures
            final(device).image() == old(device).image(),
            block::asked(
                old(device).log(),
                final(device).log(),
                self.data_requests(old(device).image(), cluster as int, size as int),
                device_failure(r),
            ),
            match r {
                Ok(data) => self.file_data(old(device).image(), cluster as int, size as int) == Ok::<
                    Seq<u8>,
                    FatError,
                >(data@),
                Err(FatError::Io(_)) => true,
                Err(e) => self.file_data(old(device).image(), cluster as int, size as int) == Err::<
                    Seq<u8>,
                    FatError,
                >(e),
            },
    {
        let ghost image = device.image();
        let ghost before = device.log();
        if size == 0 {
            let empty: Vec<u8> = Vec::new();
            proof {
                assert(empty@ =~= Seq::<u8>::empty());
                block::lemma_asked_nothing(before);
            }
            return Ok(empty);
        }
        let ghost table = block::one_by_one(
            self.fat_start_lba as int,
            self.fat_size_sectors as nat,
        );
        let ghost rest = match chain_of(self.table(image), cluster as int, self.total_clusters as nat) {
            None => Seq::empty(),
            Some(chain) => self.chain_requests(chain, chain.len()),
        };
        let fat = match self.read_fat_table(device) {
            Ok(fat) => fat,
            Err(e) => {
                proof {
                    block::lemma_asked_in_vain(before, device.log(), table, rest, Some(e->Io_0));
                }
                return Err(e);
            },
        };
        let ghost middle = device.log();
        let chain = match self.cluster_chain(fat.as_slice(), cluster as u32) {
            Ok(chain) => chain,
            Err(e) => {
                assert(table + rest =~= table);
                return Err(e);
            },
        };
        proof {
            assert forall|k: int| 0 <= k < chain@.len() implies FIRST_DATA_CLUSTER
                <= #[trigger] chain@[k] < 0x1_0000 by {
                if k == 0 {
                    assert(chain@[0] == cluster);
                }
            }
        }
        let answer = self.read_chain(device, &chain);
        proof {
            block::lemma_asked_then(
                before,
                middle,
                device.log(),
                table,
                rest,
                device_failure(answer),
            );
        }
        match answer {
            Ok(data) => Fat12Volume::file_bytes(data, size),
            Err(e) => Err(e),
        }
    }

    /// The contents of the file named `name`, in exactly its recorded size.
    /// Everything is read from `device` afresh, a sector at a time.
    pub fn read_file<D: BlockDevice>(&self, device: &mut D, name: &str) -> (r: Result<
        Vec<u8>,
        FatError,
    >)
        requires
            self.valid(),
        ensures
            final(device).image() == old(device).image(),
            block::asked(
                old(device).log(),
                final(device).log(),
                self.file_requests(old(device).image(), name.spec_bytes()),
                device_failure(r),
            ),
            match r {
                Ok(data) => self.file(old(device).image(), name.spec_bytes()) == Ok::<
                    Seq<u8>,
                    FatError,
                >(data@),
                Err(FatError::Io(_)) => true,
                Err(e) => self.file(old(device).image(), name.spec_bytes()) == Err::<
                    Seq<u8>,
                    FatError,
                >(e),
            },
            !is_83_name(name.spec_bytes()) ==> r == Err::<Vec<u8>, FatError>(FatError::NameTooLong),
            self.root_dir_sectors == 0 && is_83_name(name.spec_bytes()) ==> r == Err::<
                Vec<u8>,
                FatError,
            >(FatError::NoSuchFile),
    {
        let ghost image = device.image();
        let ghost before = device.log();
        let name83 = match Fat12Volume::to_83_name(name) {
            Some(packed) => packed,
            None => {
                proof {
                    block::lemma_asked_nothing(before);
                }
                return Err(FatError::NameTooLong);
            },
        };
        let ghost lookup = self.lookup_requests(image, name83@);
        let ghost rest = match find_from(self.root_dir(image), name83@, 0) {
            None => Seq::empty(),
            Some(found) => self.data_requests(image, found.0, found.1),
        };
        assert(self.file_requests(image, name.spec_bytes()) == lookup + rest);
        match self.find_dir_entry(device, &name83) {
            Ok(found) => {
                let ghost middle = device.log();
                let r = self.read_data(device, found.0, found.1);
                proof {
                    block::lemma_asked_then(
                        before,
                        middle,
                        device.log(),
                        lookup,
                        rest,
                        device_failure(r),
                    );
                }
                r
            },
            Err(e) => {
                proof {
                    if e is Io {
                        block::lemma_asked_in_vain(before, device.log(), lookup, rest, Some(e->Io_0));
                    } else {
                        assert(lookup + rest =~= lookup);
                    }
                }
                Err(e)
            },
        }
    }
}

/// Mounts the root volume off the block device, if there is one.
pub fn mount_root<D: BlockDevice>(device: Option<&mut D>) -> (r: Result<Fat12Volume, FatError>)
    ensures
        match device {
            None => r == Err::<Fat12Volume, FatError>(FatError::NoDevice),
            Some(d) => {
                &&& final(d).image() == d.image()
                &&& final(d).log() == d.log().push(((0u64, SECTOR_SIZE as nat), device_failure(r)))
                &&& match r {
                    Err(FatError::Io(_)) => true,
                    _ => r == volume_of(block::sectors(d.image(), 0, SECTOR_SIZE as int)),
                }
            },
        },
        r matches Ok(v) ==> v.valid(),
{
    match device {
        None => Err(FatError::NoDevice),
        Some(d) => Fat12Volume::mount(d),
    }
}

/// Two names that differ only in the case of their letters name the same
/// file.
pub proof fn law_lookup_ignores_case(vol: Fat12Volume, image: Seq<u8>, a: Seq<u8>, b: Seq<u8>)
    requires
        a.len() == b.len(),
        forall|i: int| 0 <= i < a.len() ==> upper(#[trigger] a[i]) == upper(b[i]),
    ensures
        vol.file(image, a) == vol.file(image, b),
{
    lemma_dots_agree(a, b, a.len());
    assert forall|i: int| 0 <= i < a.len() implies ((#[trigger] a[i]) < 128) == (b[i] < 128) by {
        assert(upper(a[i]) == upper(b[i]));
    }
    assert forall|i: int| 0 <= i < b.len() implies ((#[trigger] b[i]) < 128) == (a[i] < 128) by {
        assert(upper(a[i]) == upper(b[i]));
    }
    assert(is_83_name(a) == is_83_name(b));
    assert forall|i: int| 0 <= i < DIRENT_NAME_LEN implies packed_83(a)[i] == packed_83(b)[i] by {
        let dot = last_dot(a, a.len());
        if i < name_base(a).len() {
            assert(name_base(a)[i] == a[i]);
            assert(name_base(b)[i] == b[i]);
        } else if 8 <= i && i - 8 < name_ext(a).len() {
            assert(name_ext(a)[i - 8] == a[dot + 1 + (i - 8)]);
            assert(name_ext(b)[i - 8] == b[dot + 1 + (i - 8)]);
        }
    }
    assert(packed_83(a) =~= packed_83(b));
}

proof fn lemma_dots_agree(a: Seq<u8>, b: Seq<u8>, n: nat)
    requires
        a.len() == b.len(),
        n <= a.len(),
        forall|i: int| 0 <= i < a.len() ==> upper(#[trigger] a[i]) == upper(b[i]),
    ensures
        last_dot(a, n) == last_dot(b, n),
        -1 <= last_dot(a, n) < n,
    decreases n,
{
    if n > 0 {
        assert(upper(a[n - 1]) == upper(b[n - 1]));
        lemma_dots_agree(a, b, (n - 1) as nat);
    }
}

/// A file is read back in exactly its recorded size, or not at all.
pub proof fn law_file_has_recorded_size(vol: Fat12Volume, image: Seq<u8>, cluster: int, size: int)
    requires
        size >= 0,
    ensures
        vol.file_data(image, cluster, size) matches Ok(data) ==> data.len() == size,
{
}

/// A file whose chain reaches its recorded size is read; one whose chain does
/// not is corrupt.
pub proof fn law_chain_decides(
    vol: Fat12Volume,
    image: Seq<u8>,
    cluster: int,
    size: int,
    chain: Seq<int>,
)
    requires
        size > 0,
        chain_of(vol.table(image), cluster, vol.total_clusters as nat) == Some(chain),
    ensures
        (vol.file_data(image, cluster, size) is Ok) == (size <= chain.len() * vol.cluster_bytes()),
        vol.file_data(image, cluster, size) matches Err(e) ==> e == FatError::CorruptFat,
{
    lemma_chain_bytes_len(vol, image, chain, chain.len());
}

/// Reading a file never asks a device for more than one sector at a time: the
/// one request size that every device serves.
pub proof fn law_files_are_read_by_the_sector(
    vol: Fat12Volume,
    image: Seq<u8>,
    name: Seq<u8>,
    k: int,
)
    requires
        0 <= k < vol.file_requests(image, name).len(),
    ensures
        vol.file_requests(image, name)[k].1 == SECTOR_SIZE,
{
    let lookup = vol.lookup_requests(image, packed_83(name));
    match find_from(vol.root_dir(image), packed_83(name), 0) {
        Some(found) => {
            match chain_of(vol.table(image), found.0, vol.total_clusters as nat) {
                Some(chain) => {
                    lemma_chain_by_the_sector(vol, chain, chain.len());
                },
                None => {},
            }
        },
        None => {},
    }
}

proof fn lemma_chain_by_the_sector(vol: Fat12Volume, chain: Seq<int>, n: nat)
    ensures
        forall|k: int|
            0 <= k < vol.chain_requests(chain, n).len() ==> (#[trigger] vol.chain_requests(
                chain,
                n,
            )[k]).1 == SECTOR_SIZE,
    decreases n,
{
    if n > 0 {
        lemma_chain_by_the_sector(vol, chain, (n - 1) as nat);
        let head = vol.chain_requests(chain, (n - 1) as nat);
        assert forall|k: int| 0 <= k < vol.chain_requests(chain, n).len() implies (
        #[trigger] vol.chain_requests(chain, n)[k]).1 == SECTOR_SIZE by {
            if k < head.len() {
                assert(vol.chain_requests(chain, n)[k] == head[k]);
            }
        }
    }
}

proof fn lemma_chain_bytes_len(vol: Fat12Volume, image: Seq<u8>, chain: Seq<int>, n: nat)
    requires
        n <= chain.len(),
    ensures
        vol.chain_bytes(image, chain, n).len() == n * vol.cluster_bytes(),
    decreases n,
{
    let c = vol.cluster_bytes();
    if n > 0 {
        lemma_chain_bytes_len(vol, image, chain, (n - 1) as nat);
        assert((n - 1) * c + c == n * c) by (nonlinear_arith);
    } else {
        assert(0 * c == 0) by (nonlinear_arith);
    }
}

/// A chain never visits more clusters than the volume has, so following one
/// always ends.
pub proof fn law_chain_is_bounded(fat: Seq<u8>, cluster: int, room: nat)
    ensures
        chain_of(fat, cluster, room) matches Some(chain) ==> 0 < chain.len() <= room
            && chain[0] == cluster,
    decreases room,
{
    if room > 0 {
        match entry_of(fat, cluster) {
            Some(next) => {
                law_chain_is_bounded(fat, next, (room - 1) as nat);
            },
            None => {},
        }
    }
}

} // verus!
