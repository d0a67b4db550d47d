//! What a volume's bytes mean, byte by byte.
use vstd::prelude::*;
use vstd::string::*;
use crate::bytes;
use crate::driver::block;
use crate::driver::block::BlockDevice;
use crate::fs::fat;
use crate::fs::fat::{Fat12Volume, FatError, DIRENT_NAME_LEN};

verus! {

/// The two bytes at `off`, the first of which counts least.
pub open spec fn pair(b: Seq<u8>, off: int) -> int {
    b[off] + 0x100 * b[off + 1]
}

/// The four bytes at `off`, the first of which counts least.
pub open spec fn quad(b: Seq<u8>, off: int) -> int {
    pair(b, off) + 0x1_0000 * pair(b, off + 2)
}

proof fn lemma_fields(b: Seq<u8>, off: int)
    requires
        0 <= off,
    ensures
        off + 2 <= b.len() ==> fat::field16(b, off) == pair(b, off),
        off + 4 <= b.len() ==> fat::field32(b, off) == quad(b, off),
{
    reveal_with_fuel(bytes::le_value, 5);
    if off + 2 <= b.len() {
        let s = b.subrange(off, off + 2);
        assert(s.drop_first()[0] == b[off + 1]);
    }
    if off + 4 <= b.len() {
        let s = b.subrange(off, off + 4);
        assert(s.drop_first()[0] == b[off + 1]);
        assert(s.drop_first().drop_first()[0] == b[off + 2]);
        assert(s.drop_first().drop_first().drop_first()[0] == b[off + 3]);
    }
}

/// How many sectors the boot sector says that the volume has.
pub open spec fn recorded_sectors(b: Seq<u8>) -> int {
    if pair(b, 19) != 0 {
        pair(b, 19)
    } else {
        quad(b, 32)
    }
}

/// An accepted volume is laid out as its boot sector says: the reserved
/// sectors, then every copy of the table, then the root directory in as many
/// whole sectors as its entries take, then the clusters, of which there are as
/// many as fit the rest.
pub proof fn law_volume_is_laid_out_as_recorded(boot: &[u8], r: Result<Fat12Volume, FatError>)
    requires
        boot@.len() == 512,
        call_ensures(Fat12Volume::parse_boot_sector, (boot,), r),
        r is Ok,
    ensures
        ({
            let b = boot@;
            let v = r->Ok_0;
            &&& v.sectors_per_cluster == b[13]
            &&& v.fat_start_lba == pair(b, 14)
            &&& v.fat_size_sectors == pair(b, 22)
            &&& v.root_dir_start_lba - v.fat_start_lba == b[16] * pair(b, 22)
            &&& v.data_start_lba == v.root_dir_start_lba + v.root_dir_sectors
            &&& pair(b, 17) * 32 <= v.root_dir_sectors * 512
            &&& v.root_dir_sectors > 0 ==> (v.root_dir_sectors - 1) * 512 < pair(b, 17) * 32
            &&& v.sectors_per_cluster > 0
            &&& recorded_sectors(b) > v.data_start_lba ==> {
                &&& v.total_clusters * v.sectors_per_cluster <= recorded_sectors(b)
                    - v.data_start_lba
                &&& recorded_sectors(b) - v.data_start_lba < (v.total_clusters + 1)
                    * v.sectors_per_cluster
            }
            &&& recorded_sectors(b) <= v.data_start_lba ==> v.total_clusters == 0
            &&& v.total_clusters < 4085
        }),
{
    let b = boot@;
    lemma_fields(b, 11);
    lemma_fields(b, 14);
    lemma_fields(b, 17);
    lemma_fields(b, 19);
    lemma_fields(b, 22);
    lemma_fields(b, 32);
    let v = r->Ok_0;
    let copies = b[16] as int;
    let table = pair(b, 22);
    assert(0 <= copies * table <= 0xFF * 0xFFFF) by (nonlinear_arith)
        requires
            0 <= copies <= 0xFF,
            0 <= table <= 0xFFFF,
    ;
    assert(v.root_dir_start_lba == pair(b, 14) + copies * table);
    let rest = recorded_sectors(b) - v.data_start_lba;
    let spc = v.sectors_per_cluster as int;
    if rest > 0 {
        assert(rest / spc * spc <= rest && rest < (rest / spc + 1) * spc) by (nonlinear_arith)
            requires
                spc > 0,
                rest > 0,
        ;
    } else {
        assert(0int / spc == 0) by (nonlinear_arith)
            requires
                spc > 0,
        ;
    }
}

/// A boot sector is refused for what is wrong with it, and for nothing else.
pub proof fn law_bad_boot_sectors_are_refused(boot: &[u8], r: Result<Fat12Volume, FatError>)
    requires
        boot@.len() == 512,
        call_ensures(Fat12Volume::parse_boot_sector, (boot,), r),
    ensures
        r == Err::<Fat12Volume, FatError>(FatError::BadSignature) <==> boot@[510] != 0x55
            || boot@[511] != 0xAA,
        boot@[510] == 0x55 && boot@[511] == 0xAA ==> {
            &&& pair(boot@, 11) != 512 <==> r == Err::<Fat12Volume, FatError>(
                FatError::UnsupportedSectorSize,
            )
            &&& pair(boot@, 11) == 512 ==> {
                &&& (boot@[13] == 0 || boot@[16] == 0 || pair(boot@, 22) == 0) <==> r == Err::<
                    Fat12Volume,
                    FatError,
                >(FatError::CorruptBootSector)
                &&& boot@[13] > 0 && boot@[16] > 0 && pair(boot@, 22) > 0 ==> r is Ok || r == Err::<
                    Fat12Volume,
                    FatError,
                >(FatError::NotFat12)
            }
        },
        r == Err::<Fat12Volume, FatError>(FatError::NotFat12) ==> recorded_sectors(boot@) >= 4085
            * boot@[13],
        recorded_sectors(boot@) < 4085 * boot@[13] ==> r != Err::<Fat12Volume, FatError>(
            FatError::NotFat12,
        ),
{
    let b = boot@;
    lemma_fields(b, 11);
    lemma_fields(b, 14);
    lemma_fields(b, 17);
    lemma_fields(b, 19);
    lemma_fields(b, 22);
    lemma_fields(b, 32);
    if r == Err::<Fat12Volume, FatError>(FatError::NotFat12) {
        let spc = b[13] as int;
        let root_dir_sectors = fat::root_sectors(fat::field16(b, 17));
        let data_start = fat::field16(b, 14) + b[16] as int * fat::field16(b, 22)
            + root_dir_sectors;
        assert(b[16] as int * fat::field16(b, 22) >= 0) by (nonlinear_arith)
            requires
                b[16] as int >= 0,
                fat::field16(b, 22) >= 0,
        ;
        let total = fat::total_sectors(b);
        let rest = if total > data_start {
            total - data_start
        } else {
            0
        };
        assert(rest >= rest / spc * spc) by (nonlinear_arith)
            requires
                spc > 0,
                rest >= 0,
        ;
        let q = rest / spc;
        assert(q * spc >= 4085 * spc) by (nonlinear_arith)
            requires
                q >= 4085,
                spc > 0,
        ;
    }
}

/// Two table entries share three bytes: an even one has the first byte and the
/// low half of the second, an odd one the high half of the first of its two and
/// the whole second.
pub proof fn law_table_entries_are_packed(fat: &[u8], cluster: u32, r: Result<u16, FatError>)
    requires
        call_ensures(Fat12Volume::fat12_entry, (fat, cluster), r),
    ensures
        ({
            let at = cluster + cluster / 2;
            &&& r is Ok <==> at + 1 < fat@.len()
            &&& r matches Err(e) ==> e == FatError::CorruptFat
            &&& r is Ok && cluster % 2 == 0 ==> r->Ok_0 == fat@[at] + 0x100 * (fat@[at + 1] % 16)
            &&& r is Ok && cluster % 2 == 1 ==> r->Ok_0 == fat@[at] / 16 + 16 * fat@[at + 1]
        }),
{
    let at = cluster + cluster / 2;
    assert(cluster as int * 3 / 2 == at);
    lemma_fields(fat@, at);
}

proof fn lemma_chain_links(fat: Seq<u8>, cluster: int, room: nat, k: int)
    requires
        fat::chain_of(fat, cluster, room) is Some,
        0 <= k < fat::chain_of(fat, cluster, room)->0.len(),
    ensures
        ({
            let chain = fat::chain_of(fat, cluster, room)->0;
            &&& chain[0] == cluster
            &&& chain[k] >= 2
            &&& fat::entry_of(fat, chain[k]) is Some
            &&& k + 1 < chain.len() ==> {
                &&& fat::entry_of(fat, chain[k]) == Some(chain[k + 1])
                &&& chain[k + 1] < 0xFF7
            }
            &&& k + 1 == chain.len() ==> fat::entry_of(fat, chain[k])->0 >= 0xFF8
        }),
    decreases room,
{
    let chain = fat::chain_of(fat, cluster, room)->0;
    let next = fat::entry_of(fat, cluster)->0;
    if next < 0xFF8 {
        let rest = fat::chain_of(fat, next, (room - 1) as nat)->0;
        fat::law_chain_is_bounded(fat, next, (room - 1) as nat);
        if k > 0 {
            lemma_chain_links(fat, next, (room - 1) as nat, k - 1);
            assert(chain[k] == rest[k - 1]);
            if k + 1 < chain.len() {
                assert(chain[k + 1] == rest[k]);
            }
        } else {
            lemma_chain_links(fat, next, (room - 1) as nat, 0);
            assert(chain[1] == rest[0]);
        }
    }
}

/// A chain goes from each of its clusters to the one that the table names for
/// it, up to one that the table marks as the last; a free, bad or reserved
/// cluster is in none.
pub proof fn law_chains_follow_the_table(
    v: Fat12Volume,
    fat: &[u8],
    start: u32,
    r: Result<Vec<u32>, FatError>,
    k: int,
    entry: Result<u16, FatError>,
)
    requires
        v.valid(),
        call_ensures(Fat12Volume::cluster_chain, (&v, fat, start), r),
        r is Ok,
        0 <= k < r->Ok_0@.len(),
        call_ensures(Fat12Volume::fat12_entry, (fat, r->Ok_0@[k]), entry),
    ensures
        r->Ok_0@[0] == start,
        r->Ok_0@.len() <= v.total_clusters,
        r->Ok_0@[k] >= 2,
        entry is Ok,
        k + 1 < r->Ok_0@.len() ==> entry->Ok_0 == r->Ok_0@[k + 1] && entry->Ok_0 < 0xFF7,
        k + 1 == r->Ok_0@.len() ==> entry->Ok_0 >= 0xFF8,
{
    let chain = r->Ok_0@.map_values(|c: u32| c as int);
    lemma_chain_links(fat@, start as int, v.total_clusters as nat, k);
    assert(chain[k] == r->Ok_0@[k]);
    if k + 1 < r->Ok_0@.len() {
        assert(chain[k + 1] == r->Ok_0@[k + 1]);
    }
}

/// A letter in upper case.
pub open spec fn capital(c: u8) -> u8 {
    if 97 <= c && c <= 122 {
        (c - 32) as u8
    } else {
        c
    }
}

proof fn lemma_last_dot(name: Seq<u8>, n: nat)
    requires
        n <= name.len(),
    ensures
        ({
            let dot = fat::last_dot(name, n);
            &&& -1 <= dot < n
            &&& dot >= 0 ==> name[dot] == 46
            &&& forall|i: int| dot < i < n ==> name[i] != 46
        }),
    decreases n,
{
    if n > 0 {
        lemma_last_dot(name, (n - 1) as nat);
    }
}

/// A name is stored as its part before the last dot in eight places and its
/// part after it in three, in capitals, filled up with spaces. It can be stored
/// exactly if both parts fit, the first is not empty, and it is plain ASCII.
pub proof fn law_names_are_stored_in_capitals(
    name: &str,
    r: Option<[u8; DIRENT_NAME_LEN]>,
    dot: int,
    i: int,
)
    requires
        call_ensures(Fat12Volume::to_83_name, (name,), r),
        0 <= dot <= name.spec_bytes().len(),
        dot < name.spec_bytes().len() ==> name.spec_bytes()[dot] == 46,
        forall|k: int| dot < k < name.spec_bytes().len() ==> name.spec_bytes()[k] != 46,
        dot == name.spec_bytes().len() ==> forall|k: int|
            0 <= k < name.spec_bytes().len() ==> name.spec_bytes()[k] != 46,
        0 <= i < 11,
    ensures
        ({
            let b = name.spec_bytes();
            &&& r is Some <==> 0 < dot <= 8 && b.len() - dot <= 4 && forall|k: int|
                0 <= k < b.len() ==> (#[trigger] b[k]) < 128
            &&& r is Some ==> {
                &&& i < dot ==> r->0@[i] == capital(b[i])
                &&& dot <= i < 8 ==> r->0@[i] == 32
                &&& i >= 8 && dot + 1 + (i - 8) < b.len() ==> r->0@[i] == capital(
                    b[dot + 1 + (i - 8)],
                )
                &&& i >= 8 && dot + 1 + (i - 8) >= b.len() ==> r->0@[i] == 32
            }
        }),
{
    let b = name.spec_bytes();
    lemma_last_dot(b, b.len());
    let d = fat::last_dot(b, b.len());
    if d < 0 {
        if dot < b.len() {
            assert(b[dot] != 46);
        }
        assert(dot == b.len());
    } else {
        if dot == b.len() {
            assert(b[d] != 46);
        }
        if d < dot {
            assert(b[dot] != 46);
        }
        if dot < d {
            assert(b[d] != 46);
        }
        assert(d == dot);
    }
}

/// Whether the 32 bytes of entry `k` are for a file stored as `name83`: not
/// deleted, neither a volume label nor a part of a long name, and named so.
pub open spec fn is_entry_for(dir: Seq<u8>, k: int, name83: Seq<u8>) -> bool {
    &&& dir[k * 32] != 0xE5
    &&& (dir[k * 32 + 11] & 8) == 0
    &&& forall|i: int| 0 <= i < 11 ==> #[trigger] name83[i] == dir[k * 32 + i]
}

/// Whether a search for `name83` passes entry `k` by: the directory does not end
/// there, and it is not the file.
pub open spec fn passes_by(dir: Seq<u8>, k: int, name83: Seq<u8>) -> bool {
    dir[k * 32] != 0 && !is_entry_for(dir, k, name83)
}

proof fn lemma_entry(dir: Seq<u8>, k: int, name83: Seq<u8>)
    requires
        0 <= k,
        (k + 1) * 32 <= dir.len(),
        name83.len() == 11,
    ensures
        fat::dir_entry(dir, k)[0] == dir[k * 32],
        fat::names_file(fat::dir_entry(dir, k), name83) == is_entry_for(dir, k, name83),
        fat::field16(fat::dir_entry(dir, k), 26) == pair(dir, k * 32 + 26),
        fat::field32(fat::dir_entry(dir, k), 28) == quad(dir, k * 32 + 28),
{
    let entry = fat::dir_entry(dir, k);
    let a = entry[11];
    assert(a == dir[k * 32 + 11]);
    assert((a & 8 == 0) <==> (a / 8) % 2 == 0) by (bit_vector);
    assert(a % 16 == 15 ==> (a / 8) % 2 == 1) by (bit_vector);
    lemma_fields(entry, 26);
    lemma_fields(entry, 28);
    if is_entry_for(dir, k, name83) {
        assert(entry.take(11) =~= name83);
    }
    if entry.take(11) == name83 {
        assert forall|i: int| 0 <= i < 11 implies #[trigger] name83[i] == dir[k * 32 + i] by {
            assert(entry.take(11)[i] == dir[k * 32 + i]);
        }
    }
}

proof fn lemma_found(dir: Seq<u8>, name83: Seq<u8>, i: nat, k: int)
    requires
        name83.len() == 11,
        i <= k,
        (k + 1) * 32 <= dir.len(),
        is_entry_for(dir, k, name83),
        dir[k * 32] != 0,
        forall|j: int|
            i <= j < k ==> #[trigger] passes_by(dir, j, name83),
    ensures
        fat::find_from(dir, name83, i) == Some((pair(dir, k * 32 + 26), quad(dir, k * 32 + 28))),
    decreases k - i,
{
    lemma_entry(dir, i as int, name83);
    if i < k {
        assert(passes_by(dir, i as int, name83));
        lemma_found(dir, name83, i + 1, k);
    }
}

/// A lookup gives the first cluster and the size of the first entry of that
/// name, both from that entry's own bytes, unless the directory ends before.
pub proof fn law_lookup_reads_the_entry(dir: Seq<u8>, name83: Seq<u8>, k: int)
    requires
        name83.len() == 11,
        0 <= k,
        (k + 1) * 32 <= dir.len(),
        is_entry_for(dir, k, name83),
        dir[k * 32] != 0,
        forall|j: int|
            0 <= j < k ==> #[trigger] passes_by(dir, j, name83),
    ensures
        fat::find_from(dir, name83, 0) == Some((pair(dir, k * 32 + 26), quad(dir, k * 32 + 28))),
{
    lemma_found(dir, name83, 0, k);
}

proof fn lemma_not_found(dir: Seq<u8>, name83: Seq<u8>, i: nat, n: int)
    requires
        name83.len() == 11,
        i <= n,
        n * 32 <= dir.len(),
        (n + 1) * 32 > dir.len() || dir[n * 32] == 0,
        forall|j: int|
            i <= j < n ==> #[trigger] passes_by(dir, j, name83),
    ensures
        fat::find_from(dir, name83, i) is None,
    decreases n - i,
{
    if (i + 1) * 32 <= dir.len() {
        lemma_entry(dir, i as int, name83);
        if i < n {
            assert(passes_by(dir, i as int, name83));
            lemma_not_found(dir, name83, i + 1, n);
        }
    }
}

/// A name that no entry has before the directory ends is not found, whatever
/// stands behind the end.
pub proof fn law_lookup_stops_at_the_end(dir: Seq<u8>, name83: Seq<u8>, n: int)
    requires
        name83.len() == 11,
        0 <= n,
        n * 32 <= dir.len(),
        (n + 1) * 32 > dir.len() || dir[n * 32] == 0,
        forall|j: int|
            0 <= j < n ==> #[trigger] passes_by(dir, j, name83),
    ensures
        fat::find_from(dir, name83, 0) is None,
{
    lemma_not_found(dir, name83, 0, n);
}

/// The root directory and the table that are read are those of the volume.
pub proof fn law_structures_are_read_from_their_place(v: Fat12Volume, image: Seq<u8>, i: int)
    ensures
        0 <= i < v.root_dir_sectors * 512 ==> v.root_dir(image)[i] == image[v.root_dir_start_lba
            * 512 + i],
        v.root_dir(image).len() == v.root_dir_sectors * 512,
        0 <= i < v.fat_size_sectors * 512 ==> v.table(image)[i] == image[v.fat_start_lba * 512
            + i],
        v.table(image).len() == v.fat_size_sectors * 512,
{
}

proof fn lemma_chain_byte(v: Fat12Volume, image: Seq<u8>, chain: Seq<int>, n: nat, k: int, j: int)
    requires
        n <= chain.len(),
        0 <= k < n,
        0 <= j < v.sectors_per_cluster * 512,
    ensures
        v.chain_bytes(image, chain, n).len() == n * (v.sectors_per_cluster * 512),
        0 <= k * (v.sectors_per_cluster * 512) + j < v.chain_bytes(image, chain, n).len(),
        v.chain_bytes(image, chain, n)[k * (v.sectors_per_cluster * 512) + j] == image[(
        v.data_start_lba + (chain[k] - 2) * v.sectors_per_cluster) * 512 + j],
    decreases n,
{
    let c = v.sectors_per_cluster * 512;
    let head = v.chain_bytes(image, chain, (n - 1) as nat);
    if n - 1 > 0 {
        lemma_chain_byte(v, image, chain, (n - 1) as nat, 0, j);
    } else {
        assert(0 * c == 0) by (nonlinear_arith);
    }
    assert((n - 1) * c + c == n * c) by (nonlinear_arith);
    assert(head.len() == (n - 1) * c);
    if k < n - 1 {
        lemma_chain_byte(v, image, chain, (n - 1) as nat, k, j);
    } else {
        assert(k * c == (n - 1) * c);
    }
}

/// The bytes of a file are those of its clusters, one cluster after the other,
/// the first of which, cluster two, begins where the data begins.
pub proof fn law_files_hold_their_clusters(
    v: Fat12Volume,
    image: Seq<u8>,
    cluster: int,
    size: int,
    chain: Seq<int>,
    k: int,
    j: int,
)
    requires
        fat::chain_of(v.table(image), cluster, v.total_clusters as nat) == Some(chain),
        v.file_data(image, cluster, size) is Ok,
        0 <= k < chain.len(),
        0 <= j < v.sectors_per_cluster * 512,
        0 < size,
        k * (v.sectors_per_cluster * 512) + j < size,
    ensures
        v.file_data(image, cluster, size)->Ok_0[k * (v.sectors_per_cluster * 512) + j] == image[(
        v.data_start_lba + (chain[k] - 2) * v.sectors_per_cluster) * 512 + j],
{
    lemma_chain_byte(v, image, chain, chain.len(), k, j);
}

/// What reading a file asks of the device is only ever the root directory, the
/// table and the data, never a sector outside of them.
pub proof fn law_reads_stay_in_the_structures(v: Fat12Volume, image: Seq<u8>, name83: Seq<u8>, k: int)
    requires
        v.valid(),
        0 <= k < v.lookup_requests(image, name83).len(),
    ensures
        v.lookup_requests(image, name83).len() <= v.root_dir_sectors,
        v.lookup_requests(image, name83)[k].0 == v.root_dir_start_lba + k,
        v.lookup_requests(image, name83)[k].1 == 512,
{
    lemma_scanned(v.root_dir(image), name83, 0, v.root_dir_sectors as nat);
}

proof fn lemma_scanned(dir: Seq<u8>, name83: Seq<u8>, sector: nat, total: nat)
    requires
        sector <= total,
    ensures
        fat::sectors_scanned(dir, name83, sector, total) <= total - sector,
    decreases total - sector,
{
    if sector < total {
        lemma_scanned(dir, name83, sector + 1, total);
    }
}

/// An empty file is read without touching the device again, and is empty.
pub proof fn law_empty_files_are_empty(v: Fat12Volume, image: Seq<u8>, cluster: int)
    ensures
        v.file_data(image, cluster, 0) == Ok::<Seq<u8>, FatError>(Seq::empty()),
        v.data_requests(image, cluster, 0).len() == 0,
{
}

/// Mounting reads the first sector, once, and takes the volume from it.
pub proof fn law_mount_reads_the_first_sector<D: BlockDevice>(
    device: &mut D,
    r: Result<Fat12Volume, FatError>,
    v: Result<Fat12Volume, FatError>,
    boot: &[u8],
)
    requires
        call_ensures(Fat12Volume::mount::<D>, (device,), r),
        boot@ == old(device).image().take(512),
        old(device).image().len() >= 512,
        call_ensures(Fat12Volume::parse_boot_sector, (boot,), v),
    ensures
        final(device).log().len() == old(device).log().len() + 1,
        final(device).log().last().0 == (0u64, 512nat),
        final(device).image() == old(device).image(),
        final(device).log().last().1 is None ==> r == v,
        final(device).log().last().1 matches Some(e) ==> r == Err::<Fat12Volume, FatError>(
            FatError::Io(e),
        ),
{
    assert(block::sectors(old(device).image(), 0, 512) =~= boot@);
    match r {
        Err(FatError::Io(_)) => {
            assert(final(device).log().last().1 is Some);
        },
        _ => {},
    }
}

/// Whether the device failed a read.
pub open spec fn device_failed(r: Result<Vec<u8>, FatError>) -> bool {
    r is Err && r->Err_0 is Io
}

/// A file is read in exactly its recorded size. A name that no entry could
/// have, one that no entry has, and a broken chain are told apart; nothing else
/// fails but the device.
pub proof fn law_files_are_read_in_their_size<D: BlockDevice>(
    v: Fat12Volume,
    device: &mut D,
    name: &str,
    packed: Option<[u8; 11]>,
    r: Result<Vec<u8>, FatError>,
    i: int,
)
    requires
        v.valid(),
        call_ensures(Fat12Volume::to_83_name, (name,), packed),
        call_ensures(Fat12Volume::read_file::<D>, (&v, device, name), r),
    ensures
        final(device).image() == old(device).image(),
        packed is None ==> r == Err::<Vec<u8>, FatError>(FatError::NameTooLong),
        packed matches Some(p) ==> {
            let image = old(device).image();
            match fat::find_from(v.root_dir(image), p@, 0) {
                None => r == Err::<Vec<u8>, FatError>(FatError::NoSuchFile) || device_failed(r),
                Some((cluster, size)) => {
                    let chain = fat::chain_of(v.table(image), cluster, v.total_clusters as nat);
                    let whole = v.chain_bytes(image, chain->0, (chain->0).len());
                    &&& r is Ok || r == Err::<Vec<u8>, FatError>(FatError::CorruptFat)
                        || device_failed(r)
                    &&& r matches Ok(data) ==> data@.len() == size
                    &&& r is Ok && size > 0 ==> chain is Some && (0 <= i < size ==> (
                    r->Ok_0)@[i] == whole[i])
                    &&& size == 0 ==> r is Ok || device_failed(r)
                    &&& size > 0 && chain is Some && whole.len() >= size ==> r is Ok
                        || device_failed(r)
                },
            }
        },
{
    let image = old(device).image();
    if let Some(p) = packed {
        if let Some(found) = fat::find_from(v.root_dir(image), p@, 0) {
            lemma_found_sizes(v.root_dir(image), p@, 0);
        }
    }
}

proof fn lemma_found_sizes(dir: Seq<u8>, name83: Seq<u8>, i: nat)
    ensures
        fat::find_from(dir, name83, i) matches Some((cluster, size)) ==> 0 <= cluster && 0 <= size,
    decreases dir.len() - i * 32,
{
    if (i + 1) * 32 <= dir.len() {
        lemma_found_sizes(dir, name83, i + 1);
    }
}

/// A file's bytes are the first of those of its clusters, and there have to be
/// enough of them.
pub proof fn law_files_are_cut_to_their_size(
    data: Vec<u8>,
    size: u32,
    r: Result<Vec<u8>, FatError>,
    i: int,
)
    requires
        call_ensures(Fat12Volume::file_bytes, (data, size), r),
    ensures
        r is Ok <==> size <= data@.len(),
        r matches Ok(d) ==> d@.len() == size && (0 <= i < size ==> d@[i] == data@[i]),
        r matches Err(e) ==> e == FatError::CorruptFat,
{
}

/// Without a device there is nothing to mount.
pub proof fn law_nothing_is_mounted_without_a_device<D: BlockDevice>(
    device: Option<&mut D>,
    r: Result<Fat12Volume, FatError>,
)
    requires
        call_ensures(fat::mount_root::<D>, (device,), r),
    ensures
        device is None ==> r == Err::<Fat12Volume, FatError>(FatError::NoDevice),
        r matches Ok(v) ==> v.valid(),
{
}

proof fn lemma_chain_request(v: Fat12Volume, chain: Seq<int>, n: nat, j: int, i: int)
    requires
        n <= chain.len(),
        0 <= j < n,
        0 <= i < v.sectors_per_cluster,
    ensures
        v.chain_requests(chain, n).len() == n * v.sectors_per_cluster,
        0 <= j * v.sectors_per_cluster + i < v.chain_requests(chain, n).len(),
        v.chain_requests(chain, n)[j * v.sectors_per_cluster + i] == (
            (v.data_start_lba + (chain[j] - 2) * v.sectors_per_cluster + i) as u64,
            512nat,
        ),
    decreases n,
{
    let c = v.sectors_per_cluster as int;
    let head = v.chain_requests(chain, (n - 1) as nat);
    if n - 1 > 0 {
        lemma_chain_request(v, chain, (n - 1) as nat, 0, i);
    } else {
        assert(0 * c == 0) by (nonlinear_arith);
    }
    assert((n - 1) * c + c == n * c) by (nonlinear_arith);
    assert(head.len() == (n - 1) * c);
    if j < n - 1 {
        lemma_chain_request(v, chain, (n - 1) as nat, j, i);
    } else {
        assert(j * c == (n - 1) * c);
    }
}

/// For the data of a file the whole table is asked for, and then every sector
/// of every cluster of the chain, in order and one at a time.
pub proof fn law_every_sector_of_a_file_is_asked_for(
    v: Fat12Volume,
    image: Seq<u8>,
    cluster: int,
    size: int,
    chain: Seq<int>,
    k: int,
    j: int,
    i: int,
)
    requires
        v.valid(),
        0 < size,
        fat::chain_of(v.table(image), cluster, v.total_clusters as nat) == Some(chain),
        0 <= k < v.fat_size_sectors,
        0 <= j < chain.len(),
        0 <= i < v.sectors_per_cluster,
    ensures
        ({
            let wanted = v.data_requests(image, cluster, size);
            &&& wanted.len() == v.fat_size_sectors + chain.len() * v.sectors_per_cluster
            &&& wanted[k] == ((v.fat_start_lba + k) as u64, 512nat)
            &&& wanted[v.fat_size_sectors + (j * v.sectors_per_cluster + i)] == (
                (v.data_start_lba + (chain[j] - 2) * v.sectors_per_cluster + i) as u64,
                512nat,
            )
        }),
{
    lemma_chain_request(v, chain, chain.len(), j, i);
}

/// A file that is there is read by looking it up and then asking for its data;
/// one that is not costs the lookup alone, and a name that no file can have
/// costs nothing.
pub proof fn law_reads_ask_for_what_they_need<D: BlockDevice>(
    v: Fat12Volume,
    device: &mut D,
    name: &str,
    packed: Option<[u8; 11]>,
    r: Result<Vec<u8>, FatError>,
)
    requires
        v.valid(),
        call_ensures(Fat12Volume::to_83_name, (name,), packed),
        call_ensures(Fat12Volume::read_file::<D>, (&v, device, name), r),
    ensures
        packed is None ==> final(device).log().len() == old(device).log().len(),
        packed matches Some(p) ==> ({
            let image = old(device).image();
            let lookup = v.lookup_requests(image, p@);
            let wanted = match fat::find_from(v.root_dir(image), p@, 0) {
                None => lookup,
                Some((cluster, size)) => lookup + v.data_requests(image, cluster, size),
            };
            let made = final(device).log().len() - old(device).log().len();
            &&& 0 <= made <= wanted.len()
            &&& !device_failed(r) ==> made == wanted.len()
            &&& forall|k: int|
                0 <= k < made ==> (#[trigger] final(device).log()[old(device).log().len() + k]).0
                    == wanted[k]
        }),
{
    let image = old(device).image();
    if let Some(p) = packed {
        let lookup = v.lookup_requests(image, p@);
        if fat::find_from(v.root_dir(image), p@, 0) is None {
            assert(lookup + Seq::<block::BlockRequest>::empty() =~= lookup);
        }
    }
}

/// An entry is found with its cluster and its size, and the table is read as
/// it is; nothing but the device fails either.
pub proof fn law_entries_and_tables_are_read<D: BlockDevice>(
    v: Fat12Volume,
    device: &mut D,
    other: &mut D,
    name83: [u8; 11],
    found: Result<(u16, u32), FatError>,
    table: Result<Vec<u8>, FatError>,
    i: int,
)
    requires
        v.valid(),
        call_ensures(Fat12Volume::find_dir_entry::<D>, (&v, device, &name83), found),
        call_ensures(Fat12Volume::read_fat_table::<D>, (&v, other), table),
    ensures
        final(device).image() == old(device).image(),
        final(other).image() == old(other).image(),
        found matches Ok(f) ==> fat::find_from(v.root_dir(old(device).image()), name83@, 0) == Some(
            (f.0 as int, f.1 as int),
        ),
        found is Err && !(found->Err_0 is Io) ==> found->Err_0 == FatError::NoSuchFile
            && fat::find_from(v.root_dir(old(device).image()), name83@, 0) is None,
        table matches Ok(t) ==> t@.len() == v.fat_size_sectors * 512 && (0 <= i
            < v.fat_size_sectors * 512 ==> t@[i] == old(other).image()[v.fat_start_lba * 512 + i]),
        table matches Err(e) ==> e is Io,
{
}

} // verus!
