//! Minimal ELF64 loader for static, non-relocatable executables.
//!
//! The input is never trusted: every loadable segment's address range and
//! file range is checked against the permitted user range and the length of
//! the input before anything is mapped. What to map is decided here, page by
//! page; whoever builds the address space maps it.
use vstd::prelude::*;
use crate::bytes;
use crate::memory::virt;
use crate::memory::virt::{PageFlags, PAGE_SIZE};

verus! {

pub const ELFCLASS64: u8 = 2;

pub const ELFDATA2LSB: u8 = 1;

pub const ET_EXEC: u16 = 2;

pub const EM_X86_64: u16 = 62;

pub const PT_LOAD: u32 = 1;

pub const EHDR_SIZE: usize = 64;

pub const PHDR_SIZE: usize = 56;

/// Lowest permitted user address: the null page stays unmapped, so that a
/// null dereference faults.
pub const USER_SPACE_MIN: u64 = 0x1000;

/// One past the highest permitted user address, just under the top of the
/// canonical lower half.
pub const USER_SPACE_MAX: u64 = 0x0000_7fff_ffff_f000;

#[derive(Debug, Clone, Copy, PartialEq, Eq, Structural)]
pub enum ElfError {
    TooShort,
    BadMagic,
    NotElf64,
    NotLittleEndian,
    NotExecutable,
    WrongMachine,
    SegmentOutOfRange,
    SegmentExceedsFile,
    OutOfMemory,
    MapFailed,
}

/// A program header's fields.
#[derive(Debug, Clone, Copy, PartialEq, Eq, Structural)]
pub struct ProgramHeader {
    pub p_type: u32,
    pub p_flags: u32,
    pub p_offset: u64,
    pub p_vaddr: u64,
    pub p_filesz: u64,
    pub p_memsz: u64,
}

/// A loadable segment that passed every check.
#[derive(Debug, Clone, Copy, PartialEq, Eq, Structural)]
pub struct Segment {
    /// First address of the segment.
    pub vaddr: u64,
    /// How many bytes it takes in memory.
    pub memsz: u64,
    /// Where its bytes start in the file.
    pub offset: u64,
    /// How many bytes the file holds; the rest is zero.
    pub filesz: u64,
    pub flags: PageFlags,
}

/// An image that can be mapped: its entry point, and its segments in file
/// order.
pub struct LoadedElf {
    pub entry: u64,
    pub segments: Vec<Segment>,
}

/// The integer of `n` bytes at `off`.
pub open spec fn field(data: Seq<u8>, off: int, n: int) -> int {
    bytes::le_value(data.subrange(off, off + n)) as int
}

/// The program header at `base`.
pub open spec fn header_at(data: Seq<u8>, base: int) -> ProgramHeader {
    ProgramHeader {
        p_type: field(data, base, 4) as u32,
        p_flags: field(data, base + 4, 4) as u32,
        p_offset: field(data, base + 8, 8) as u64,
        p_vaddr: field(data, base + 16, 8) as u64,
        p_filesz: field(data, base + 32, 8) as u64,
        p_memsz: field(data, base + 40, 8) as u64,
    }
}

/// What a header's permission bits ask for: always present and reachable
/// from user mode, writable if the second bit is set, executable if the
/// first is.
pub open spec fn flags_of(p_flags: u32) -> PageFlags {
    PageFlags {
        present: true,
        writable: (p_flags / 2) % 2 == 1,
        user: true,
        no_execute: p_flags % 2 == 0,
    }
}

/// The segment that a header describes in a file of `len` bytes, or what is
/// wrong with it.
pub open spec fn segment_of(h: ProgramHeader, len: int) -> Result<Segment, ElfError> {
    if h.p_vaddr < USER_SPACE_MIN || h.p_vaddr + h.p_memsz > USER_SPACE_MAX || h.p_filesz
        > h.p_memsz {
        Err(ElfError::SegmentOutOfRange)
    } else if h.p_offset + h.p_filesz > len {
        Err(ElfError::SegmentExceedsFile)
    } else {
        Ok(
            Segment {
                vaddr: h.p_vaddr,
                memsz: h.p_memsz,
                offset: h.p_offset,
                filesz: h.p_filesz,
                flags: flags_of(h.p_flags),
            },
        )
    }
}

impl Segment {
    /// Start of the first page that the segment touches.
    pub open spec fn first(self) -> int {
        self.vaddr - self.vaddr as int % (PAGE_SIZE as int)
    }

    /// Start of the last page that the segment touches.
    pub open spec fn last(self) -> int {
        let end = self.vaddr + self.memsz - 1;
        end - end % (PAGE_SIZE as int)
    }

    /// The byte at address `addr` once the segment is loaded from `data`:
    /// from the file as far as that reaches, then zero.
    pub open spec fn byte_at(self, data: Seq<u8>, addr: int) -> u8 {
        if self.vaddr <= addr < self.vaddr + self.filesz {
            data[self.offset + (addr - self.vaddr)]
        } else {
            0
        }
    }

    /// Whether the segment passed every check against a file of `len` bytes.
    pub open spec fn valid(self, len: int) -> bool {
        &&& USER_SPACE_MIN <= self.vaddr
        &&& self.vaddr + self.memsz <= USER_SPACE_MAX
        &&& 0 < self.memsz
        &&& self.filesz <= self.memsz
        &&& self.offset + self.filesz <= len
    }
}

/// Whether two segments touch a common page.
pub open spec fn share_page(a: Segment, b: Segment) -> bool {
    a.first() <= b.last() && b.first() <= a.last()
}

/// Whether `seg` touches a page that one of `done` touches.
pub open spec fn collides(done: Seq<Segment>, seg: Segment) -> bool {
    exists|k: int| 0 <= k < done.len() && share_page(#[trigger] done[k], seg)
}

/// The segments described by headers `i` to `n`, after those in `done`, or
/// the first error: a segment that fails a check, or a page that is already
/// mapped.
pub open spec fn segments_from(
    data: Seq<u8>,
    phoff: int,
    entsize: int,
    i: int,
    n: int,
    done: Seq<Segment>,
) -> Result<Seq<Segment>, ElfError>
    decreases n - i,
{
    if i >= n {
        Ok(done)
    } else {
        let h = header_at(data, phoff + i * entsize);
        if h.p_type != PT_LOAD || h.p_memsz == 0 {
            segments_from(data, phoff, entsize, i + 1, n, done)
        } else {
            match segment_of(h, data.len() as int) {
                Err(e) => Err(e),
                Ok(seg) => if collides(done, seg) {
                    Err(ElfError::MapFailed)
                } else {
                    segments_from(data, phoff, entsize, i + 1, n, done.push(seg))
                },
            }
        }
    }
}

/// What is wrong with the file header, if anything.
pub open spec fn header_error(data: Seq<u8>) -> Option<ElfError> {
    if data.len() < EHDR_SIZE {
        Some(ElfError::TooShort)
    } else if data[0] != 0x7f || data[1] != 0x45 || data[2] != 0x4c || data[3] != 0x46 {
        Some(ElfError::BadMagic)
    } else if data[4] != ELFCLASS64 {
        Some(ElfError::NotElf64)
    } else if data[5] != ELFDATA2LSB {
        Some(ElfError::NotLittleEndian)
    } else if field(data, 16, 2) != ET_EXEC {
        Some(ElfError::NotExecutable)
    } else if field(data, 18, 2) != EM_X86_64 {
        Some(ElfError::WrongMachine)
    } else if field(data, 54, 2) < PHDR_SIZE {
        Some(ElfError::TooShort)
    } else if field(data, 32, 8) + field(data, 56, 2) * field(data, 54, 2) > data.len() {
        Some(ElfError::TooShort)
    } else {
        None
    }
}

/// The segments of an image, or what is wrong with it.
pub open spec fn image_of(data: Seq<u8>) -> Result<Seq<Segment>, ElfError> {
    match header_error(data) {
        Some(e) => Err(e),
        None => segments_from(
            data,
            field(data, 32, 8),
            field(data, 54, 2),
            0,
            field(data, 56, 2),
            Seq::empty(),
        ),
    }
}

fn read_header(data: &[u8], base: usize) -> (r: ProgramHeader)
    requires
        base + PHDR_SIZE <= data@.len(),
    ensures
        r == header_at(data@, base as int),
{
    assert(data@.len() == data.len());
    ProgramHeader {
        p_type: bytes::read_u32(data, base),
        p_flags: bytes::read_u32(data, base + 4),
        p_offset: bytes::read_u64(data, base + 8),
        p_vaddr: bytes::read_u64(data, base + 16),
        p_filesz: bytes::read_u64(data, base + 32),
        p_memsz: bytes::read_u64(data, base + 40),
    }
}

/// Checks one loadable segment against the permitted range and the file.
pub fn load_segment(phdr: &ProgramHeader, data: &[u8]) -> (r: Result<Segment, ElfError>)
    ensures
        r == segment_of(*phdr, data@.len() as int),
{
    assert(data@.len() == data.len());
    let seg_end: u64 = match phdr.p_vaddr.checked_add(phdr.p_memsz) {
        Some(end) => end,
        None => {
            return Err(ElfError::SegmentOutOfRange);
        },
    };
    if phdr.p_vaddr < USER_SPACE_MIN || seg_end > USER_SPACE_MAX {
        return Err(ElfError::SegmentOutOfRange);
    }
    if phdr.p_filesz > phdr.p_memsz {
        return Err(ElfError::SegmentOutOfRange);
    }
    let file_end: u64 = match phdr.p_offset.checked_add(phdr.p_filesz) {
        Some(end) => end,
        None => {
            return Err(ElfError::SegmentExceedsFile);
        },
    };
    if file_end > data.len() as u64 {
        return Err(ElfError::SegmentExceedsFile);
    }
    Ok(
        Segment {
            vaddr: phdr.p_vaddr,
            memsz: phdr.p_memsz,
            offset: phdr.p_offset,
            filesz: phdr.p_filesz,
            flags: PageFlags {
                present: true,
                writable: (phdr.p_flags / 2) % 2 == 1,
                user: true,
                no_execute: phdr.p_flags % 2 == 0,
            },
        },
    )
}

impl Segment {
    /// Start of the first page that the segment touches.
    pub fn first_page(&self) -> (r: u64)
        requires
            self.vaddr < USER_SPACE_MAX,
        ensures
            r == self.first(),
    {
        virt::containing_page(self.vaddr)
    }

    /// Start of the last page that the segment touches.
    pub fn last_page(&self) -> (r: u64)
        requires
            0 < self.memsz,
            self.vaddr + self.memsz <= USER_SPACE_MAX,
        ensures
            r == self.last(),
    {
        virt::containing_page(self.vaddr + self.memsz - 1)
    }

    /// The contents of one page of the segment: the part of the file that
    /// falls into it, and zeroes everywhere else.
    pub fn page_image(&self, data: &[u8], page: u64) -> (r: Vec<u8>)
        requires
            self.valid(data@.len() as int),
            page + PAGE_SIZE <= u64::MAX,
        ensures
            r@ == Seq::new(PAGE_SIZE as nat, |k: int| self.byte_at(data@, page + k)),
    {
        assert(data@.len() == data.len());
        let mut image: Vec<u8> = Vec::new();
        let mut k: u64 = 0;
        while k < PAGE_SIZE
            invariant
                k <= PAGE_SIZE,
                self.valid(data@.len() as int),
                page + PAGE_SIZE <= u64::MAX,
                data@.len() == data.len(),
                image@.len() == k,
                forall|j: int| 0 <= j < k ==> (#[trigger] image@[j]) == self.byte_at(
                    data@,
                    page + j,
                ),
            decreases PAGE_SIZE - k,
        {
            let addr: u64 = page + k;
            if addr >= self.vaddr && addr - self.vaddr < self.filesz {
                image.push(data[(self.offset + (addr - self.vaddr)) as usize]);
            } else {
                image.push(0);
            }
            k = k + 1;
        }
        assert(image@ =~= Seq::new(PAGE_SIZE as nat, |k: int| self.byte_at(data@, page + k)));
        image
    }
}

/// Whether `seg` touches a page that one of `done` touches.
fn check_collision(done: &Vec<Segment>, seg: &Segment, Ghost(len): Ghost<int>) -> (r: bool)
    requires
        seg.valid(len),
        forall|k: int| 0 <= k < done@.len() ==> (#[trigger] done@[k]).valid(len),
    ensures
        r == collides(done@, *seg),
{
    let mut k: usize = 0;
    while k < done.len()
        invariant
            k <= done@.len(),
            seg.valid(len),
            forall|j: int| 0 <= j < done@.len() ==> (#[trigger] done@[j]).valid(len),
            forall|j: int| 0 <= j < k ==> !share_page(#[trigger] done@[j], *seg),
        decreases done@.len() - k,
    {
        assert(done@[k as int].valid(len));
        if done[k].first_page() <= seg.last_page() && seg.first_page() <= done[k].last_page() {
            assert(share_page(done@[k as int], *seg));
            return true;
        }
        k = k + 1;
    }
    false
}

/// Decides how a static executable is to be mapped. Fails on a malformed
/// header, on a segment outside the permitted user range or outside the
/// file, and on a page that two segments would both map.
pub fn load(data: &[u8]) -> (r: Result<LoadedElf, ElfError>)
    ensures
        match r {
            Ok(elf) => {
                &&& image_of(data@) == Ok::<Seq<Segment>, ElfError>(elf.segments@)
                &&& elf.entry == field(data@, 24, 8)
                &&& forall|k: int|
                    0 <= k < elf.segments@.len() ==> (#[trigger] elf.segments@[k]).valid(
                        data@.len() as int,
                    )
            },
            Err(e) => image_of(data@) == Err::<Seq<Segment>, ElfError>(e),
        },
{
    assert(data@.len() == data.len());
    if data.len() < EHDR_SIZE {
        return Err(ElfError::TooShort);
    }
    if data[0] != 0x7f || data[1] != 0x45 || data[2] != 0x4c || data[3] != 0x46 {
        return Err(ElfError::BadMagic);
    }
    if data[4] != ELFCLASS64 {
        return Err(ElfError::NotElf64);
    }
    if data[5] != ELFDATA2LSB {
        return Err(ElfError::NotLittleEndian);
    }
    let e_type: u16 = bytes::read_u16(data, 16);
    let e_machine: u16 = bytes::read_u16(data, 18);
    let e_entry: u64 = bytes::read_u64(data, 24);
    let e_phoff: u64 = bytes::read_u64(data, 32);
    let e_phentsize: u64 = bytes::read_u16(data, 54) as u64;
    let e_phnum: u64 = bytes::read_u16(data, 56) as u64;
    if e_type != ET_EXEC {
        return Err(ElfError::NotExecutable);
    }
    if e_machine != EM_X86_64 {
        return Err(ElfError::WrongMachine);
    }
    if e_phentsize < PHDR_SIZE as u64 {
        return Err(ElfError::TooShort);
    }
    assert(e_phnum * e_phentsize <= 0xFFFF * 0xFFFF) by (nonlinear_arith)
        requires
            e_phnum <= 0xFFFF,
            e_phentsize <= 0xFFFF,
    ;
    let phdrs_end: u64 = match e_phoff.checked_add(e_phnum * e_phentsize) {
        Some(end) => end,
        None => {
            return Err(ElfError::TooShort);
        },
    };
    if phdrs_end > data.len() as u64 {
        return Err(ElfError::TooShort);
    }
    let mut segments: Vec<Segment> = Vec::new();
    assert(segments@ =~= Seq::<Segment>::empty());
    let mut i: u64 = 0;
    while i < e_phnum
        invariant
            i <= e_phnum,
            data@.len() == data.len(),
            header_error(data@) is None,
            e_phoff == field(data@, 32, 8),
            e_phentsize == field(data@, 54, 2),
            e_phnum == field(data@, 56, 2),
            PHDR_SIZE <= e_phentsize,
            e_phoff + e_phnum * e_phentsize <= data@.len(),
            forall|k: int|
                0 <= k < segments@.len() ==> (#[trigger] segments@[k]).valid(data@.len() as int),
            image_of(data@) == segments_from(
                data@,
                e_phoff as int,
                e_phentsize as int,
                i as int,
                e_phnum as int,
                segments@,
            ),
        decreases e_phnum - i,
    {
        proof {
            assert(i * e_phentsize + e_phentsize <= e_phnum * e_phentsize) by (nonlinear_arith)
                requires
                    i + 1 <= e_phnum,
                    0 <= e_phentsize,
            ;
            assert(0 <= i * e_phentsize) by (nonlinear_arith);
        }
        let base: usize = (e_phoff + i * e_phentsize) as usize;
        let phdr = read_header(data, base);
        if phdr.p_type == PT_LOAD && phdr.p_memsz != 0 {
            match load_segment(&phdr, data) {
                Err(e) => {
                    return Err(e);
                },
                Ok(seg) => {
                    if check_collision(&segments, &seg, Ghost(data@.len() as int)) {
                        return Err(ElfError::MapFailed);
                    }
                    segments.push(seg);
                },
            }
        }
        i = i + 1;
    }
    Ok(LoadedElf { entry: e_entry, segments })
}

/// Every segment of an accepted image lies in the permitted user range and
/// takes its bytes from inside the file.
pub proof fn law_segments_stay_in_bounds(data: Seq<u8>, k: int)
    requires
        image_of(data) is Ok,
        0 <= k < image_of(data)->Ok_0.len(),
    ensures
        image_of(data)->Ok_0[k].valid(data.len() as int),
{
    lemma_segments_valid(
        data,
        field(data, 32, 8),
        field(data, 54, 2),
        0,
        field(data, 56, 2),
        Seq::empty(),
    );
}

proof fn lemma_segments_valid(
    data: Seq<u8>,
    phoff: int,
    entsize: int,
    i: int,
    n: int,
    done: Seq<Segment>,
)
    requires
        forall|k: int| 0 <= k < done.len() ==> (#[trigger] done[k]).valid(data.len() as int),
        forall|a: int, b: int|
            0 <= a < b < done.len() ==> !share_page(#[trigger] done[a], #[trigger] done[b]),
    ensures
        segments_from(data, phoff, entsize, i, n, done) matches Ok(s) ==> {
            &&& forall|k: int| 0 <= k < s.len() ==> (#[trigger] s[k]).valid(data.len() as int)
            &&& forall|a: int, b: int|
                0 <= a < b < s.len() ==> !share_page(#[trigger] s[a], #[trigger] s[b])
        },
    decreases n - i,
{
    if i < n {
        let h = header_at(data, phoff + i * entsize);
        if h.p_type != PT_LOAD || h.p_memsz == 0 {
            lemma_segments_valid(data, phoff, entsize, i + 1, n, done);
        } else {
            match segment_of(h, data.len() as int) {
                Err(e) => {},
                Ok(seg) => {
                    if !collides(done, seg) {
                        lemma_segments_valid(data, phoff, entsize, i + 1, n, done.push(seg));
                    }
                },
            }
        }
    }
}

/// No two segments of an accepted image map the same page, so none can
/// overwrite another or change its permissions.
pub proof fn law_segments_share_no_page(data: Seq<u8>, a: int, b: int)
    requires
        image_of(data) is Ok,
        0 <= a < b < image_of(data)->Ok_0.len(),
    ensures
        !share_page(image_of(data)->Ok_0[a], image_of(data)->Ok_0[b]),
{
    lemma_segments_valid(
        data,
        field(data, 32, 8),
        field(data, 54, 2),
        0,
        field(data, 56, 2),
        Seq::empty(),
    );
}

/// What lies past the file's part of a segment is zero.
pub proof fn law_bss_is_zero(seg: Segment, data: Seq<u8>, addr: int)
    requires
        seg.vaddr + seg.filesz <= addr < seg.vaddr + seg.memsz,
    ensures
        seg.byte_at(data, addr) == 0,
{
}

/// The number in the `n` bytes from `off` on, the first of which counts least.
pub open spec fn number_at(data: Seq<u8>, off: int, n: nat) -> int
    decreases n,
{
    if n == 0 {
        0
    } else {
        data[off] + 256 * number_at(data, off + 1, (n - 1) as nat)
    }
}

proof fn lemma_number_at(data: Seq<u8>, off: int, n: nat)
    requires
        0 <= off,
        off + n <= data.len(),
    ensures
        field(data, off, n as int) == number_at(data, off, n),
        0 <= field(data, off, n as int) < bytes::pow256(n),
    decreases n,
{
    let s = data.subrange(off, off + n);
    if n > 0 {
        lemma_number_at(data, off + 1, (n - 1) as nat);
        assert(s.drop_first() =~= data.subrange(off + 1, off + 1 + (n - 1)));
    }
}

/// Whether `seg` is what the program header at `base` asks for: mapped at its
/// address, as large as it says, from its place in the file, reachable from
/// user mode, writable exactly if its write bit is set, and executable exactly
/// if its execute bit is.
pub open spec fn as_header_asks(data: Seq<u8>, base: int, seg: Segment) -> bool {
    let p_flags = number_at(data, base + 4, 4) as u32;
    &&& number_at(data, base, 4) == 1
    &&& seg.offset == number_at(data, base + 8, 8)
    &&& seg.vaddr == number_at(data, base + 16, 8)
    &&& seg.filesz == number_at(data, base + 32, 8)
    &&& seg.memsz == number_at(data, base + 40, 8)
    &&& seg.memsz > 0
    &&& seg.flags.present
    &&& seg.flags.user
    &&& seg.flags.writable == (p_flags & 2 == 2)
    &&& seg.flags.no_execute == (p_flags & 1 == 0)
}

proof fn lemma_header_asks(data: Seq<u8>, base: int)
    requires
        0 <= base,
        base + 56 <= data.len(),
        segment_of(header_at(data, base), data.len() as int) is Ok,
        header_at(data, base).p_type == PT_LOAD,
        header_at(data, base).p_memsz != 0,
    ensures
        as_header_asks(
            data,
            base,
            segment_of(header_at(data, base), data.len() as int)->Ok_0,
        ),
{
    bytes::lemma_pow256_values();
    lemma_number_at(data, base, 4);
    lemma_number_at(data, base + 4, 4);
    lemma_number_at(data, base + 8, 8);
    lemma_number_at(data, base + 16, 8);
    lemma_number_at(data, base + 32, 8);
    lemma_number_at(data, base + 40, 8);
    let f = header_at(data, base).p_flags;
    assert((f / 2) % 2 == 1 <==> f & 2 == 2) by (bit_vector);
    assert(f % 2 == 0 <==> f & 1 == 0) by (bit_vector);
}

proof fn lemma_segments_come_from_headers(
    data: Seq<u8>,
    phoff: int,
    entsize: int,
    i: int,
    n: int,
    done: Seq<Segment>,
    k: int,
)
    requires
        0 <= phoff,
        56 <= entsize,
        0 <= i <= n,
        phoff + n * entsize <= data.len(),
        segments_from(data, phoff, entsize, i, n, done) is Ok,
        0 <= k < segments_from(data, phoff, entsize, i, n, done)->Ok_0.len(),
    ensures
        ({
            let all = segments_from(data, phoff, entsize, i, n, done)->Ok_0;
            ||| k < done.len() && all[k] == done[k]
            ||| k >= done.len() && exists|h: int|
                i <= h < n && #[trigger] as_header_asks(data, phoff + h * entsize, all[k])
        }),
        segments_from(data, phoff, entsize, i, n, done)->Ok_0.len() >= done.len(),
    decreases n - i,
{
    if i < n {
        let base = phoff + i * entsize;
        assert(0 <= i * entsize) by (nonlinear_arith)
            requires
                0 <= i,
                56 <= entsize,
        ;
        assert((i + 1) * entsize <= n * entsize && (i + 1) * entsize == i * entsize + entsize)
            by (nonlinear_arith)
            requires
                i < n,
                56 <= entsize,
        ;
        let h = header_at(data, base);
        if h.p_type != PT_LOAD || h.p_memsz == 0 {
            lemma_segments_come_from_headers(data, phoff, entsize, i + 1, n, done, k);
        } else {
            let seg = segment_of(h, data.len() as int)->Ok_0;
            lemma_header_asks(data, base);
            lemma_segments_come_from_headers(data, phoff, entsize, i + 1, n, done.push(seg), k);
            let all = segments_from(data, phoff, entsize, i, n, done)->Ok_0;
            if k == done.len() {
                assert(all[k] == seg);
                assert(as_header_asks(data, phoff + i * entsize, all[k]));
            }
        }
    }
}

/// Every segment of an image is as one of its program headers asks, with
/// exactly that header's permissions, and the program starts where the file
/// header says.
pub proof fn law_segments_are_as_asked(data: &[u8], r: Result<LoadedElf, ElfError>, k: int)
    requires
        call_ensures(load, (data,), r),
        r is Ok,
        0 <= k < r->Ok_0.segments@.len(),
    ensures
        r->Ok_0.entry == number_at(data@, 24, 8),
        exists|h: int|
            0 <= h < number_at(data@, 56, 2) && #[trigger] as_header_asks(
                data@,
                number_at(data@, 32, 8) + h * number_at(data@, 54, 2),
                r->Ok_0.segments@[k],
            ),
{
    let d = data@;
    lemma_number_at(d, 24, 8);
    lemma_number_at(d, 32, 8);
    lemma_number_at(d, 54, 2);
    lemma_number_at(d, 56, 2);
    lemma_segments_come_from_headers(
        d,
        field(d, 32, 8),
        field(d, 54, 2),
        0,
        field(d, 56, 2),
        Seq::empty(),
        k,
    );
}

proof fn lemma_headers_become_segments(
    data: Seq<u8>,
    phoff: int,
    entsize: int,
    i: int,
    n: int,
    done: Seq<Segment>,
    h: int,
)
    requires
        0 <= phoff,
        56 <= entsize,
        0 <= i <= h < n,
        phoff + n * entsize <= data.len(),
        segments_from(data, phoff, entsize, i, n, done) is Ok,
        header_at(data, phoff + h * entsize).p_type == PT_LOAD,
        header_at(data, phoff + h * entsize).p_memsz != 0,
    ensures
        exists|k: int|
            0 <= k < segments_from(data, phoff, entsize, i, n, done)->Ok_0.len() && as_header_asks(
                data,
                phoff + h * entsize,
                #[trigger] segments_from(data, phoff, entsize, i, n, done)->Ok_0[k],
            ),
    decreases n - i,
{
    let head = header_at(data, phoff + i * entsize);
    assert(0 <= i * entsize) by (nonlinear_arith)
        requires
            0 <= i,
            56 <= entsize,
    ;
    assert((i + 1) * entsize <= n * entsize && (i + 1) * entsize == i * entsize + entsize)
        by (nonlinear_arith)
        requires
            i < n,
            56 <= entsize,
    ;
    let all = segments_from(data, phoff, entsize, i, n, done)->Ok_0;
    if head.p_type != PT_LOAD || head.p_memsz == 0 {
        lemma_headers_become_segments(data, phoff, entsize, i + 1, n, done, h);
    } else {
        let seg = segment_of(head, data.len() as int)->Ok_0;
        if h == i {
            lemma_header_asks(data, phoff + i * entsize);
            let k = done.len() as int;
            lemma_done_stays(data, phoff, entsize, i + 1, n, done.push(seg), k);
            assert(as_header_asks(data, phoff + h * entsize, all[k]));
        } else {
            lemma_headers_become_segments(data, phoff, entsize, i + 1, n, done.push(seg), h);
        }
    }
}

proof fn lemma_done_stays(
    data: Seq<u8>,
    phoff: int,
    entsize: int,
    i: int,
    n: int,
    done: Seq<Segment>,
    k: int,
)
    requires
        segments_from(data, phoff, entsize, i, n, done) is Ok,
        0 <= k < done.len(),
    ensures
        segments_from(data, phoff, entsize, i, n, done)->Ok_0.len() >= done.len(),
        segments_from(data, phoff, entsize, i, n, done)->Ok_0[k] == done[k],
    decreases n - i,
{
    if i < n {
        let h = header_at(data, phoff + i * entsize);
        if h.p_type != PT_LOAD || h.p_memsz == 0 {
            lemma_done_stays(data, phoff, entsize, i + 1, n, done, k);
        } else {
            let seg = segment_of(h, data.len() as int)->Ok_0;
            lemma_done_stays(data, phoff, entsize, i + 1, n, done.push(seg), k);
        }
    }
}

/// No loadable header of an image is left out: each that takes any memory
/// becomes a segment.
pub proof fn law_every_loadable_header_is_loaded(
    data: &[u8],
    r: Result<LoadedElf, ElfError>,
    h: int,
)
    requires
        call_ensures(load, (data,), r),
        r is Ok,
        0 <= h < number_at(data@, 56, 2),
        ({
            let base = number_at(data@, 32, 8) + h * number_at(data@, 54, 2);
            number_at(data@, base, 4) == 1 && number_at(data@, base + 40, 8) != 0
        }),
    ensures
        exists|k: int|
            0 <= k < r->Ok_0.segments@.len() && as_header_asks(
                data@,
                number_at(data@, 32, 8) + h * number_at(data@, 54, 2),
                #[trigger] r->Ok_0.segments@[k],
            ),
{
    let d = data@;
    lemma_number_at(d, 32, 8);
    lemma_number_at(d, 54, 2);
    lemma_number_at(d, 56, 2);
    let phoff = field(d, 32, 8);
    let entsize = field(d, 54, 2);
    let n = field(d, 56, 2);
    let base = phoff + h * entsize;
    assert(0 <= h * entsize && h * entsize + entsize <= n * entsize) by (nonlinear_arith)
        requires
            0 <= h < n,
            56 <= entsize,
    ;
    bytes::lemma_pow256_values();
    lemma_number_at(d, base, 4);
    lemma_number_at(d, base + 40, 8);
    lemma_headers_become_segments(d, phoff, entsize, 0, n, Seq::empty(), h);
}

/// What is not a static little-endian 64-bit x86 executable with its header
/// table inside the file is refused, and each refusal says why.
pub proof fn law_foreign_images_are_refused(data: &[u8], r: Result<LoadedElf, ElfError>)
    requires
        call_ensures(load, (data,), r),
    ensures
        r is Ok ==> {
            &&& data@.len() >= 64
            &&& data@[0] == 0x7f && data@[1] == 0x45 && data@[2] == 0x4c && data@[3] == 0x46
            &&& data@[4] == 2 && data@[5] == 1
            &&& number_at(data@, 16, 2) == 2
            &&& number_at(data@, 18, 2) == 62
            &&& number_at(data@, 32, 8) + number_at(data@, 56, 2) * number_at(data@, 54, 2)
                <= data@.len()
        },
        data@.len() < 64 ==> r == Err::<LoadedElf, ElfError>(ElfError::TooShort),
        r == Err::<LoadedElf, ElfError>(ElfError::BadMagic) <==> data@.len() >= 64 && (data@[0]
            != 0x7f || data@[1] != 0x45 || data@[2] != 0x4c || data@[3] != 0x46),
        r == Err::<LoadedElf, ElfError>(ElfError::TooShort) ==> data@.len() < 64 || number_at(
            data@,
            54,
            2,
        ) < 56 || number_at(data@, 32, 8) + number_at(data@, 56, 2) * number_at(data@, 54, 2)
            > data@.len(),
        r == Err::<LoadedElf, ElfError>(ElfError::NotElf64) ==> data@[4] != 2,
        r == Err::<LoadedElf, ElfError>(ElfError::NotLittleEndian) ==> data@[5] != 1,
        r == Err::<LoadedElf, ElfError>(ElfError::NotExecutable) ==> number_at(data@, 16, 2) != 2,
        r == Err::<LoadedElf, ElfError>(ElfError::WrongMachine) ==> number_at(data@, 18, 2) != 62,
{
    if data@.len() >= 64 {
        lemma_number_at(data@, 16, 2);
        lemma_number_at(data@, 18, 2);
        lemma_number_at(data@, 32, 8);
        lemma_number_at(data@, 54, 2);
        lemma_number_at(data@, 56, 2);
        if header_error(data@) is None {
            lemma_no_header_errors(
                data@,
                field(data@, 32, 8),
                field(data@, 54, 2),
                0,
                field(data@, 56, 2),
                Seq::empty(),
            );
        }
    }
}

proof fn lemma_no_header_errors(
    data: Seq<u8>,
    phoff: int,
    entsize: int,
    i: int,
    n: int,
    done: Seq<Segment>,
)
    ensures
        segments_from(data, phoff, entsize, i, n, done) matches Err(e) ==> e
            == ElfError::SegmentOutOfRange || e == ElfError::SegmentExceedsFile || e
            == ElfError::MapFailed,
    decreases n - i,
{
    if i < n {
        let h = header_at(data, phoff + i * entsize);
        if h.p_type != PT_LOAD || h.p_memsz == 0 {
            lemma_no_header_errors(data, phoff, entsize, i + 1, n, done);
        } else {
            match segment_of(h, data.len() as int) {
                Ok(seg) => lemma_no_header_errors(data, phoff, entsize, i + 1, n, done.push(seg)),
                Err(_) => {},
            }
        }
    }
}

/// A loaded segment holds the file's bytes from its place in the file on, one
/// by one.
pub proof fn law_segments_hold_the_file(seg: Segment, data: Seq<u8>, i: int)
    requires
        0 <= i < seg.filesz,
    ensures
        seg.byte_at(data, seg.vaddr + i) == data[seg.offset + i],
{
}

/// The permitted range leaves out the null page and everything from the top of
/// the lower half on.
pub proof fn law_segments_stay_in_user_space(data: &[u8], r: Result<LoadedElf, ElfError>, k: int)
    requires
        call_ensures(load, (data,), r),
        r is Ok,
        0 <= k < r->Ok_0.segments@.len(),
    ensures
        ({
            let seg = r->Ok_0.segments@[k];
            &&& 0x1000 <= seg.vaddr
            &&& seg.vaddr + seg.memsz <= 0x7fff_ffff_f000
            &&& seg.filesz <= seg.memsz
            &&& seg.offset + seg.filesz <= data@.len()
        }),
{
    law_segments_stay_in_bounds(data@, k);
}

/// Where header `h` of a file is.
pub open spec fn header_place(data: Seq<u8>, h: int) -> int {
    number_at(data, 32, 8) + h * number_at(data, 54, 2)
}

/// Whether the header at `base` asks for a segment to be loaded.
pub open spec fn asks_for_segment(data: Seq<u8>, base: int) -> bool {
    number_at(data, base, 4) == 1 && number_at(data, base + 40, 8) != 0
}

/// Whether the segment of the header at `base` leaves the permitted range, or
/// holds more bytes in the file than in memory.
pub open spec fn out_of_range(data: Seq<u8>, base: int) -> bool {
    let vaddr = number_at(data, base + 16, 8);
    let memsz = number_at(data, base + 40, 8);
    vaddr < 0x1000 || vaddr + memsz > 0x7fff_ffff_f000 || number_at(data, base + 32, 8) > memsz
}

/// Whether the bytes of the header at `base` pass the end of the file.
pub open spec fn past_the_file(data: Seq<u8>, base: int) -> bool {
    number_at(data, base + 8, 8) + number_at(data, base + 32, 8) > data.len()
}

/// Whether the segments of two headers have bytes on the same page.
pub open spec fn pages_meet(data: Seq<u8>, a: int, b: int) -> bool {
    let a_first = number_at(data, a + 16, 8);
    let b_first = number_at(data, b + 16, 8);
    let a_last = a_first + number_at(data, a + 40, 8) - 1;
    let b_last = b_first + number_at(data, b + 40, 8) - 1;
    a_first / 4096 <= b_last / 4096 && b_first / 4096 <= a_last / 4096
}

proof fn lemma_header_numbers(data: Seq<u8>, base: int)
    requires
        0 <= base,
        base + 56 <= data.len(),
    ensures
        ({
            let h = header_at(data, base);
            &&& h.p_type == number_at(data, base, 4)
            &&& h.p_offset == number_at(data, base + 8, 8)
            &&& h.p_vaddr == number_at(data, base + 16, 8)
            &&& h.p_filesz == number_at(data, base + 32, 8)
            &&& h.p_memsz == number_at(data, base + 40, 8)
        }),
{
    bytes::lemma_pow256_values();
    lemma_number_at(data, base, 4);
    lemma_number_at(data, base + 8, 8);
    lemma_number_at(data, base + 16, 8);
    lemma_number_at(data, base + 32, 8);
    lemma_number_at(data, base + 40, 8);
}

/// Whether some header from `i` to `n` explains why the segments were refused
/// with `e`.
pub open spec fn is_reason(data: Seq<u8>, e: ElfError, h: int, g: int) -> bool {
    let base = header_place(data, h);
    &&& asks_for_segment(data, base)
    &&& match e {
        ElfError::SegmentOutOfRange => out_of_range(data, base),
        ElfError::SegmentExceedsFile => past_the_file(data, base),
        ElfError::MapFailed => 0 <= g < h && asks_for_segment(data, header_place(data, g))
            && pages_meet(data, header_place(data, g), base),
        _ => false,
    }
}

proof fn lemma_refusals_have_reasons(
    data: Seq<u8>,
    i: int,
    n: int,
    done: Seq<Segment>,
    from: Seq<int>,
) -> (r: (int, int))
    requires
        data.len() >= 64,
        56 <= number_at(data, 54, 2),
        0 <= number_at(data, 32, 8),
        0 <= i <= n,
        header_place(data, n) <= data.len(),
        done.len() == from.len(),
        forall|k: int|
            0 <= k < from.len() ==> 0 <= (#[trigger] from[k]) < i && asks_for_segment(
                data,
                header_place(data, from[k]),
            ) && done[k].vaddr == number_at(data, header_place(data, from[k]) + 16, 8)
                && done[k].memsz == number_at(data, header_place(data, from[k]) + 40, 8),
    ensures
        segments_from(data, number_at(data, 32, 8), number_at(data, 54, 2), i, n, done) matches Err(
            e,
        ) ==> i <= r.0 < n && is_reason(data, e, r.0, r.1),
    decreases n - i,
{
    if i < n {
        let base = header_place(data, i);
        let phoff = number_at(data, 32, 8);
        let entsize = number_at(data, 54, 2);
        assert(0 <= base && base + 56 <= data.len()) by (nonlinear_arith)
            requires
                base == phoff + i * entsize,
                phoff + n * entsize <= data.len(),
                0 <= i,
                i + 1 <= n,
                56 <= entsize,
                0 <= phoff,
        ;
        lemma_header_numbers(data, base);
        let h = header_at(data, base);
        if h.p_type != PT_LOAD || h.p_memsz == 0 {
            lemma_refusals_have_reasons(data, i + 1, n, done, from)
        } else {
            match segment_of(h, data.len() as int) {
                Err(e) => (i, 0),
                Ok(seg) => if collides(done, seg) {
                    let k = choose|k: int|
                        0 <= k < done.len() && share_page(#[trigger] done[k], seg);
                    let g = from[k];
                    assert(pages_meet(data, header_place(data, g), base));
                    (i, g)
                } else {
                    lemma_refusals_have_reasons(data, i + 1, n, done.push(seg), from.push(i))
                },
            }
        }
    } else {
        (0, 0)
    }
}

/// A file with a good header is refused only for a segment that is out of
/// range, one that passes the end of the file, or two that meet on a page, and
/// the refusal says which.
pub proof fn law_refusals_have_reasons(data: &[u8], r: Result<LoadedElf, ElfError>)
    requires
        call_ensures(load, (data,), r),
        r is Err,
        data@.len() >= 64,
        data@[0] == 0x7f && data@[1] == 0x45 && data@[2] == 0x4c && data@[3] == 0x46,
        data@[4] == 2 && data@[5] == 1,
        number_at(data@, 16, 2) == 2,
        number_at(data@, 18, 2) == 62,
        number_at(data@, 54, 2) >= 56,
        header_place(data@, number_at(data@, 56, 2)) <= data@.len(),
    ensures
        exists|h: int, g: int|
            0 <= h < number_at(data@, 56, 2) && #[trigger] is_reason(data@, r->Err_0, h, g),
{
    lemma_number_at(data@, 16, 2);
    lemma_number_at(data@, 18, 2);
    lemma_number_at(data@, 32, 8);
    lemma_number_at(data@, 54, 2);
    lemma_number_at(data@, 56, 2);
    assert(header_error(data@) is None);
    let n = number_at(data@, 56, 2);
    let w = lemma_refusals_have_reasons(data@, 0, n, Seq::empty(), Seq::empty());
    assert(is_reason(data@, r->Err_0, w.0, w.1));
}

/// A segment is taken exactly if it stays in the permitted range, does not
/// shrink in memory, and has its bytes in the file; the checks come in this
/// order.
pub proof fn law_segments_are_checked(
    phdr: ProgramHeader,
    data: &[u8],
    r: Result<Segment, ElfError>,
)
    requires
        call_ensures(load_segment, (&phdr, data), r),
    ensures
        ({
            let ranged = 0x1000 <= phdr.p_vaddr && phdr.p_vaddr + phdr.p_memsz <= 0x7fff_ffff_f000
                && phdr.p_filesz <= phdr.p_memsz;
            let backed = phdr.p_offset + phdr.p_filesz <= data@.len();
            &&& !ranged ==> r == Err::<Segment, ElfError>(ElfError::SegmentOutOfRange)
            &&& ranged && !backed ==> r == Err::<Segment, ElfError>(ElfError::SegmentExceedsFile)
            &&& ranged && backed ==> r is Ok
        }),
        r matches Ok(seg) ==> {
            &&& seg.vaddr == phdr.p_vaddr
            &&& seg.memsz == phdr.p_memsz
            &&& seg.offset == phdr.p_offset
            &&& seg.filesz == phdr.p_filesz
            &&& seg.flags.present && seg.flags.user
            &&& seg.flags.writable <==> phdr.p_flags % 4 >= 2
            &&& seg.flags.no_execute <==> phdr.p_flags % 2 == 0
        },
{
}

/// A page of a segment holds the bytes that the file has for its addresses,
/// and zero at every other.
pub proof fn law_pages_hold_the_file(seg: Segment, data: &[u8], page: u64, r: Vec<u8>, k: int)
    requires
        seg.valid(data@.len() as int),
        page + 4096 <= u64::MAX,
        0 <= k < 4096,
        call_ensures(Segment::page_image, (&seg, data, page), r),
    ensures
        r@.len() == 4096,
        seg.vaddr <= page + k < seg.vaddr + seg.filesz ==> r@[k] == data@[seg.offset + (page + k
            - seg.vaddr)],
        !(seg.vaddr <= page + k < seg.vaddr + seg.filesz) ==> r@[k] == 0,
{
}

/// The first page of a segment holds its first byte, the last one its last.
pub proof fn law_pages_span_the_segment(seg: Segment, len: int, first: u64, last: u64)
    requires
        seg.valid(len),
        call_ensures(Segment::first_page, (&seg,), first),
        call_ensures(Segment::last_page, (&seg,), last),
    ensures
        first % 4096 == 0 && last % 4096 == 0,
        first <= seg.vaddr < first + 4096,
        last < seg.vaddr + seg.memsz <= last + 4096,
{
}

/// No two segments of a loaded image have an address on the same page.
pub proof fn law_pages_belong_to_one_segment(
    data: &[u8],
    r: Result<LoadedElf, ElfError>,
    a: int,
    b: int,
    x: int,
    y: int,
)
    requires
        call_ensures(load, (data,), r),
        r is Ok,
        0 <= a < b < r->Ok_0.segments@.len(),
        r->Ok_0.segments@[a].vaddr <= x < r->Ok_0.segments@[a].vaddr + r->Ok_0.segments@[a].memsz,
        r->Ok_0.segments@[b].vaddr <= y < r->Ok_0.segments@[b].vaddr + r->Ok_0.segments@[b].memsz,
    ensures
        x / 4096 != y / 4096,
{
    law_segments_share_no_page(data@, a, b);
}

} // verus!
