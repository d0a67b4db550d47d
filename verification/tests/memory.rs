use tarnos::memory::heap;
use tarnos::memory::phys::{free_frame_count, BitmapFrameAllocator, MemoryRegion};
use tarnos::memory::user_buffer::{
    chunk_at, validate_page, BufferCheck, CheckStep, PageWalk, UserBuffer, WalkStep,
};
use tarnos::memory::virt::{
    map_error_from, new_top_level, page_of, phys_to_virt, MapError, MapFailure, PageFlags,
    Teardown, TeardownStep,
};
use tarnos::abi::SyscallError;

#[test]
fn frames_come_from_usable_regions() {
    let mut a: BitmapFrameAllocator<1> = BitmapFrameAllocator::new();
    a.populate(&[
        MemoryRegion {
            base: 0,
            length: 4096 * 2,
            usable: false,
        },
        MemoryRegion {
            base: 4096 * 4 + 1,
            length: 4096 * 3,
            usable: true,
        },
        MemoryRegion {
            base: 4096 * 1000,
            length: 4096,
            usable: true,
        },
    ]);
    assert_eq!(free_frame_count(&a), 2);
    assert_eq!(a.allocate_frame(), Some(4096 * 5));
    assert_eq!(a.allocate_frame(), Some(4096 * 6));
    assert_eq!(a.allocate_frame(), None);
    assert!(!a.is_free(4096 * 6));
    a.deallocate_frame(4096 * 6);
    assert!(a.is_free(4096 * 6));
    assert!(!a.is_free(4096 * 5));
    assert_eq!(free_frame_count(&a), 1);
    assert_eq!(a.allocate_frame(), Some(4096 * 6));
}

#[test]
fn pages_are_found_for_addresses() {
    assert_eq!(page_of(0x1234), Some(0x1000));
    assert_eq!(page_of(0xffff_9000_0000_0fff), Some(0xffff_9000_0000_0000));
    assert_eq!(page_of(0x0000_8000_0000_0000), None);
    assert_eq!(phys_to_virt(0xffff_8000_0000_0000, 0x1000), 0xffff_8000_0000_1000);
}

#[test]
fn the_heap_has_its_pages() {
    let pages = heap::init();
    assert_eq!(pages.len(), 2048);
    assert_eq!(pages[0], 0xffff_9000_0000_0000);
    assert_eq!(pages[2047], 0xffff_9000_007f_f000);
}

#[test]
fn failed_mappings_are_told_apart() {
    assert_eq!(
        map_error_from(MapFailure::FrameAllocationFailed),
        MapError::OutOfMemory
    );
    assert_eq!(
        map_error_from(MapFailure::PageAlreadyMapped),
        MapError::AlreadyMapped
    );
    assert_eq!(
        map_error_from(MapFailure::ParentEntryHugePage),
        MapError::AlreadyMapped
    );
}

#[test]
fn a_new_table_shares_the_upper_half() {
    let mut master = [0u64; 512];
    for (i, e) in master.iter_mut().enumerate() {
        *e = i as u64 + 1;
    }
    let table = new_top_level(&master);
    assert!(table[..256].iter().all(|e| *e == 0));
    assert_eq!(&table[256..], &master[256..]);
}

#[test]
fn a_teardown_frees_children_first_and_spares_the_upper_half() {
    let mut top = vec![None; 512];
    top[0] = Some(0x1000);
    top[300] = Some(0xdead_0000);
    let mut third = vec![None; 512];
    third[5] = Some(0x2000);
    let mut second = vec![None; 512];
    second[0] = Some(0x3000);
    let mut first = vec![None; 512];
    first[1] = Some(0x4000);
    first[511] = Some(0x5000);
    let mut teardown = Teardown::new(0x9000, &top);
    let mut freed: Vec<u64> = Vec::new();
    loop {
        match teardown.next() {
            TeardownStep::Free(frame) => freed.push(frame),
            TeardownStep::Read { frame, level } => {
                let entries = match (frame, level) {
                    (0x1000, 3) => &third,
                    (0x2000, 2) => &second,
                    (0x3000, 1) => &first,
                    _ => panic!("unexpected table {:#x} at level {}", frame, level),
                };
                teardown.entries_read(frame, level, entries);
            }
            TeardownStep::Done => break,
        }
    }
    assert_eq!(freed, vec![0x4000, 0x5000, 0x3000, 0x2000, 0x1000, 0x9000]);
}

#[test]
fn buffers_that_wrap_are_refused() {
    assert_eq!(
        UserBuffer::new(u64::MAX, 2).err(),
        Some(SyscallError::InvalidArgument)
    );
    assert!(UserBuffer::new(0x1000, 0).is_ok());
}

#[test]
fn every_page_of_a_buffer_is_walked() {
    let buffer = UserBuffer::new(0x1ff0, 0x1020).unwrap();
    let mut walk = PageWalk::new(buffer);
    assert_eq!(walk.next_page(), WalkStep::Page(0x1000));
    assert_eq!(walk.next_page(), WalkStep::Page(0x2000));
    assert_eq!(walk.next_page(), WalkStep::Page(0x3000));
    assert_eq!(walk.next_page(), WalkStep::Done);
    let first = chunk_at(buffer, 0x1000);
    assert_eq!(
        (first.offset_in_page, first.offset_in_kernel_buf, first.len),
        (0xff0, 0, 0x10)
    );
    let second = chunk_at(buffer, 0x2000);
    assert_eq!(
        (second.offset_in_page, second.offset_in_kernel_buf, second.len),
        (0, 0x10, 0x1000)
    );
    let third = chunk_at(buffer, 0x3000);
    assert_eq!(
        (third.offset_in_page, third.offset_in_kernel_buf, third.len),
        (0, 0x1010, 0x10)
    );
    let wild = UserBuffer::new(0x0000_9000_0000_0000, 1).unwrap();
    assert_eq!(PageWalk::new(wild).next_page(), WalkStep::Invalid);
}

#[test]
fn only_writable_user_pages_are_accepted() {
    let good = PageFlags {
        present: true,
        writable: true,
        user: true,
        no_execute: true,
    };
    assert_eq!(validate_page(Some(good)), Ok(()));
    for bad in [
        PageFlags {
            writable: false,
            ..good
        },
        PageFlags {
            user: false,
            ..good
        },
        PageFlags {
            present: false,
            ..good
        },
    ] {
        assert_eq!(validate_page(Some(bad)), Err(SyscallError::InvalidArgument));
    }
    assert_eq!(validate_page(None), Err(SyscallError::InvalidArgument));
}

#[test]
fn a_wrapping_region_that_is_not_usable_is_skipped() {
    let mut a: BitmapFrameAllocator<1> = BitmapFrameAllocator::new();
    a.populate(&[
        MemoryRegion {
            base: u64::MAX,
            length: u64::MAX,
            usable: false,
        },
        MemoryRegion {
            base: 4096,
            length: 4096,
            usable: true,
        },
    ]);
    assert_eq!(free_frame_count(&a), 1);
}

#[test]
fn a_buffer_is_checked_page_by_page() {
    let user = PageFlags {
        present: true,
        writable: true,
        user: true,
        no_execute: true,
    };
    let buffer = UserBuffer::new(0x1800, 0x1000).unwrap();
    let mut check = BufferCheck::new(buffer);
    assert_eq!(check.step(), CheckStep::Look(0x1000));
    assert!(!check.clears(buffer));
    check.answer(Some(user));
    assert_eq!(check.step(), CheckStep::Look(0x2000));
    assert!(!check.clears(buffer));
    check.answer(Some(user));
    assert_eq!(check.step(), CheckStep::Passed);
    assert!(check.clears(buffer));
    assert!(!check.clears(UserBuffer::new(0x1800, 0x2000).unwrap()));
    for bad in [
        None,
        Some(PageFlags { writable: false, ..user }),
        Some(PageFlags { user: false, ..user }),
        Some(PageFlags { present: false, ..user }),
    ] {
        let mut check = BufferCheck::new(buffer);
        check.answer(Some(user));
        check.answer(bad);
        assert_eq!(check.step(), CheckStep::Refused);
        check.answer(Some(user));
        assert!(!check.clears(buffer));
    }
    let outside = UserBuffer::new(0x0000_8000_0000_0000, 1).unwrap();
    assert_eq!(BufferCheck::new(outside).step(), CheckStep::Refused);
}
