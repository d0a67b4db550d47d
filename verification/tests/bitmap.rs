use tarnos::kcore::bitmap::{usable_frame_range, Bitmap};

#[test]
fn allocate_on_empty_bitmap_returns_none() {
    let mut b: Bitmap<4> = Bitmap::new();
    assert_eq!(b.allocate(), None);
}

#[test]
fn allocate_then_free_then_allocate_returns_same_index() {
    let mut b: Bitmap<4> = Bitmap::new();
    b.set_free(10);
    assert!(b.is_free(10));
    assert_eq!(b.allocate(), Some(10));
    assert!(!b.is_free(10));
    b.set_free(10);
    assert!(b.is_free(10));
    assert_eq!(b.allocate(), Some(10));
}

#[test]
fn allocate_picks_lowest_free_index() {
    let mut b: Bitmap<4> = Bitmap::new();
    b.set_free(5);
    b.set_free(2);
    b.set_free(9);
    assert_eq!(b.allocate(), Some(2));
    assert_eq!(b.allocate(), Some(5));
    assert_eq!(b.allocate(), Some(9));
    assert_eq!(b.allocate(), None);
}

fn alloc_free_indices<const W: usize>(b: &mut Bitmap<W>) -> Vec<usize> {
    let mut out: Vec<usize> = Vec::new();
    while let Some(i) = b.allocate() {
        out.push(i);
    }
    out
}

#[test]
fn allocate_until_exhausted_yields_every_free_index_exactly_once() {
    let mut b: Bitmap<2> = Bitmap::new();
    for i in 0..Bitmap::<2>::capacity() {
        b.set_free(i);
    }
    let mut seen = alloc_free_indices(&mut b);
    seen.sort_unstable();
    let expected: Vec<usize> = (0..Bitmap::<2>::capacity()).collect();
    assert_eq!(seen, expected);
    assert_eq!(b.allocate(), None);
}

#[test]
fn out_of_range_index_is_ignored_not_panicking() {
    let mut b: Bitmap<1> = Bitmap::new();
    b.set_free(1000);
    assert!(!b.is_free(1000));
    assert_eq!(b.allocate(), None);
}

#[test]
fn boundary_index_at_top_of_capacity_works() {
    let mut b: Bitmap<1> = Bitmap::new();
    let last: usize = Bitmap::<1>::capacity() - 1;
    b.set_free(last);
    assert!(b.is_free(last));
    assert_eq!(b.allocate(), Some(last));
    // One past the top is out of range and must not alias index 0.
    b.set_free(Bitmap::<1>::capacity());
    assert!(!b.is_free(0));
}

#[test]
fn free_count_tracks_allocate_and_set_free() {
    let mut b: Bitmap<2> = Bitmap::new();
    assert_eq!(b.free_count(), 0);
    b.set_free(0);
    b.set_free(5);
    b.set_free(9);
    assert_eq!(b.free_count(), 3);
    b.allocate();
    assert_eq!(b.free_count(), 2);
    b.set_free(0);
    assert_eq!(b.free_count(), 3);
}

#[test]
fn frame_range_rounds_up_start_and_down_end() {
    let r = usable_frame_range(4097, 8192, 4096);
    assert_eq!(r, 2..3);
}

#[test]
fn frame_range_page_aligned_region_is_exact() {
    let r = usable_frame_range(4096 * 5, 4096 * 3, 4096);
    assert_eq!(r, 5..8);
}

#[test]
fn frame_range_shorter_than_one_frame_is_empty() {
    let r = usable_frame_range(0, 100, 4096);
    assert_eq!(r, 0..0);
    assert_eq!(r.count(), 0);
}

#[test]
fn set_used_takes_an_index_out() {
    let mut b: Bitmap<2> = Bitmap::new();
    b.set_free(63);
    b.set_free(64);
    b.set_used(63);
    assert!(!b.is_free(63));
    assert!(b.is_free(64));
    b.set_used(1000);
    assert_eq!(b.free_count(), 1);
    assert_eq!(b.allocate(), Some(64));
}

#[test]
fn a_region_at_the_top_of_the_address_space_is_empty() {
    let range = usable_frame_range(u64::MAX - 100, 200, 4096);
    assert!(range.is_empty());
    let range = usable_frame_range(u64::MAX, 1, 4096);
    assert!(range.is_empty());
}
