//! An addressed, whole-sector storage device.
use vstd::prelude::*;
use crate::driver::Driver;

verus! {

/// The size of every sector.
pub const SECTOR_SIZE: usize = 512;

/// What can go wrong in a read.
#[derive(Debug, Clone, Copy, PartialEq, Eq, Structural)]
pub enum BlockError {
    /// The buffer is empty, or not a whole number of sectors.
    BufferNotSectorAligned,
    /// The read would pass the device's capacity.
    OutOfRange,
    /// More sectors were requested than the driver transfers in one call.
    RequestTooLarge,
    /// The device itself reported failure.
    DeviceError,
}

/// Whether a buffer of `len` bytes is a whole, positive number of sectors.
pub open spec fn whole_sectors(len: nat) -> bool {
    len > 0 && len % (SECTOR_SIZE as nat) == 0
}

/// Whether a read of `len` bytes at sector `lba` stays inside a device that
/// holds `capacity` sectors.
pub open spec fn in_capacity(lba: u64, len: nat, capacity: int) -> bool {
    lba + len / (SECTOR_SIZE as nat) <= capacity
}

/// The `len` bytes from sector `lba` on.
pub open spec fn sectors(image: Seq<u8>, lba: int, len: int) -> Seq<u8> {
    Seq::new(len as nat, |k: int| image[lba * SECTOR_SIZE + k])
}

/// One request that a device was handed: the sector it starts at, and how
/// many bytes were asked for.
pub type BlockRequest = (u64, nat);

/// The requests for the `n` sectors from `lba` on, one sector at a time.
pub open spec fn one_by_one(lba: int, n: nat) -> Seq<BlockRequest> {
    Seq::new(n, |k: int| ((lba + k) as u64, SECTOR_SIZE as nat))
}

/// A request, and the error that it was answered with, if it was not served.
pub type Exchange = (BlockRequest, Option<BlockError>);

/// The error in a device's answer.
pub open spec fn failure_of(answer: Result<(), BlockError>) -> Option<BlockError> {
    match answer {
        Ok(_) => None,
        Err(e) => Some(e),
    }
}

/// The requests `wanted`, of which all but the last were served, and the last
/// met with `failure`.
pub open spec fn answered(wanted: Seq<BlockRequest>, failure: Option<BlockError>) -> Seq<Exchange> {
    Seq::new(
        wanted.len(),
        |k: int|
            (
                wanted[k],
                if k == wanted.len() - 1 {
                    failure
                } else {
                    None
                },
            ),
    )
}

/// Whether the exchanges `after` are those of `before`, and then the requests
/// `wanted` in their order: all of them, each served, or, if there is a
/// `failure`, as many as were made up to the first that was not served, which
/// met with it.
pub open spec fn asked(
    before: Seq<Exchange>,
    after: Seq<Exchange>,
    wanted: Seq<BlockRequest>,
    failure: Option<BlockError>,
) -> bool {
    let made = after.len() - before.len();
    &&& 0 <= made <= wanted.len()
    &&& after == before + answered(wanted.take(made), failure)
    &&& if failure is Some {
        made > 0
    } else {
        made == wanted.len()
    }
}

/// Asking for nothing leaves the record as it is.
pub(crate) proof fn lemma_asked_nothing(log: Seq<Exchange>)
    ensures
        asked(log, log, Seq::empty(), None),
{
    let none = Seq::<BlockRequest>::empty();
    assert(log =~= log + answered(none.take(0), None));
}

/// One request more, once the first `i` were served.
pub(crate) proof fn lemma_asked_next(
    before: Seq<Exchange>,
    after: Seq<Exchange>,
    wanted: Seq<BlockRequest>,
    i: int,
    failure: Option<BlockError>,
)
    requires
        0 <= i < wanted.len(),
        asked(before, after, wanted.take(i), None),
    ensures
        failure is None ==> asked(
            before,
            after.push((wanted[i], failure)),
            wanted.take(i + 1),
            failure,
        ),
        failure is Some ==> asked(before, after.push((wanted[i], failure)), wanted, failure),
{
    let next = after.push((wanted[i], failure));
    assert(wanted.take(i).take(i) =~= wanted.take(i));
    assert(wanted.take(i + 1).take(i + 1) =~= wanted.take(i + 1));
    assert(next =~= before + answered(wanted.take(i + 1), failure));
}

/// What is asked for after everything else was answered.
pub(crate) proof fn lemma_asked_then(
    a: Seq<Exchange>,
    b: Seq<Exchange>,
    c: Seq<Exchange>,
    first: Seq<BlockRequest>,
    second: Seq<BlockRequest>,
    failure: Option<BlockError>,
)
    requires
        asked(a, b, first, None),
        asked(b, c, second, failure),
    ensures
        asked(a, c, first + second, failure),
{
    assert(first.take(first.len() as int) =~= first);
    let n = c.len() - b.len();
    assert((first + second).take(first.len() + n) =~= first + second.take(n));
    let all = a + answered((first + second).take(first.len() + n), failure);
    assert forall|k: int| 0 <= k < c.len() implies c[k] == all[k] by {
        if k < a.len() {
            assert(c[k] == b[k]);
        } else if k < b.len() {
            assert(c[k] == b[k]);
        }
    }
    assert(c =~= all);
}

/// A request that failed ends whatever was to follow.
pub(crate) proof fn lemma_asked_in_vain(
    a: Seq<Exchange>,
    b: Seq<Exchange>,
    first: Seq<BlockRequest>,
    second: Seq<BlockRequest>,
    failure: Option<BlockError>,
)
    requires
        failure is Some,
        asked(a, b, first, failure),
    ensures
        asked(a, b, first + second, failure),
{
    let n = b.len() - a.len();
    assert((first + second).take(n) =~= first.take(n));
}

/// The first request that was not served decides: whether some request failed,
/// and with which error, is what the record says.
pub proof fn law_record_tells_failure(
    before: Seq<Exchange>,
    after: Seq<Exchange>,
    wanted: Seq<BlockRequest>,
    failure: Option<BlockError>,
)
    requires
        asked(before, after, wanted, failure),
    ensures
        failure is None <==> forall|k: int|
            before.len() <= k < after.len() ==> (#[trigger] after[k]).1 is None,
        failure is Some ==> after.last().1 == failure,
{
    if failure is Some {
        assert(after[after.len() - 1].1 == failure);
    }
}

/// A read-only block device.
pub trait BlockDevice: Driver {
    /// Everything the device holds. What that is, is up to the device: a
    /// device need not say it.
    closed spec fn image(&self) -> Seq<u8> {
        vstd::pervasive::arbitrary()
    }

    /// Every request that the device was handed so far, and how it answered.
    /// A device that is itself verified keeps a record of them.
    closed spec fn log(&self) -> Seq<Exchange> {
        vstd::pervasive::arbitrary()
    }

    /// Total number of sectors the device holds.
    fn capacity_sectors(&self) -> (r: u64)
        ensures
            self.image().len() == r * SECTOR_SIZE,
    ;

    /// Reads whole sectors starting at `lba` into `buf`. On an error, what
    /// `buf` holds is not specified. A device may fail any request, but only
    /// one past its capacity as out of range; and so it does a single sector
    /// past its capacity, whatever else it limits.
    fn read_sectors(&mut self, lba: u64, buf: &mut [u8]) -> (r: Result<(), BlockError>)
        ensures
            final(self).image() == old(self).image(),
            final(self).log() == old(self).log().push(((lba, old(buf)@.len()), failure_of(r))),
            final(buf)@.len() == old(buf)@.len(),
            r is Ok ==> {
                &&& whole_sectors(old(buf)@.len())
                &&& lba * SECTOR_SIZE + old(buf)@.len() <= old(self).image().len()
                &&& final(buf)@ == sectors(
                    old(self).image(),
                    lba as int,
                    old(buf)@.len() as int,
                )
            },
            r == Err::<(), BlockError>(BlockError::BufferNotSectorAligned) <==> !whole_sectors(
                old(buf)@.len(),
            ),
            r == Err::<(), BlockError>(BlockError::OutOfRange) ==> !in_capacity(
                lba,
                old(buf)@.len(),
                old(self).image().len() as int / SECTOR_SIZE as int,
            ),
            old(buf)@.len() == SECTOR_SIZE && !in_capacity(
                lba,
                SECTOR_SIZE as nat,
                old(self).image().len() as int / SECTOR_SIZE as int,
            ) ==> r == Err::<(), BlockError>(BlockError::OutOfRange),
    ;
}

} // verus!
