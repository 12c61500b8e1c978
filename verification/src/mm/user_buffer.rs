//! A user buffer as the kernel sees it.
//!
//! A task addresses its memory through its own page table, so a buffer that
//! is contiguous for the task reaches the kernel as a sequence of byte
//! ranges, each contiguous in physical memory and usually cut at a page
//! edge, in increasing address order. A record that straddles such an edge
//! lies in more than one range; whoever moves a record across must walk the
//! whole sequence.
use vstd::prelude::*;

verus! {

/// Why a range of user addresses has no translation.
#[derive(Debug, Clone, Copy, PartialEq, Eq, Structural)]
pub enum Fault {
    /// Some byte of the range is not mapped in the task's page table.
    Unmapped,
    /// Some byte of the range is mapped without the permission that the
    /// access needs.
    Denied,
}

/// The bytes of `ranges`, one range after the other.
pub open spec fn contents(ranges: Seq<Vec<u8>>) -> Seq<u8>
    decreases ranges.len(),
{
    if ranges.len() == 0 {
        Seq::empty()
    } else {
        contents(ranges.drop_last()) + ranges.last()@
    }
}

/// Whether `a` and `b` are cut in the same places: as many ranges, each as
/// long as its counterpart.
pub open spec fn same_shape(a: Seq<Vec<u8>>, b: Seq<Vec<u8>>) -> bool {
    &&& a.len() == b.len()
    &&& forall|i: int| 0 <= i < a.len() ==> (#[trigger] a[i]).len() == b[i].len()
}

/// The first `n + 1` ranges hold the bytes of the first `n`, then those of
/// range `n`.
proof fn contents_of_next(ranges: Seq<Vec<u8>>, n: int)
    requires
        0 <= n < ranges.len(),
    ensures
        contents(ranges.take(n + 1)) == contents(ranges.take(n)) + ranges[n]@,
{
    assert(ranges.take(n + 1).drop_last() =~= ranges.take(n));
}

/// A prefix of the ranges holds no more bytes than all of them.
proof fn contents_of_prefix(ranges: Seq<Vec<u8>>, n: int)
    requires
        0 <= n <= ranges.len(),
    ensures
        contents(ranges.take(n)).len() <= contents(ranges).len(),
    decreases ranges.len() - n,
{
    if n == ranges.len() {
        assert(ranges.take(n) =~= ranges);
    } else {
        contents_of_next(ranges, n);
        contents_of_prefix(ranges, n + 1);
    }
}

/// Ranges cut in the same places hold as many bytes.
proof fn contents_of_same_shape(a: Seq<Vec<u8>>, b: Seq<Vec<u8>>)
    requires
        same_shape(a, b),
    ensures
        contents(a).len() == contents(b).len(),
    decreases a.len(),
{
    if a.len() > 0 {
        assert(a.last().len() == b.last().len());
        contents_of_same_shape(a.drop_last(), b.drop_last());
    }
}

/// The number of bytes in all of `ranges`, or `None` where it exceeds
/// `usize::MAX`.
pub fn total_len(ranges: &Vec<Vec<u8>>) -> (total: Option<usize>)
    ensures
        match total {
            Some(n) => n == contents(ranges@).len(),
            None => contents(ranges@).len() > usize::MAX,
        },
{
    let mut sum: usize = 0;
    let mut i: usize = 0;
    while i < ranges.len()
        invariant
            i <= ranges.len(),
            sum == contents(ranges@.take(i as int)).len(),
        decreases ranges.len() - i,
    {
        proof {
            contents_of_next(ranges@, i as int);
        }
        match sum.checked_add(ranges[i].len()) {
            Some(next) => {
                sum = next;
            },
            None => {
                proof {
                    contents_of_prefix(ranges@, i + 1);
                }
                return None;
            },
        }
        i += 1;
    }
    assert(ranges@.take(i as int) =~= ranges@);
    Some(sum)
}

/// Writes `bytes` across `ranges`, filling each range in turn and cutting
/// the record wherever one range ends and the next begins.
///
/// The ranges must hold exactly as many bytes as the record has; otherwise
/// nothing is written and the result is `false`.
pub fn write_across(ranges: &mut Vec<Vec<u8>>, bytes: &[u8]) -> (done: bool)
    ensures
        done <==> contents(old(ranges)@).len() == bytes@.len(),
        done ==> contents(final(ranges)@) == bytes@,
        done ==> same_shape(old(ranges)@, final(ranges)@),
        !done ==> *final(ranges) == *old(ranges),
{
    let size = bytes.len();
    match total_len(ranges) {
        Some(n) => {
            if n != size {
                return false;
            }
        },
        None => {
            return false;
        },
    }
    let ghost before = ranges@;
    let mut written: usize = 0;
    let mut i: usize = 0;
    while i < ranges.len()
        invariant
            i <= ranges.len(),
            same_shape(before, ranges@),
            contents(before).len() == size == bytes@.len(),
            written == contents(ranges@.take(i as int)).len(),
            contents(ranges@.take(i as int)) == bytes@.take(written as int),
        decreases ranges.len() - i,
    {
        let n = ranges[i].len();
        let ghost filled = ranges@.take(i as int);
        proof {
            contents_of_next(ranges@, i as int);
            contents_of_prefix(ranges@, i + 1);
            contents_of_same_shape(before, ranges@);
        }
        let mut piece: Vec<u8> = Vec::with_capacity(n);
        let mut j: usize = 0;
        while j < n
            invariant
                j <= n,
                written + n <= size == bytes@.len(),
                piece@ == bytes@.subrange(written as int, written + j),
            decreases n - j,
        {
            piece.push(bytes[written + j]);
            j += 1;
        }
        ranges.set(i, piece);
        proof {
            contents_of_next(ranges@, i as int);
            assert(ranges@.take(i as int) =~= filled);
            assert(bytes@.take(written as int) + bytes@.subrange(written as int, written + n)
                =~= bytes@.take(written + n));
        }
        written += n;
        i += 1;
    }
    proof {
        contents_of_same_shape(before, ranges@);
        assert(ranges@.take(i as int) =~= ranges@);
        assert(bytes@.take(written as int) =~= bytes@);
    }
    true
}

/// Reads all of `ranges`, one range after the other, into one record.
pub fn read_across(ranges: &Vec<Vec<u8>>) -> (bytes: Vec<u8>)
    ensures
        bytes@ == contents(ranges@),
{
    let mut bytes: Vec<u8> = Vec::new();
    let mut i: usize = 0;
    while i < ranges.len()
        invariant
            i <= ranges.len(),
            bytes@ == contents(ranges@.take(i as int)),
        decreases ranges.len() - i,
    {
        let range = &ranges[i];
        let mut j: usize = 0;
        while j < range.len()
            invariant
                j <= range.len(),
                bytes@ == contents(ranges@.take(i as int)) + range@.take(j as int),
            decreases range.len() - j,
        {
            bytes.push(range[j]);
            j += 1;
        }
        proof {
            contents_of_next(ranges@, i as int);
            assert(range@.take(j as int) =~= range@);
        }
        i += 1;
    }
    assert(ranges@.take(i as int) =~= ranges@);
    bytes
}

} // verus!
