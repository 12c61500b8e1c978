//! The process-control calls: exit, yield, time, task information, and the
//! creation, removal and resizing of memory regions.
//!
//! A handler here touches neither the scheduler nor the page table. It
//! checks its arguments and returns an [`Action`]: what the kernel is to do
//! for the calling task. The kernel carries the action out, reports what
//! came of it as a [`Reply`], and [`finish`] turns that into the value the
//! task receives.
use crate::mm::page::{page_offset, MapPermission, PAGE_SIZE};
use crate::mm::user_buffer::{contents, Fault};
use crate::mm::word::{le_bytes, le_value, word_from_bytes, word_size, word_to_bytes};
use crate::mm::word::{le_bytes_len, le_value_of_le_bytes, word_fits};
use vstd::prelude::*;
use vstd::slice::slice_subrange;

verus! {

/// The value that answers a call that was refused or has failed, whatever
/// the reason.
pub const FAILED: isize = -1;

/// The number of microseconds in a second.
pub const MICROS_PER_SEC: usize = 1_000_000;

/// A point in time: whole seconds, and the microseconds left over.
#[derive(Debug, Clone, Copy, PartialEq, Eq, Structural)]
pub struct TimeVal {
    pub sec: usize,
    pub usec: usize,
}

impl TimeVal {
    /// The time `us` microseconds after boot.
    pub open spec fn of_micros(us: usize) -> TimeVal {
        TimeVal { sec: us / MICROS_PER_SEC, usec: us % MICROS_PER_SEC }
    }

    /// The record as a task reads it: the seconds as one machine word, then
    /// the microseconds as another.
    pub open spec fn bytes(&self) -> Seq<u8> {
        le_bytes(self.sec as nat, word_size() as nat) + le_bytes(
            self.usec as nat,
            word_size() as nat,
        )
    }

    /// The time that a record of `bytes` holds, if `bytes` is one record.
    pub open spec fn parse(bytes: Seq<u8>) -> Option<TimeVal> {
        if bytes.len() == 2 * word_size() {
            Some(
                TimeVal {
                    sec: le_value(bytes.take(word_size() as int)) as usize,
                    usec: le_value(bytes.skip(word_size() as int)) as usize,
                },
            )
        } else {
            None
        }
    }

    /// The number of bytes in a record.
    pub fn size() -> (n: usize)
        ensures
            n == 2 * word_size(),
    {
        2 * word_size()
    }

    /// Splits a reading of the microsecond clock into seconds and
    /// microseconds.
    pub fn from_micros(us: usize) -> (time: TimeVal)
        ensures
            time == Self::of_micros(us),
            time.sec * MICROS_PER_SEC + time.usec == us,
            time.usec < MICROS_PER_SEC,
    {
        TimeVal { sec: us / MICROS_PER_SEC, usec: us % MICROS_PER_SEC }
    }

    /// The record as a task reads it.
    pub fn to_bytes(&self) -> (bytes: Vec<u8>)
        ensures
            bytes@ == self.bytes(),
            bytes@.len() == 2 * word_size(),
    {
        let mut bytes = word_to_bytes(self.sec);
        let mut usec = word_to_bytes(self.usec);
        proof {
            le_bytes_len(self.sec as nat, word_size() as nat);
            le_bytes_len(self.usec as nat, word_size() as nat);
        }
        bytes.append(&mut usec);
        bytes
    }

    /// Reads a record back; `None` unless `bytes` has the size of one.
    pub fn from_bytes(bytes: &[u8]) -> (time: Option<TimeVal>)
        ensures
            time == Self::parse(bytes@),
    {
        let n = word_size();
        if bytes.len() != 2 * n {
            return None;
        }
        let sec = word_from_bytes(slice_subrange(bytes, 0, n));
        let usec = word_from_bytes(slice_subrange(bytes, n, 2 * n));
        proof {
            assert(bytes@.subrange(0, n as int) =~= bytes@.take(n as int));
            assert(bytes@.subrange(n as int, 2 * n) =~= bytes@.skip(n as int));
        }
        match (sec, usec) {
            (Some(sec), Some(usec)) => Some(TimeVal { sec, usec }),
            _ => None,
        }
    }
}

/// A time is read back unchanged from its record.
pub proof fn record_reads_back(time: TimeVal)
    ensures
        TimeVal::parse(time.bytes()) == Some(time),
{
    let n = word_size() as nat;
    let sec = le_bytes(time.sec as nat, n);
    let usec = le_bytes(time.usec as nat, n);
    le_bytes_len(time.sec as nat, n);
    le_bytes_len(time.usec as nat, n);
    word_fits();
    le_value_of_le_bytes(time.sec as nat, n);
    le_value_of_le_bytes(time.usec as nat, n);
    assert(time.bytes().take(n as int) =~= sec);
    assert(time.bytes().skip(n as int) =~= usec);
}

/// Wherever the target of a time query is cut into ranges, a task that reads
/// the ranges in order, once the record has been written across them, finds
/// the time of the query.
pub proof fn time_reads_back_across(now_us: usize, written: Seq<Vec<u8>>)
    requires
        contents(written) == TimeVal::of_micros(now_us).bytes(),
    ensures
        TimeVal::parse(contents(written)) == Some(TimeVal::of_micros(now_us)),
{
    record_reads_back(TimeVal::of_micros(now_us));
}

/// What a handler asks the kernel to do for the calling task.
#[derive(Debug, PartialEq, Eq)]
pub enum Action {
    /// Nothing: the call is answered with this value at once.
    Return(isize),
    /// Record the exit code against the task, take the task out of the ready
    /// set and run the next one. The call is never answered.
    Exit { code: i32 },
    /// Leave the task ready, and run whichever task is next in the stride
    /// order.
    Yield,
    /// Map the pages of `[start, end)` into the task's address space with
    /// permissions `perm`.
    InsertRegion { start: usize, end: usize, perm: MapPermission },
    /// Remove the mapping that covers exactly `[start, end)`.
    RemoveRegion { start: usize, end: usize },
    /// Move the task's program break by `delta` bytes.
    AdjustBreak { delta: i32 },
    /// Translate the `bytes.len()` user addresses from `addr` on, and write
    /// `bytes` across all the ranges of the translation. On a fault nothing
    /// is written.
    CopyOut { addr: usize, bytes: Vec<u8> },
}

/// What came of an [`Action`].
#[derive(Debug, Clone, Copy, PartialEq, Eq, Structural)]
pub enum Reply {
    /// The task gave up the processor and has been dispatched again.
    Resumed,
    /// The result of inserting or removing a region: 0, or -1 where the
    /// address space refused (an overlap, no such mapping, no memory left).
    Status(isize),
    /// The program break before the adjustment, or `None` where the
    /// adjustment was refused.
    Break(Option<usize>),
    /// Every byte was written.
    Copied,
    /// The target has no translation; nothing was written.
    Faulted(Fault),
}

/// The value that the task receives for `action` after `reply`, where
/// `reply` is a reply to `action` and the call is answered at all.
pub open spec fn answer(action: Action, reply: Reply) -> Option<isize> {
    match (action, reply) {
        (Action::Return(code), _) => Some(code),
        (Action::Yield, Reply::Resumed) => Some(0),
        (Action::InsertRegion { .. }, Reply::Status(status)) => Some(status),
        (Action::RemoveRegion { .. }, Reply::Status(status)) => Some(status),
        (Action::AdjustBreak { .. }, Reply::Break(Some(old_break))) => Some(old_break as isize),
        (Action::AdjustBreak { .. }, Reply::Break(None)) => Some(FAILED),
        (Action::CopyOut { .. }, Reply::Copied) => Some(0),
        (Action::CopyOut { .. }, Reply::Faulted(_)) => Some(FAILED),
        _ => None,
    }
}

/// Whether `start` and `prot` pass the checks of `sys_mmap`.
pub open spec fn mmap_accepts(start: usize, prot: usize) -> bool {
    start % PAGE_SIZE == 0 && MapPermission::valid_prot(prot)
}

/// Ends the calling task with `exit_code`.
pub fn sys_exit(exit_code: i32) -> (action: Action)
    ensures
        action == (Action::Exit { code: exit_code }),
{
    Action::Exit { code: exit_code }
}

/// Gives up the processor; the task stays ready.
pub fn sys_yield() -> (action: Action)
    ensures
        action == Action::Yield,
{
    Action::Yield
}

/// Writes the time `now_us` microseconds after boot to the user address
/// `ts`, as seconds and microseconds. The second argument, a time zone, is
/// ignored.
pub fn sys_get_time(ts: usize, _tz: usize, now_us: usize) -> (action: Action)
    ensures
        action matches Action::CopyOut { addr, bytes } && addr == ts && bytes@
            == TimeVal::of_micros(now_us).bytes(),
{
    Action::CopyOut { addr: ts, bytes: TimeVal::from_micros(now_us).to_bytes() }
}

/// Writes the task's diagnostic record `info`, byte for byte, to the user
/// address `ti`.
pub fn sys_task_info(ti: usize, info: Vec<u8>) -> (action: Action)
    ensures
        action matches Action::CopyOut { addr, bytes } && addr == ti && bytes@ == info@,
{
    Action::CopyOut { addr: ti, bytes: info }
}

/// Maps `len` bytes from `start` on with the protection `prot` (bit 0 read,
/// bit 1 write, bit 2 execute).
///
/// Refused with -1 unless `start` is page-aligned and `prot` has no bit set
/// outside the low three and at least one of them.
pub fn sys_mmap(start: usize, len: usize, prot: usize) -> (action: Action)
    requires
        start + len <= usize::MAX,
    ensures
        !mmap_accepts(start, prot) ==> action == Action::Return(FAILED),
        mmap_accepts(start, prot) ==> (action matches Action::InsertRegion {
            start: from,
            end,
            perm,
        } && from == start && end == start + len && perm.bits() == MapPermission::user_bits(
            prot,
        )),
{
    if page_offset(start) != 0 {
        return Action::Return(FAILED);
    }
    match MapPermission::from_prot(prot) {
        Some(perm) => Action::InsertRegion { start, end: start + len, perm },
        None => Action::Return(FAILED),
    }
}

/// Unmaps the `len` bytes from `start` on.
///
/// Refused with -1 unless `start` is page-aligned.
pub fn sys_munmap(start: usize, len: usize) -> (action: Action)
    requires
        start + len <= usize::MAX,
    ensures
        action == if start % PAGE_SIZE == 0 {
            Action::RemoveRegion { start, end: (start + len) as usize }
        } else {
            Action::Return(FAILED)
        },
{
    if page_offset(start) == 0 {
        Action::RemoveRegion { start, end: start + len }
    } else {
        Action::Return(FAILED)
    }
}

/// Grows the data segment by `size` bytes, or shrinks it where `size` is
/// negative.
pub fn sys_sbrk(size: i32) -> (action: Action)
    ensures
        action == (Action::AdjustBreak { delta: size }),
{
    Action::AdjustBreak { delta: size }
}

/// The value that the task receives for `action`, once the kernel has
/// carried it out and reports `reply`.
///
/// `None` where `reply` is no reply to `action`, and for an exit, which is
/// never answered.
pub fn finish(action: &Action, reply: Reply) -> (result: Option<isize>)
    ensures
        result == answer(*action, reply),
{
    match action {
        Action::Return(code) => Some(*code),
        Action::Exit { .. } => None,
        Action::Yield => match reply {
            Reply::Resumed => Some(0),
            _ => None,
        },
        Action::InsertRegion { .. } | Action::RemoveRegion { .. } => match reply {
            Reply::Status(status) => Some(status),
            _ => None,
        },
        Action::AdjustBreak { .. } => match reply {
            Reply::Break(Some(old_break)) => Some(old_break as isize),
            Reply::Break(None) => Some(FAILED),
            _ => None,
        },
        Action::CopyOut { .. } => match reply {
            Reply::Copied => Some(0),
            Reply::Faulted(_) => Some(FAILED),
            _ => None,
        },
    }
}

} // verus!
