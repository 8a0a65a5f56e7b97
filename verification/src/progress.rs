//! Loader bookkeeping: when the progress callback is due and what it is
//! told, and the per-element scratch records kept by element id.
use vstd::prelude::*;

verus! {

/// The work units between two progress reports.
pub const PROGRESS_INTERVAL: isize = 1024;

/// The callback's answer that lets the load go on.
pub const PROGRESS_CONTINUE: u32 = 0x100;

/// The callback's answer that stops the load.
pub const PROGRESS_CANCEL: u32 = 0x200;

/// What a progress step decides: the timer after it and whether the
/// callback is due.
#[derive(Clone, Copy, Debug, PartialEq, Eq, Structural)]
pub struct ProgressTick {
    pub timer: isize,
    pub report: bool,
}

/// Counts `work_units` against the timer: without a callback nothing
/// happens; otherwise the timer drops by the work done (wrapping) and the
/// callback is due once it is no longer positive.
pub fn progress_tick(has_callback: bool, timer: isize, work_units: usize) -> (r: ProgressTick)
    ensures
        !has_callback ==> r == (ProgressTick { timer, report: false }),
        has_callback ==> r.timer == vstd::wrapping::isize_specs::wrapping_sub(timer, work_units as isize)
            && r.report == (r.timer <= 0),
{
    if !has_callback {
        return ProgressTick { timer, report: false };
    }
    let left = timer.wrapping_sub(work_units as isize);
    ProgressTick { timer: left, report: left <= 0 }
}

/// What the callback is told: the bytes read so far and the expected
/// total, never less than what was read.
#[derive(Clone, Copy, Debug, PartialEq, Eq, Structural)]
pub struct Progress {
    pub bytes_read: u64,
    pub bytes_total: u64,
}

/// A progress report: what the callback is told, the timer restarted and
/// the bytes read recorded as the latest progress.
#[derive(Clone, Copy, Debug, PartialEq, Eq, Structural)]
pub struct ProgressReport {
    pub progress: Progress,
    pub timer: isize,
    pub latest_bytes: u64,
}

/// The offset in the file of the reader's position: the offset of the
/// buffered data plus how far into it the reader is (wrapping).
pub fn get_read_offset(data_offset: u64, position: usize) -> (r: u64)
    ensures
        r == vstd::wrapping::u64_specs::wrapping_add(data_offset, position as u64),
{
    data_offset.wrapping_add(position as u64)
}

/// Prepares a report at read offset `read_offset` of a file expected to be
/// `bytes_total` long.
pub fn report_progress(read_offset: u64, bytes_total: u64) -> (r: ProgressReport)
    ensures
        r.progress.bytes_read == read_offset,
        r.progress.bytes_total == if bytes_total < read_offset { read_offset } else { bytes_total },
        r.timer == PROGRESS_INTERVAL,
        r.latest_bytes == read_offset,
{
    let total = if bytes_total < read_offset {
        read_offset
    } else {
        bytes_total
    };
    ProgressReport {
        progress: Progress { bytes_read: read_offset, bytes_total: total },
        timer: PROGRESS_INTERVAL,
        latest_bytes: read_offset,
    }
}

/// Why the load stopped on a progress report.
#[derive(Clone, Copy, Debug, PartialEq, Eq, Structural)]
pub enum ProgressError {
    /// The callback asked to stop.
    Cancelled,
}

impl ProgressError {
    /// The error's description.
    pub fn description(&self) -> (r: Vec<u8>)
        ensures
            r@ == seq![0x43u8, 0x61u8, 0x6eu8, 0x63u8, 0x65u8, 0x6cu8, 0x6cu8, 0x65u8, 0x64u8],
    {
        let r = vec![0x43u8, 0x61u8, 0x6eu8, 0x63u8, 0x65u8, 0x6cu8, 0x6cu8, 0x65u8, 0x64u8];
        assert(r@ =~= seq![0x43u8, 0x61u8, 0x6eu8, 0x63u8, 0x65u8, 0x6cu8, 0x6cu8, 0x65u8, 0x64u8]);
        r
    }
}

/// The load goes on after the callback answered `result` (which is one
/// of the two answers), unless it asked to stop.
pub fn progress_outcome(result: u32) -> (r: Result<(), ProgressError>)
    requires
        result == PROGRESS_CONTINUE || result == PROGRESS_CANCEL,
    ensures
        r is Err <==> result == PROGRESS_CANCEL,
        r is Err ==> r == Err::<(), ProgressError>(ProgressError::Cancelled),
{
    if result == PROGRESS_CANCEL {
        Err(ProgressError::Cancelled)
    } else {
        Ok(())
    }
}

/// Scratch records kept per element id: `slots[id]` names the record of
/// element `id`, if it has one, and `sizes[h]` is the size of record `h`
/// (records are zero-filled when made).
#[derive(Clone, Debug)]
pub struct ElementExtras {
    pub slots: Vec<Option<usize>>,
    pub sizes: Vec<usize>,
}

/// The record of element `id`, if it has one.
pub open spec fn spec_get_extra(e: ElementExtras, id: u32) -> Option<usize> {
    if id < e.slots@.len() {
        e.slots@[id as int]
    } else {
        None
    }
}

/// Whether `b` and `r` are what asking for a record of `size` bytes for
/// element `id` makes of `a`: the existing record if the element has one
/// (nothing changes); else a new record, the next one, and the slots grown
/// with empty ones to hold `id`.
pub open spec fn spec_push_extra(a: ElementExtras, id: u32, size: usize, b: ElementExtras, r: usize) -> bool {
    match spec_get_extra(a, id) {
        Some(h) => r == h && b == a,
        None => {
            &&& r == a.sizes@.len()
            &&& b.sizes@ == a.sizes@.push(size)
            &&& b.slots@.len() == if id < a.slots@.len() { a.slots@.len() as int } else { id + 1 }
            &&& b.slots@[id as int] == Some(r)
            &&& forall|i: int| 0 <= i < b.slots@.len() && i != id ==> #[trigger] b.slots@[i] == if i < a.slots@.len() {
                a.slots@[i]
            } else {
                None
            }
        },
    }
}

impl ElementExtras {
    /// No element has a record.
    pub fn new() -> (r: ElementExtras)
        ensures
            r.slots@.len() == 0,
            r.sizes@.len() == 0,
    {
        ElementExtras { slots: Vec::new(), sizes: Vec::new() }
    }

    /// The record of element `id` (see `spec_get_extra`).
    pub fn get_element_extra(&self, id: u32) -> (r: Option<usize>)
        ensures
            r == spec_get_extra(*self, id),
    {
        if (id as usize) < self.slots.len() {
            self.slots[id as usize]
        } else {
            None
        }
    }

    /// The record of element `id`, made with `size` bytes if it has none
    /// (see `spec_push_extra`); the largest id has no room after it.
    pub fn push_element_extra_size(&mut self, id: u32, size: usize) -> (r: usize)
        requires
            id < u32::MAX,
        ensures
            spec_push_extra(*old(self), id, size, *final(self), r),
    {
        match self.get_element_extra(id) {
            Some(h) => {
                return h;
            },
            None => {},
        }
        let ghost a = *self;
        let target: usize = (id + 1) as usize;
        while self.slots.len() < target
            invariant
                target == id + 1,
                self.sizes == a.sizes,
                a.slots@.len() <= self.slots@.len() <= if id < a.slots@.len() { a.slots@.len() as int } else { target as int },
                forall|i: int| 0 <= i < self.slots@.len() ==> #[trigger] self.slots@[i] == if i < a.slots@.len() {
                    a.slots@[i]
                } else {
                    None
                },
            decreases target - self.slots@.len(),
        {
            self.slots.push(None);
        }
        let h = self.sizes.len();
        self.sizes.push(size);
        self.slots.set(id as usize, Some(h));
        h
    }
}

/// Asking twice for the record of an element gives the same record and
/// changes nothing the second time, and the record asked for is the one
/// the element then has.
pub proof fn law_element_extra_once(a: ElementExtras, id: u32, s1: usize, b: ElementExtras, r1: usize, s2: usize, c: ElementExtras, r2: usize)
    requires
        spec_push_extra(a, id, s1, b, r1),
        spec_push_extra(b, id, s2, c, r2),
    ensures
        spec_get_extra(b, id) == Some(r1),
        r2 == r1,
        c == b,
{
}

} // verus!
