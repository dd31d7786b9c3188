//! Completion records and the batch through which they are read and
//! returned to the kernel.

use vstd::prelude::*;
use crate::error::{errno_from_status, errno_of, RingError};
use crate::ring::{IoUring, RingState, IORING_FEAT_EXT_ARG};

verus! {

/// Tag of the completions that the wait call posts for its own timeout.
pub const LIBURING_UDATA_TIMEOUT: u64 = 0xffff_ffff_ffff_ffff;

/// One completion record.
#[derive(Debug, Clone, Copy, PartialEq, Eq, Structural)]
pub struct CqEntry {
    /// Correlation tag of the submission that this record completes.
    pub user_data: u64,
    /// Result: a count or descriptor, or a negated error number.
    pub res: i32,
    /// Flags that qualify the result.
    pub flags: u32,
}

impl CqEntry {
    /// A record with every field zero, as in freshly mapped ring memory.
    pub open spec fn zeroed() -> CqEntry {
        CqEntry { user_data: 0, res: 0, flags: 0 }
    }

    /// Makes a zeroed record.
    pub fn new() -> (c: CqEntry)
        ensures
            c == CqEntry::zeroed(),
    {
        CqEntry { user_data: 0, res: 0, flags: 0 }
    }
}

/// The correlation tag of a completion record.
pub fn get_cqe_data(cqe: &CqEntry) -> (data: u64)
    ensures
        data == cqe.user_data,
{
    cqe.user_data
}

/// Returns `nr` completions to the kernel.
fn io_uring_cq_advance(ring: &mut IoUring, nr: u32)
    requires
        old(ring)@.wf(),
        nr <= old(ring)@.cq_ready(),
    ensures
        final(ring)@ == old(ring)@.consume(nr),
        final(ring)@.wf(),
    opens_invariants none
    no_unwind
{
    if nr > 0 {
        ring.cq_advance(nr);
    }
}

/// Returns one completion to the kernel.
fn io_uring_cqe_seen(ring: &mut IoUring)
    requires
        old(ring)@.wf(),
        1 <= old(ring)@.cq_ready(),
    ensures
        final(ring)@ == old(ring)@.consume(1),
        final(ring)@.wf(),
    opens_invariants none
    no_unwind
{
    io_uring_cq_advance(ring, 1)
}

/// A batch of completions: the records `begin..end`, counted from the head
/// of the completion queue at the time the batch was made, together with the
/// exclusive right to return them to the kernel.
///
/// A batch that goes out of scope returns whatever it still holds.
pub struct CqeJar<'a> {
    /// The ring the records live in. Always present in a batch handed out.
    pub ring: Option<&'a mut IoUring>,
    /// Index of the first record not yet returned.
    pub begin: isize,
    /// Index after the last record.
    pub end: isize,
}

impl<'a> CqeJar<'a> {
    /// The ring as the batch sees it.
    pub open spec fn ring_state(&self) -> RingState {
        (*self.ring.unwrap())@
    }

    /// The batch is one the library hands out: its records are pending
    /// completions of its ring.
    pub open spec fn wf(&self) -> bool {
        &&& self.ring is Some
        &&& self.ring_state().wf()
        &&& 0 <= self.begin <= self.end
        &&& self.end - self.begin <= self.ring_state().cq_ready()
    }

    /// Number of records not yet returned.
    pub open spec fn spec_available(&self) -> int {
        self.end - self.begin
    }

    /// The record at index `idx`, for `begin <= idx < end`.
    pub open spec fn record(&self, idx: int) -> CqEntry {
        self.ring_state().completion_at((idx - self.begin) as u32)
    }

    /// Makes the batch of the first `available` pending completions.
    fn init(ring: &'a mut IoUring, available: u32) -> (jar: CqeJar<'a>)
        requires
            available <= old(ring)@.cq_ready(),
            old(ring)@.wf(),
        ensures
            jar.wf(),
            jar.begin == 0,
            jar.end == available,
            jar.ring_state() == old(ring)@,
            *final(ring) == *final(jar.ring.unwrap()),
    {
        CqeJar { ring: Some(ring), begin: 0, end: available as isize }
    }

    /// The record at `idx`, or `None` when `idx` lies outside `begin..end`.
    pub fn peek(&self, idx: isize) -> (c: Option<&CqEntry>)
        requires
            self.wf(),
        ensures
            c is Some <==> self.begin <= idx < self.end,
            c is Some ==> *c.unwrap() == self.record(idx as int),
    {
        if idx >= self.begin && idx < self.end {
            match &self.ring {
                Some(ring) => Some(ring.cqe_at((idx - self.begin) as u32)),
                None => None,
            }
        } else {
            None
        }
    }

    /// The record at `idx`, for writing, or `None` when `idx` lies outside
    /// `begin..end`. It is the record that [`CqeJar::peek`] reads at `idx`.
    pub fn peek_mut(&mut self, idx: isize) -> (c: Option<&mut CqEntry>)
        requires
            old(self).wf(),
        ensures
            c is Some <==> old(self).begin <= idx < old(self).end,
            c is Some ==> *c.unwrap() == old(self).record(idx as int),
            c is Some ==> final(self).ring_state() == old(self).ring_state().with_completion(
                (idx - old(self).begin) as u32,
                *final(c.unwrap()),
            ),
            c is None ==> final(self).ring_state() == old(self).ring_state(),
            final(self).wf(),
            final(self).begin == old(self).begin,
            final(self).end == old(self).end,
            *final(final(self).ring.unwrap()) == *final(old(self).ring.unwrap()),
    {
        if idx >= self.begin && idx < self.end {
            let k: u32 = (idx - self.begin) as u32;
            match &mut self.ring {
                Some(ring) => Some(ring.cqe_at_mut(k)),
                None => None,
            }
        } else {
            None
        }
    }

    /// Returns the first record to the kernel; its content must not be used
    /// afterwards. Does nothing on an empty batch.
    pub fn consume_one(&mut self)
        requires
            old(self).wf(),
        ensures
            final(self).wf(),
            old(self).spec_available() > 0 ==> {
                &&& final(self).ring_state() == old(self).ring_state().consume(1)
                &&& final(self).begin == old(self).begin + 1
            },
            old(self).spec_available() == 0 ==> {
                &&& final(self).ring_state() == old(self).ring_state()
                &&& final(self).begin == old(self).begin
            },
            final(self).end == old(self).end,
            forall|idx: int|
                final(self).begin <= idx < final(self).end ==> #[trigger] final(self).record(idx)
                    == old(self).record(idx),
            *final(final(self).ring.unwrap()) == *final(old(self).ring.unwrap()),
    {
        if self.begin < self.end {
            match &mut self.ring {
                Some(ring) => {
                    io_uring_cqe_seen(ring);
                },
                None => {},
            }
            self.begin = self.begin + 1;
        }
    }

    /// Returns every remaining record to the kernel and empties the batch.
    pub fn consume_all(&mut self)
        requires
            old(self).wf(),
        ensures
            final(self).wf(),
            final(self).ring_state() == old(self).ring_state().consume(
                old(self).spec_available() as u32,
            ),
            final(self).begin == 0,
            final(self).end == 0,
            *final(final(self).ring.unwrap()) == *final(old(self).ring.unwrap()),
        opens_invariants none
        no_unwind
    {
        let n: u32 = (self.end - self.begin) as u32;
        match &mut self.ring {
            Some(ring) => {
                io_uring_cq_advance(ring, n);
            },
            None => {},
        }
        self.begin = 0;
        self.end = 0;
    }

    /// Number of records not yet returned.
    pub fn available(&self) -> (n: isize)
        requires
            self.wf(),
        ensures
            n == self.spec_available(),
            n == self.end - self.begin,
    {
        self.end - self.begin
    }

    /// Gives the batch up, returning every remaining record to the kernel:
    /// the shared head moves on by exactly the number of records left.
    pub fn release(self)
        requires
            self.wf(),
        ensures
            (*final(self.ring.unwrap()))@ == self.ring_state().consume(self.spec_available() as u32),
            (*final(self.ring.unwrap()))@.wf(),
    {
        let mut jar = self;
        jar.consume_all();
        let _ = jar.ring.take();
    }
}

impl<'a> Drop for CqeJar<'a> {
    /// Returns every remaining record to the kernel: the shared head moves on
    /// by exactly the number of records left.
    fn drop(&mut self)
        ensures
            old(self).wf() ==> final(self).ring_state() == old(self).ring_state().consume(
                old(self).spec_available() as u32,
            ),
        opens_invariants none
        no_unwind
    {
        let begin: isize = self.begin;
        let end: isize = self.end;
        match &mut self.ring {
            Some(ring) => {
                let ready: u32 = ring.cq_pending();
                if 0 <= begin && begin <= end && end - begin <= ready as isize {
                    io_uring_cq_advance(ring, (end - begin) as u32);
                }
            },
            None => {},
        }
        self.begin = 0;
        self.end = 0;
    }
}

/// Consumes the timeout completions at the head of the queue, where the
/// kernel posts them, and returns how many completions are pending after
/// them. A timeout that failed is consumed too and ends the call with its
/// error. Nothing is consumed when the kernel takes timeouts as arguments.
///
/// A caller that waits for completions asks here whether enough are there:
/// after a count is returned, no timeout is left at the head of the queue.
pub fn io_uring_skip_timeouts(ring: &mut IoUring) -> (r: Result<u32, RingError>)
    ensures
        final(ring)@.wf(),
        old(ring)@.wf(),
        ({
            let s = old(ring)@;
            let k = s.skip_timeouts(0);
            if s.failed_timeout_at(k) {
                &&& r == Err::<u32, RingError>(
                    RingError::KernelRejected(errno_of(s.completion_at(k).res)),
                )
                &&& final(ring)@ == s.consume((k + 1) as u32)
            } else {
                &&& k <= s.cq_ready()
                &&& r == Ok::<u32, RingError>((s.cq_ready() - k) as u32)
                &&& final(ring)@ == s.consume(k)
                &&& final(ring)@.cq_ready() == s.cq_ready() - k
                &&& final(ring)@.skip_timeouts(0) == 0
                &&& !final(ring)@.failed_timeout_at(0)
            }
        }),
{
    let ghost s = ring@;
    let mut skipped: u32 = 0;
    let mut available: u32 = ring.cq_pending();
    assert(s.consume(0) == s);
    loop
        invariant
            s == old(ring)@,
            s.wf(),
            skipped <= s.cq_ready(),
            available == s.cq_ready() - skipped,
            ring@ == s.consume(skipped),
            s.skip_timeouts(0) == s.skip_timeouts(skipped),
        decreases available,
    {
        if available == 0 {
            return Ok(0);
        }
        let c: CqEntry = *ring.cqe_at(0);
        assert(c == s.completion_at(skipped));
        if ring.features() & IORING_FEAT_EXT_ARG == 0 && c.user_data == LIBURING_UDATA_TIMEOUT {
            io_uring_cq_advance(ring, 1);
            assert(ring@ == s.consume((skipped + 1) as u32));
            if c.res < 0 {
                return Err(RingError::KernelRejected(errno_from_status(c.res)));
            }
            skipped = skipped + 1;
            available = available - 1;
        } else {
            return Ok(available);
        }
    }
}

/// Looks for completions without waiting.
///
/// Timeout completions at the head of the queue are consumed on the way,
/// unless the kernel takes timeouts as arguments. A failed one ends the call
/// with its error. Otherwise the batch holds every completion that is
/// pending after them, and `None` stands for an empty queue.
pub fn io_uring_peek_cqe<'a>(ring: &'a mut IoUring) -> (r: Result<Option<CqeJar<'a>>, RingError>)
    ensures
        ({
            let s = old(ring)@;
            let k = s.skip_timeouts(0);
            if s.failed_timeout_at(k) {
                &&& r is Err
                &&& r->Err_0 == RingError::KernelRejected(errno_of(s.completion_at(k).res))
                &&& final(ring)@ == s.consume((k + 1) as u32)
            } else if k < s.cq_ready() {
                &&& r is Ok
                &&& r->Ok_0 is Some
                &&& r->Ok_0->Some_0.wf()
                &&& r->Ok_0->Some_0.begin == 0
                &&& r->Ok_0->Some_0.end == s.cq_ready() - k
                &&& r->Ok_0->Some_0.ring_state() == s.consume(k)
                &&& *final(ring) == *final(r->Ok_0->Some_0.ring.unwrap())
            } else {
                &&& r is Ok
                &&& r->Ok_0 is None
                &&& final(ring)@ == s.consume(k)
            }
        }),
{
    match io_uring_skip_timeouts(ring) {
        Err(e) => Err(e),
        Ok(available) => {
            if available > 0 {
                Ok(Some(CqeJar::init(ring, available)))
            } else {
                Ok(None)
            }
        },
    }
}

/// Asks for a batch of exactly `nr` completions.
///
/// Timeout completions at the head of the queue are consumed first, as in
/// [`io_uring_peek_cqe`]. If at least `nr` completions are pending after
/// them, the batch holds the first `nr`. If not, the result is `None`: the
/// caller lets the kernel run until `nr` completions are posted and asks
/// again.
pub fn io_uring_wait_cqe_nr<'a>(ring: &'a mut IoUring, nr: u32) -> (r: Result<
    Option<CqeJar<'a>>,
    RingError,
>)
    ensures
        ({
            let s = old(ring)@;
            let k = s.skip_timeouts(0);
            if s.failed_timeout_at(k) {
                &&& r is Err
                &&& r->Err_0 == RingError::KernelRejected(errno_of(s.completion_at(k).res))
                &&& final(ring)@ == s.consume((k + 1) as u32)
            } else if s.cq_ready() - k >= nr {
                &&& r is Ok
                &&& r->Ok_0 is Some
                &&& r->Ok_0->Some_0.wf()
                &&& r->Ok_0->Some_0.begin == 0
                &&& r->Ok_0->Some_0.end == nr
                &&& r->Ok_0->Some_0.ring_state() == s.consume(k)
                &&& *final(ring) == *final(r->Ok_0->Some_0.ring.unwrap())
            } else {
                &&& r is Ok
                &&& r->Ok_0 is None
                &&& final(ring)@ == s.consume(k)
            }
        }),
{
    match io_uring_skip_timeouts(ring) {
        Err(e) => Err(e),
        Ok(available) => {
            if available >= nr {
                Ok(Some(CqeJar::init(ring, nr)))
            } else {
                Ok(None)
            }
        },
    }
}

/// Asks for a batch of exactly one completion.
pub fn io_uring_wait_cqe<'a>(ring: &'a mut IoUring) -> (r: Result<Option<CqeJar<'a>>, RingError>)
    ensures
        ({
            let s = old(ring)@;
            let k = s.skip_timeouts(0);
            if s.failed_timeout_at(k) {
                &&& r is Err
                &&& r->Err_0 == RingError::KernelRejected(errno_of(s.completion_at(k).res))
                &&& final(ring)@ == s.consume((k + 1) as u32)
            } else if s.cq_ready() - k >= 1 {
                &&& r is Ok
                &&& r->Ok_0 is Some
                &&& r->Ok_0->Some_0.wf()
                &&& r->Ok_0->Some_0.begin == 0
                &&& r->Ok_0->Some_0.end == 1
                &&& r->Ok_0->Some_0.ring_state() == s.consume(k)
                &&& *final(ring) == *final(r->Ok_0->Some_0.ring.unwrap())
            } else {
                &&& r is Ok
                &&& r->Ok_0 is None
                &&& final(ring)@ == s.consume(k)
            }
        }),
{
    io_uring_wait_cqe_nr(ring, 1)
}

} // verus!
