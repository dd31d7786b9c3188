//! The ring itself: the memory that caller and kernel share, the queries on
//! it, slot acquisition and submission, and the steps the kernel takes.

use vstd::prelude::*;
use vstd::arithmetic::power2::{lemma_pow2_pos, pow2};
use crate::cqe::{CqEntry, LIBURING_UDATA_TIMEOUT};
use crate::error::{RingError, EEXIST, ENOENT};
use crate::index::{
    advance, advance_index, cell_index, cell_of, distance, is_power_of_two, is_power_of_two_u32,
    lemma_power_of_two_bits, lemma_slots_distinct, ring_distance, slot_of, sub_one,
    IORING_SETUP_CQE32, IORING_SETUP_SQE128, MAX_ENTRIES,
};
use crate::sqe::{SqEntry, Sqe};

verus! {

/// Feature bit: waits take their timeout as an argument, so no timeout
/// completions are posted.
pub const IORING_FEAT_EXT_ARG: u32 = 256;

/// Submission-queue flag: completions were lost because the completion queue
/// was full.
pub const IORING_SQ_CQ_OVERFLOW: u32 = 2;

/// Everything caller and kernel share, as mathematical values.
#[verifier::ext_equal]
pub struct RingState {
    /// Flags the ring was set up with.
    pub flags: u32,
    /// Features the kernel granted.
    pub features: u32,
    /// Number of submission slots.
    pub entries: u32,
    /// Cells of the submission entry array.
    pub sqes: Seq<SqEntry>,
    /// Next submission the kernel will take.
    pub sq_head: u32,
    /// End of the submissions the kernel may take.
    pub sq_published: u32,
    /// End of the submissions the caller has staged.
    pub sq_tail: u32,
    /// Flags the kernel raises on the submission queue.
    pub sq_flags: u32,
    /// Cells of the completion entry array.
    pub cqes: Seq<CqEntry>,
    /// Next completion the caller will consume.
    pub cq_head: u32,
    /// End of the completions the kernel has posted.
    pub cq_tail: u32,
    /// Buffer groups registered with the ring.
    pub groups: Set<u16>,
}

/// `n` is a capacity a ring can be built with.
pub open spec fn valid_capacity(n: int) -> bool {
    is_power_of_two(n) && n <= MAX_ENTRIES
}

impl RingState {
    /// Submission entries take two cells each.
    pub open spec fn wide_sq(self) -> bool {
        self.flags & IORING_SETUP_SQE128 != 0
    }

    /// Completion entries take two cells each.
    pub open spec fn wide_cq(self) -> bool {
        self.flags & IORING_SETUP_CQE32 != 0
    }

    /// Number of completion slots: twice the submission slots.
    pub open spec fn cq_entries(self) -> u32 {
        (2 * self.entries) as u32
    }

    /// Cell of the submission slot of a logical index.
    pub open spec fn sq_cell(self, index: u32) -> int {
        cell_of(index, (self.entries - 1) as u32, self.wide_sq())
    }

    /// Cell of the completion slot of a logical index.
    pub open spec fn cq_cell(self, index: u32) -> int {
        cell_of(index, (self.cq_entries() - 1) as u32, self.wide_cq())
    }

    /// The state is one that a ring can be in.
    pub open spec fn wf(self) -> bool {
        &&& valid_capacity(self.entries as int)
        &&& self.sqes.len() == if self.wide_sq() { 2 * self.entries } else { self.entries as int }
        &&& self.cqes.len() == if self.wide_cq() { 4 * self.entries } else { 2 * self.entries }
        &&& distance(self.sq_tail, self.sq_head) <= self.entries
        &&& distance(self.sq_published, self.sq_head) <= distance(self.sq_tail, self.sq_head)
        &&& distance(self.cq_tail, self.cq_head) <= self.cq_entries()
    }

    /// A new ring: all indices zero, all cells zeroed, nothing registered.
    pub open spec fn new(entries: u32, flags: u32, features: u32) -> RingState {
        RingState::starting_at(entries, flags, features, 0)
    }

    /// A new ring whose indices all begin at `start`.
    pub open spec fn starting_at(entries: u32, flags: u32, features: u32, start: u32) -> RingState {
        RingState {
            flags,
            features,
            entries,
            sqes: Seq::new(
                if flags & IORING_SETUP_SQE128 != 0 { (2 * entries) as nat } else { entries as nat },
                |i: int| SqEntry::zeroed(),
            ),
            sq_head: start,
            sq_published: start,
            sq_tail: start,
            sq_flags: 0,
            cqes: Seq::new(
                if flags & IORING_SETUP_CQE32 != 0 { (4 * entries) as nat } else { (2 * entries) as nat },
                |i: int| CqEntry::zeroed(),
            ),
            cq_head: start,
            cq_tail: start,
            groups: Set::empty(),
        }
    }

    /// Submissions staged and not yet taken by the kernel.
    pub open spec fn sq_ready(self) -> u32 {
        distance(self.sq_tail, self.sq_head)
    }

    /// Submission slots that can still be acquired.
    pub open spec fn sq_available(self) -> u32 {
        (self.entries - self.sq_ready()) as u32
    }

    /// Completions posted and not yet consumed.
    pub open spec fn cq_ready(self) -> u32 {
        distance(self.cq_tail, self.cq_head)
    }

    /// The kernel has lost completions.
    pub open spec fn has_overflow(self) -> bool {
        self.sq_flags & IORING_SQ_CQ_OVERFLOW != 0
    }

    /// No submission slot is free.
    pub open spec fn sq_full(self) -> bool {
        distance(advance(self.sq_tail, 1), self.sq_head) > self.entries
    }

    /// The slot the next acquisition hands out, as it stands.
    pub open spec fn next_slot(self) -> SqEntry {
        self.sqes[self.sq_cell(self.sq_tail)]
    }

    /// The state after a slot was acquired and left holding `e`.
    pub open spec fn acquire(self, e: SqEntry) -> RingState {
        RingState {
            sqes: self.sqes.update(self.sq_cell(self.sq_tail), e),
            sq_tail: advance(self.sq_tail, 1),
            ..self
        }
    }

    /// The state after one slot was acquired for each entry of `es`, in
    /// order, and left holding that entry.
    pub open spec fn acquire_all(self, es: Seq<SqEntry>) -> RingState
        decreases es.len(),
    {
        if es.len() == 0 {
            self
        } else {
            self.acquire_all(es.drop_last()).acquire(es.last())
        }
    }

    /// The state after every staged submission was published.
    pub open spec fn publish(self) -> RingState {
        RingState { sq_published: self.sq_tail, ..self }
    }

    /// The `k`-th submission that the kernel has yet to take.
    pub open spec fn submission_at(self, k: u32) -> SqEntry {
        self.sqes[self.sq_cell(advance(self.sq_head, k))]
    }

    /// Published submissions the kernel has yet to take.
    pub open spec fn sq_published_count(self) -> u32 {
        distance(self.sq_published, self.sq_head)
    }

    /// The state after the kernel took one submission.
    pub open spec fn take(self) -> RingState {
        RingState { sq_head: advance(self.sq_head, 1), ..self }
    }

    /// No completion slot is free.
    pub open spec fn cq_full(self) -> bool {
        self.cq_ready() >= self.cq_entries()
    }

    /// The state after the kernel posted `c`.
    pub open spec fn post(self, c: CqEntry) -> RingState {
        RingState {
            cqes: self.cqes.update(self.cq_cell(self.cq_tail), c),
            cq_tail: advance(self.cq_tail, 1),
            ..self
        }
    }

    /// The state after the kernel raised `flags` on the submission queue.
    pub open spec fn raised(self, flags: u32) -> RingState {
        RingState { sq_flags: self.sq_flags | flags, ..self }
    }

    /// The state after the kernel lost a completion.
    pub open spec fn overflowed(self) -> RingState {
        self.raised(IORING_SQ_CQ_OVERFLOW)
    }

    /// The `k`-th completion that the caller has yet to consume.
    pub open spec fn completion_at(self, k: u32) -> CqEntry {
        self.cqes[self.cq_cell(advance(self.cq_head, k))]
    }

    /// The state with the `k`-th pending completion replaced by `c`.
    pub open spec fn with_completion(self, k: u32, c: CqEntry) -> RingState {
        RingState { cqes: self.cqes.update(self.cq_cell(advance(self.cq_head, k)), c), ..self }
    }

    /// The state after the caller returned `n` completions to the kernel.
    pub open spec fn consume(self, n: u32) -> RingState {
        RingState { cq_head: advance(self.cq_head, n), ..self }
    }

    /// Timeouts of the wait call arrive as completions of their own, which
    /// must be kept from the caller.
    pub open spec fn filters_timeouts(self) -> bool {
        self.features & IORING_FEAT_EXT_ARG == 0
    }

    /// The `k`-th pending completion is a timeout that did not fail: one to
    /// consume and ignore.
    pub open spec fn benign_timeout_at(self, k: u32) -> bool {
        &&& k < self.cq_ready()
        &&& self.filters_timeouts()
        &&& self.completion_at(k).user_data == LIBURING_UDATA_TIMEOUT
        &&& self.completion_at(k).res >= 0
    }

    /// The `k`-th pending completion is a timeout that failed: one to consume
    /// and report.
    pub open spec fn failed_timeout_at(self, k: u32) -> bool {
        &&& k < self.cq_ready()
        &&& self.filters_timeouts()
        &&& self.completion_at(k).user_data == LIBURING_UDATA_TIMEOUT
        &&& self.completion_at(k).res < 0
    }

    /// Position of the first pending completion, at or after `from`, that is
    /// not a benign timeout; the number of pending completions if there is
    /// none.
    pub open spec fn skip_timeouts(self, from: u32) -> u32
        decreases self.cq_ready() - from,
    {
        if self.benign_timeout_at(from) {
            self.skip_timeouts((from + 1) as u32)
        } else {
            from
        }
    }

    /// The state after buffer group `group` was registered.
    pub open spec fn register(self, group: u16) -> RingState {
        RingState { groups: self.groups.insert(group), ..self }
    }

    /// The state after the registration of buffer group `group` was undone.
    pub open spec fn unregister(self, group: u16) -> RingState {
        RingState { groups: self.groups.remove(group), ..self }
    }
}

/// A ring: the entry arrays and indices that caller and kernel share.
pub struct IoUring {
    flags: u32,
    features: u32,
    sq_entries: u32,
    sq_mask: u32,
    sqes: Vec<SqEntry>,
    sq_khead: u32,
    sq_ktail: u32,
    sqe_tail: u32,
    sq_kflags: u32,
    cq_entries: u32,
    cq_mask: u32,
    cqes: Vec<CqEntry>,
    cq_khead: u32,
    cq_ktail: u32,
    registered: Vec<bool>,
}

impl View for IoUring {
    type V = RingState;

    closed spec fn view(&self) -> RingState {
        RingState {
            flags: self.flags,
            features: self.features,
            entries: self.sq_entries,
            sqes: self.sqes@,
            sq_head: self.sq_khead,
            sq_published: self.sq_ktail,
            sq_tail: self.sqe_tail,
            sq_flags: self.sq_kflags,
            cqes: self.cqes@,
            cq_head: self.cq_khead,
            cq_tail: self.cq_ktail,
            groups: Set::new(|g: u16| self.registered@[g as int]),
        }
    }
}

impl IoUring {
    #[verifier::type_invariant]
    spec fn inv(self) -> bool {
        &&& self@.wf()
        &&& self.sq_mask == self.sq_entries - 1
        &&& self.cq_entries == 2 * self.sq_entries
        &&& self.cq_mask == self.cq_entries - 1
        &&& self.registered.len() == 0x1_0000
    }
}

/// A vector of `n` zeroed submission entries.
fn zeroed_sqes(n: usize) -> (v: Vec<SqEntry>)
    ensures
        v@ == Seq::new(n as nat, |i: int| SqEntry::zeroed()),
{
    let mut v: Vec<SqEntry> = Vec::new();
    let mut i: usize = 0;
    while i < n
        invariant
            i <= n,
            v@ == Seq::new(i as nat, |j: int| SqEntry::zeroed()),
        decreases n - i,
    {
        v.push(SqEntry::new());
        i = i + 1;
    }
    v
}

/// A vector of `n` flags, none of them set.
fn cleared_flags(n: usize) -> (v: Vec<bool>)
    ensures
        v@ == Seq::new(n as nat, |i: int| false),
{
    let mut v: Vec<bool> = Vec::new();
    let mut i: usize = 0;
    while i < n
        invariant
            i <= n,
            v@ == Seq::new(i as nat, |j: int| false),
        decreases n - i,
    {
        v.push(false);
        i = i + 1;
    }
    v
}

/// A vector of `n` zeroed completion records.
fn zeroed_cqes(n: usize) -> (v: Vec<CqEntry>)
    ensures
        v@ == Seq::new(n as nat, |i: int| CqEntry::zeroed()),
{
    let mut v: Vec<CqEntry> = Vec::new();
    let mut i: usize = 0;
    while i < n
        invariant
            i <= n,
            v@ == Seq::new(i as nat, |j: int| CqEntry::zeroed()),
        decreases n - i,
    {
        v.push(CqEntry::new());
        i = i + 1;
    }
    v
}

impl IoUring {
    /// Builds a ring with `depth` submission slots, no setup flags and no
    /// kernel features.
    ///
    /// Fails, building nothing, unless `depth` is a power of two that a ring
    /// can hold.
    pub fn init(depth: isize) -> (r: Result<IoUring, RingError>)
        ensures
            valid_capacity(depth as int) ==> r is Ok && r.unwrap()@ == RingState::new(
                depth as u32,
                0,
                0,
            ),
            !valid_capacity(depth as int) ==> r == Err::<IoUring, RingError>(
                RingError::ConfigurationError,
            ),
            r is Ok ==> {
                &&& r.unwrap()@.wf()
                &&& !r.unwrap()@.wide_sq()
                &&& !r.unwrap()@.wide_cq()
                &&& r.unwrap()@.filters_timeouts()
            },
    {
        assert(0u32 & IORING_SETUP_SQE128 == 0) by (bit_vector);
        assert(0u32 & IORING_SETUP_CQE32 == 0) by (bit_vector);
        assert(0u32 & IORING_FEAT_EXT_ARG == 0) by (bit_vector);
        IoUring::init_with_params(depth, 0, 0)
    }

    /// Builds a ring with `depth` submission slots, set up with `flags`, on a
    /// kernel that grants `features`.
    ///
    /// Fails, building nothing, unless `depth` is a power of two that a ring
    /// can hold.
    pub fn init_with_params(depth: isize, flags: u32, features: u32) -> (r: Result<
        IoUring,
        RingError,
    >)
        ensures
            valid_capacity(depth as int) ==> r is Ok && r.unwrap()@ == RingState::new(
                depth as u32,
                flags,
                features,
            ),
            !valid_capacity(depth as int) ==> r == Err::<IoUring, RingError>(
                RingError::ConfigurationError,
            ),
            r is Ok ==> r.unwrap()@.wf(),
    {
        IoUring::init_at(depth, flags, features, 0)
    }

    /// Builds a ring as [`IoUring::init_with_params`] does, with every index
    /// beginning at `start` instead of zero. The indices run freely and wrap
    /// at 2^32, so that a ring in long use looks like one started late.
    pub fn init_at(depth: isize, flags: u32, features: u32, start: u32) -> (r: Result<
        IoUring,
        RingError,
    >)
        ensures
            valid_capacity(depth as int) ==> r is Ok && r.unwrap()@ == RingState::starting_at(
                depth as u32,
                flags,
                features,
                start,
            ),
            !valid_capacity(depth as int) ==> r == Err::<IoUring, RingError>(
                RingError::ConfigurationError,
            ),
            r is Ok ==> r.unwrap()@.wf(),
    {
        if depth <= 0 || depth > MAX_ENTRIES as isize {
            proof {
                if depth <= 0 && is_power_of_two(depth as int) {
                    let k = choose|k: nat| pow2(k) == depth as int;
                    lemma_pow2_pos(k);
                }
            }
            return Err(RingError::ConfigurationError);
        }
        let entries: u32 = depth as u32;
        if !is_power_of_two_u32(entries) {
            return Err(RingError::ConfigurationError);
        }
        let wide_sq: bool = flags & IORING_SETUP_SQE128 != 0;
        let wide_cq: bool = flags & IORING_SETUP_CQE32 != 0;
        let sq_cells: usize = if wide_sq { 2 * entries as usize } else { entries as usize };
        let cq_cells: usize = if wide_cq { 4 * entries as usize } else { 2 * entries as usize };
        let ring = IoUring {
            flags,
            features,
            sq_entries: entries,
            sq_mask: entries - 1,
            sqes: zeroed_sqes(sq_cells),
            sq_khead: start,
            sq_ktail: start,
            sqe_tail: start,
            sq_kflags: 0,
            cq_entries: 2 * entries,
            cq_mask: 2 * entries - 1,
            cqes: zeroed_cqes(cq_cells),
            cq_khead: start,
            cq_ktail: start,
            registered: cleared_flags(0x1_0000),
        };
        assert(ring@ == RingState::starting_at(entries, flags, features, start));
        Ok(ring)
    }

    /// Number of submission slots.
    pub fn entries(&self) -> (n: u32)
        ensures
            n == self@.entries,
            self@.wf(),
    {
        proof {
            use_type_invariant(self);
        }
        self.sq_entries
    }

    /// Flags the ring was set up with.
    pub fn setup_flags(&self) -> (flags: u32)
        ensures
            flags == self@.flags,
    {
        self.flags
    }

    /// Features the kernel granted.
    pub fn features(&self) -> (features: u32)
        ensures
            features == self@.features,
    {
        self.features
    }

    /// Slot of the submission queue that the logical index `index` falls on.
    pub fn sq_slot_index(&self, index: u32) -> (slot: u32)
        ensures
            slot == slot_of(index, sub_one(self@.entries)),
            slot < self@.entries,
    {
        proof {
            use_type_invariant(self);
            lemma_cq_entries_power_of_two(self@);
        }
        let slot: usize = cell_index(index, self.sq_mask, false);
        slot as u32
    }

    /// Cell of the submission entry array that holds the entry of the
    /// logical index `index`.
    pub fn sq_cell_index(&self, index: u32) -> (cell: usize)
        ensures
            cell == self@.sq_cell(index),
            cell < self@.sqes.len(),
    {
        proof {
            use_type_invariant(self);
            lemma_cells_in_range(self@, index);
        }
        cell_index(index, self.sq_mask, (self.flags & IORING_SETUP_SQE128) != 0)
    }

    /// Cell of the completion entry array that holds the record of the
    /// logical index `index`.
    pub fn cq_cell_index(&self, index: u32) -> (cell: usize)
        ensures
            cell == self@.cq_cell(index),
            cell < self@.cqes.len(),
    {
        proof {
            use_type_invariant(self);
            lemma_cells_in_range(self@, index);
        }
        cell_index(index, self.cq_mask, (self.flags & IORING_SETUP_CQE32) != 0)
    }

    /// Number of submissions staged and not yet taken by the kernel.
    pub fn io_uring_sq_ready(&mut self) -> (n: u32)
        ensures
            n == old(self)@.sq_ready(),
            n <= old(self)@.entries,
            final(self)@ == old(self)@,
    {
        proof {
            use_type_invariant(&*self);
        }
        ring_distance(self.sqe_tail, self.sq_khead)
    }

    /// Number of submission slots that can still be acquired.
    pub fn io_uring_sq_available(&mut self) -> (n: u32)
        ensures
            n == old(self)@.sq_available(),
            n == old(self)@.entries - old(self)@.sq_ready(),
            final(self)@ == old(self)@,
    {
        proof {
            use_type_invariant(&*self);
        }
        self.sq_entries - ring_distance(self.sqe_tail, self.sq_khead)
    }

    /// Number of completions posted and not yet consumed: tail minus head,
    /// with unsigned wraparound.
    pub fn io_uring_cq_ready(&mut self) -> (n: u32)
        ensures
            n == distance(old(self)@.cq_tail, old(self)@.cq_head),
            n == old(self)@.cq_ready(),
            final(self)@ == old(self)@,
    {
        ring_distance(self.cq_ktail, self.cq_khead)
    }

    /// Whether the kernel has lost completions because the completion queue
    /// was full. The condition persists; it is not an error of any one call.
    pub fn io_uring_cq_has_overflow(&mut self) -> (b: bool)
        ensures
            b == old(self)@.has_overflow(),
            final(self)@ == old(self)@,
    {
        (self.sq_kflags & IORING_SQ_CQ_OVERFLOW) != 0
    }

    /// Acquires the next free submission slot.
    ///
    /// Returns `None`, changing nothing, when every slot is staged or still
    /// with the kernel. Otherwise the private tail moves on by one and the
    /// handle refers to the slot at the old tail; what the handle leaves in
    /// the slot is what the ring then holds there.
    pub fn io_uring_get_sqe(&mut self) -> (s: Option<Sqe<'_>>)
        ensures
            s is None <==> old(self)@.sq_full(),
            s is None <==> old(self)@.sq_ready() == old(self)@.entries,
            s is None ==> final(self)@ == old(self)@,
            s is Some ==> s.unwrap().entry() == old(self)@.next_slot(),
            s is Some ==> final(self)@ == old(self)@.acquire(*final(s.unwrap().sqe)),
            final(self)@.wf(),
    {
        proof {
            use_type_invariant(&*self);
        }
        let next: u32 = advance_index(self.sqe_tail, 1);
        let head: u32 = self.sq_khead;
        if ring_distance(next, head) <= self.sq_entries {
            let current: u32 = self.sqe_tail;
            let cell: usize = self.sq_cell_index(current);
            self.sqe_tail = next;
            Some(Sqe::init(&mut self.sqes[cell]))
        } else {
            None
        }
    }

    /// Publishes every staged submission to the kernel and returns how many
    /// submissions the kernel now has to take.
    pub fn submit(&mut self) -> (n: i32)
        ensures
            final(self)@ == old(self)@.publish(),
            n == old(self)@.sq_ready(),
            final(self)@.sq_published_count() == n,
            final(self)@.wf(),
    {
        proof {
            use_type_invariant(&*self);
        }
        self.sq_ktail = self.sqe_tail;
        ring_distance(self.sqe_tail, self.sq_khead) as i32
    }

    /// The kernel takes the next published submission, if there is one, and
    /// frees its slot.
    pub fn kernel_take_sqe(&mut self) -> (e: Option<SqEntry>)
        ensures
            e is None <==> old(self)@.sq_published_count() == 0,
            e is None ==> final(self)@ == old(self)@,
            e is Some ==> e.unwrap() == old(self)@.submission_at(0),
            e is Some ==> final(self)@ == old(self)@.take(),
            final(self)@.wf(),
    {
        proof {
            use_type_invariant(&*self);
        }
        if ring_distance(self.sq_ktail, self.sq_khead) == 0 {
            None
        } else {
            let cell: usize = self.sq_cell_index(self.sq_khead);
            let e: SqEntry = self.sqes[cell];
            self.sq_khead = advance_index(self.sq_khead, 1);
            Some(e)
        }
    }

    /// The kernel posts the completion that answers `entry`, carrying the
    /// entry's correlation tag. Returns `false` when the completion is lost.
    pub fn kernel_complete(&mut self, entry: &SqEntry, res: i32, flags: u32) -> (posted: bool)
        ensures
            posted <==> !old(self)@.cq_full(),
            posted ==> final(self)@ == old(self)@.post(completion_of(*entry, res, flags)),
            !posted ==> final(self)@ == old(self)@.overflowed(),
            final(self)@.wf(),
    {
        self.kernel_post_cqe(CqEntry { user_data: entry.user_data, res, flags })
    }

    /// The kernel posts the completion `c`.
    ///
    /// Returns `false` when the completion queue is full: the completion is
    /// lost and the overflow flag is raised, to stay raised.
    pub fn kernel_post_cqe(&mut self, c: CqEntry) -> (posted: bool)
        ensures
            posted <==> !old(self)@.cq_full(),
            posted ==> final(self)@ == old(self)@.post(c),
            !posted ==> final(self)@ == old(self)@.overflowed(),
            final(self)@.wf(),
    {
        proof {
            use_type_invariant(&*self);
        }
        if ring_distance(self.cq_ktail, self.cq_khead) >= self.cq_entries {
            self.sq_kflags = self.sq_kflags | IORING_SQ_CQ_OVERFLOW;
            false
        } else {
            let cell: usize = self.cq_cell_index(self.cq_ktail);
            self.cqes[cell] = c;
            self.cq_ktail = advance_index(self.cq_ktail, 1);
            true
        }
    }

    /// The kernel raises `flags` on the submission queue. A flag once raised
    /// stays raised.
    pub fn kernel_raise_sq_flags(&mut self, flags: u32)
        ensures
            final(self)@ == old(self)@.raised(flags),
            final(self)@.wf(),
    {
        proof {
            use_type_invariant(&*self);
        }
        self.sq_kflags = self.sq_kflags | flags;
    }

    /// Returns `nr` completions to the kernel by moving the shared head.
    pub(crate) fn cq_advance(&mut self, nr: u32)
        requires
            nr <= old(self)@.cq_ready(),
        ensures
            final(self)@ == old(self)@.consume(nr),
            final(self)@.wf(),
        opens_invariants none
        no_unwind
    {
        proof {
            use_type_invariant(&*self);
        }
        self.cq_khead = advance_index(self.cq_khead, nr);
    }

    /// Number of pending completions, for callers that must not unwind.
    pub(crate) fn cq_pending(&self) -> (n: u32)
        ensures
            n == self@.cq_ready(),
            self@.wf(),
        opens_invariants none
        no_unwind
    {
        proof {
            use_type_invariant(self);
        }
        ring_distance(self.cq_ktail, self.cq_khead)
    }

    /// The `k`-th pending completion.
    pub(crate) fn cqe_at(&self, k: u32) -> (c: &CqEntry)
        ensures
            *c == self@.completion_at(k),
    {
        proof {
            use_type_invariant(self);
        }
        let cell: usize = self.cq_cell_index(advance_index(self.cq_khead, k));
        &self.cqes[cell]
    }

    /// The `k`-th pending completion, for writing.
    pub(crate) fn cqe_at_mut(&mut self, k: u32) -> (c: &mut CqEntry)
        ensures
            *c == old(self)@.completion_at(k),
            final(self)@ == old(self)@.with_completion(k, *final(c)),
            final(self)@.wf(),
    {
        proof {
            use_type_invariant(&*self);
        }
        let cell: usize = self.cq_cell_index(advance_index(self.cq_khead, k));
        &mut self.cqes[cell]
    }

    /// Whether buffer group `group` is registered with the ring.
    pub fn has_buf_group(&self, group: u16) -> (found: bool)
        ensures
            found == self@.groups.contains(group),
    {
        proof {
            use_type_invariant(self);
        }
        self.registered[group as usize]
    }

    /// The kernel registers a buffer ring under `group`.
    ///
    /// Returns zero, or the negated error number `EEXIST`, leaving the ring
    /// as it was, when the group is taken.
    pub fn io_uring_register_buf_ring(&mut self, group: u16) -> (status: i32)
        ensures
            old(self)@.groups.contains(group) ==> status == -EEXIST && final(self)@ == old(self)@,
            !old(self)@.groups.contains(group) ==> status == 0 && final(self)@ == old(
                self,
            )@.register(group),
            final(self)@.wf(),
    {
        proof {
            use_type_invariant(&*self);
        }
        if self.has_buf_group(group) {
            -EEXIST
        } else {
            self.registered[group as usize] = true;
            0
        }
    }

    /// The kernel drops the buffer ring registered under `group`.
    ///
    /// Returns zero, or the negated error number `ENOENT`, leaving the ring
    /// as it was, when no buffer ring is registered under the group.
    pub fn io_uring_unregister_buf_ring(&mut self, group: u16) -> (status: i32)
        ensures
            old(self)@.groups.contains(group) ==> status == 0 && final(self)@ == old(
                self,
            )@.unregister(group),
            !old(self)@.groups.contains(group) ==> status == -ENOENT && final(self)@ == old(self)@,
            final(self)@.wf(),
    {
        proof {
            use_type_invariant(&*self);
        }
        if self.has_buf_group(group) {
            self.registered[group as usize] = false;
            0
        } else {
            -ENOENT
        }
    }
}

/// Every logical index has its cell inside the entry arrays.
pub proof fn lemma_cells_in_range(s: RingState, index: u32)
    requires
        s.wf(),
    ensures
        0 <= s.sq_cell(index) < s.sqes.len(),
        0 <= s.cq_cell(index) < s.cqes.len(),
{
    lemma_power_of_two_bits(s.entries);
    let e = s.entries;
    let m = (e - 1) as u32;
    let c = (2 * e - 1) as u32;
    assert(index & m < e) by (bit_vector)
        requires
            e != 0,
            m == (e - 1) as u32,
    ;
    assert(index & c < 2 * e) by (bit_vector)
        requires
            e != 0,
            e <= 0x8000,
            c == (2 * e - 1) as u32,
    ;
}

/// Acquiring a slot of a ring that is not full stages one more submission
/// and leaves a ring.
pub proof fn lemma_acquire(s: RingState, e: SqEntry)
    requires
        s.wf(),
        !s.sq_full(),
    ensures
        s.acquire(e).wf(),
        s.acquire(e).sq_ready() == s.sq_ready() + 1,
        s.sq_full() <==> s.sq_ready() == s.entries,
{
    lemma_cells_in_range(s, s.sq_tail);
}

/// A ring is full exactly when as many submissions are staged as it has
/// slots.
pub proof fn lemma_full_at_capacity(s: RingState)
    requires
        s.wf(),
    ensures
        s.sq_full() <==> s.sq_ready() == s.entries,
{
}

/// Acquisitions that nothing intervenes in succeed until the ring has no
/// slot left, and only until then: after as many as fit, as many
/// submissions more are staged and the ring is full exactly when they add up
/// to its capacity. On a ring with nothing staged and `N` slots, the first
/// `N` acquisitions succeed and the next one finds the ring full.
pub proof fn lemma_acquisitions_fill_ring(s: RingState, es: Seq<SqEntry>)
    requires
        s.wf(),
        s.sq_ready() + es.len() <= s.entries,
    ensures
        s.acquire_all(es).wf(),
        s.acquire_all(es).entries == s.entries,
        s.acquire_all(es).sq_head == s.sq_head,
        s.acquire_all(es).sq_ready() == s.sq_ready() + es.len(),
        s.acquire_all(es).sq_full() <==> s.sq_ready() + es.len() == s.entries,
        forall|k: int| 0 <= k < es.len() ==> !(#[trigger] s.acquire_all(es.take(k))).sq_full(),
    decreases es.len(),
{
    if es.len() == 0 {
        lemma_full_at_capacity(s);
    } else {
        let init = es.drop_last();
        lemma_acquisitions_fill_ring(s, init);
        let p = s.acquire_all(init);
        lemma_acquire(p, es.last());
        assert(s.acquire_all(es) == p.acquire(es.last()));
        lemma_full_at_capacity(s.acquire_all(es));
        assert forall|k: int| 0 <= k < es.len() implies !(#[trigger] s.acquire_all(
            es.take(k),
        )).sq_full() by {
            if k < init.len() {
                assert(es.take(k) == init.take(k));
            } else {
                assert(es.take(k) == init);
            }
        }
    }
}

/// The completion record that answers a submission: it carries the
/// submission's correlation tag unchanged.
pub open spec fn completion_of(e: SqEntry, res: i32, flags: u32) -> CqEntry {
    CqEntry { user_data: e.user_data, res, flags }
}

/// An entry staged and published reaches the kernel as it was left, behind
/// the submissions staged before it.
pub proof fn lemma_submission_reaches_kernel(s: RingState, e: SqEntry)
    requires
        s.wf(),
        !s.sq_full(),
    ensures
        s.acquire(e).publish().wf(),
        s.acquire(e).publish().sq_published_count() == s.sq_ready() + 1,
        s.acquire(e).publish().submission_at(s.sq_ready()) == e,
{
    lemma_cells_in_range(s, s.sq_tail);
}

/// Taking a submission brings every later one a place forward and changes
/// none of them.
pub proof fn lemma_take_shifts(s: RingState, k: u32)
    requires
        s.wf(),
        s.sq_published_count() > 0,
        k < u32::MAX,
    ensures
        s.take().wf(),
        s.take().submission_at(k) == s.submission_at((k + 1) as u32),
        s.take().sq_ready() == s.sq_ready() - 1,
        s.take().sq_published_count() == s.sq_published_count() - 1,
{
}

/// A completion posted to a queue that is not full becomes the last pending
/// completion, and the ones pending before it stay as they were.
pub proof fn lemma_post_appends(s: RingState, c: CqEntry)
    requires
        s.wf(),
        !s.cq_full(),
    ensures
        s.post(c).wf(),
        s.post(c).cq_ready() == s.cq_ready() + 1,
        s.post(c).completion_at(s.cq_ready()) == c,
        forall|k: u32| k < s.cq_ready() ==> #[trigger] s.post(c).completion_at(k) == s.completion_at(k),
{
    lemma_cells_in_range(s, s.cq_tail);
    assert forall|k: u32| k < s.cq_ready() implies #[trigger] s.post(c).completion_at(k)
        == s.completion_at(k) by {
        lemma_cells_in_range(s, advance(s.cq_head, k));
        lemma_cq_entries_power_of_two(s);
        lemma_slots_distinct(s.cq_head, k, s.cq_ready(), s.cq_entries());
    }
}

/// The completion queue has a power of two of slots, as the submission
/// queue has.
pub proof fn lemma_cq_entries_power_of_two(s: RingState)
    requires
        s.wf(),
    ensures
        is_power_of_two(s.cq_entries() as int),
        sub_one(s.cq_entries()) == s.cq_entries() - 1,
        sub_one(s.entries) == s.entries - 1,
{
    lemma_power_of_two_bits(s.entries);
    lemma_power_of_two_bits(s.cq_entries());
    let e = s.entries;
    let d = s.cq_entries();
    assert(d != 0 && d & sub_one(d) == 0) by (bit_vector)
        requires
            e != 0 && e & sub_one(e) == 0,
            e <= 0x8000,
            d == 2 * e,
    ;
}

/// Returning `n` pending completions brings every later one `n` places
/// forward and changes none of them.
pub proof fn lemma_consume_shifts(s: RingState, n: u32, k: u32)
    requires
        s.wf(),
        n <= s.cq_ready(),
        n + k <= u32::MAX,
    ensures
        s.consume(n).wf(),
        s.consume(n).cq_ready() == s.cq_ready() - n,
        s.consume(n).completion_at(k) == s.completion_at((n + k) as u32),
{
}

/// A completion posted to an empty queue is the first record of the next
/// batch, unless the ring takes it for a timeout of the wait call.
pub proof fn lemma_posted_completion_is_handed_out(s: RingState, c: CqEntry)
    requires
        s.wf(),
        s.cq_ready() == 0,
        !(s.filters_timeouts() && c.user_data == LIBURING_UDATA_TIMEOUT),
    ensures
        s.post(c).skip_timeouts(0) == 0,
        !s.post(c).failed_timeout_at(0),
        s.post(c).cq_ready() == 1,
        s.post(c).consume(0).completion_at(0) == c,
{
    lemma_power_of_two_bits(s.entries);
    lemma_post_appends(s, c);
}

/// The correlation tag of a submission comes back unchanged, whatever its
/// value: an entry left in an acquired slot reaches the kernel with its tag,
/// and the completion that answers it, once posted, is pending with that
/// tag. If nothing was pending before it, it is the first record of the next
/// batch, unless the ring takes the tag for that of a timeout.
pub proof fn lemma_tag_round_trip(s: RingState, e: SqEntry, at_post: RingState, res: i32, flags: u32)
    requires
        s.wf(),
        !s.sq_full(),
        at_post.wf(),
        !at_post.cq_full(),
    ensures
        ({
            let submitted = s.acquire(e).publish().submission_at(s.sq_ready());
            let posted = at_post.post(completion_of(submitted, res, flags));
            &&& submitted.user_data == e.user_data
            &&& posted.cq_ready() == at_post.cq_ready() + 1
            &&& posted.completion_at(at_post.cq_ready()).user_data == e.user_data
            &&& at_post.cq_ready() == 0 && !(at_post.filters_timeouts() && e.user_data
                == LIBURING_UDATA_TIMEOUT) ==> {
                &&& posted.skip_timeouts(0) == 0
                &&& !posted.failed_timeout_at(0)
            }
        }),
{
    lemma_submission_reaches_kernel(s, e);
    let submitted = s.acquire(e).publish().submission_at(s.sq_ready());
    let c = completion_of(submitted, res, flags);
    lemma_post_appends(at_post, c);
    if at_post.cq_ready() == 0 && !(at_post.filters_timeouts() && e.user_data
        == LIBURING_UDATA_TIMEOUT) {
        lemma_posted_completion_is_handed_out(at_post, c);
    }
}

/// Overflow persists: a lost completion raises the flag, and no step of the
/// caller or of the kernel lowers it again.
pub proof fn lemma_overflow_is_sticky(
    s: RingState,
    e: SqEntry,
    c: CqEntry,
    n: u32,
    group: u16,
    flags: u32,
)
    ensures
        s.overflowed().has_overflow(),
        s.has_overflow() ==> {
            &&& s.raised(flags).has_overflow()
            &&& s.acquire(e).has_overflow()
            &&& s.publish().has_overflow()
            &&& s.take().has_overflow()
            &&& s.post(c).has_overflow()
            &&& s.overflowed().has_overflow()
            &&& s.consume(n).has_overflow()
            &&& s.with_completion(n, c).has_overflow()
            &&& s.register(group).has_overflow()
            &&& s.unregister(group).has_overflow()
        },
{
    let f = s.sq_flags;
    assert((f | IORING_SQ_CQ_OVERFLOW) & IORING_SQ_CQ_OVERFLOW != 0) by (bit_vector);
    assert(f & IORING_SQ_CQ_OVERFLOW != 0 ==> (f | flags) & IORING_SQ_CQ_OVERFLOW != 0)
        by (bit_vector);
}

/// Skipping timeouts stops at the first pending completion that is not a
/// benign timeout, or behind the last one.
pub proof fn lemma_skip_timeouts_stops(s: RingState, from: u32)
    requires
        from <= s.cq_ready(),
    ensures
        from <= s.skip_timeouts(from) <= s.cq_ready(),
        !s.benign_timeout_at(s.skip_timeouts(from)),
        forall|j: u32| from <= j < s.skip_timeouts(from) ==> #[trigger] s.benign_timeout_at(j),
    decreases s.cq_ready() - from,
{
    if s.benign_timeout_at(from) {
        lemma_skip_timeouts_stops(s, (from + 1) as u32);
    }
}

/// Once the timeouts at the head of the queue are consumed, none is left
/// there: the next look at the queue consumes nothing and reports no
/// timeout.
pub proof fn lemma_timeouts_skipped_once(s: RingState)
    requires
        s.wf(),
        !s.failed_timeout_at(s.skip_timeouts(0)),
    ensures
        s.skip_timeouts(0) <= s.cq_ready(),
        s.consume(s.skip_timeouts(0)).wf(),
        s.consume(s.skip_timeouts(0)).cq_ready() == s.cq_ready() - s.skip_timeouts(0),
        s.consume(s.skip_timeouts(0)).skip_timeouts(0) == 0,
        !s.consume(s.skip_timeouts(0)).failed_timeout_at(0),
{
    lemma_skip_timeouts_stops(s, 0);
    lemma_consume_shifts(s, s.skip_timeouts(0), 0);
}

} // verus!
