//! The provided-buffer ring: a pool of equally sized buffers that the kernel
//! picks from on its own for buffer-select operations.

use vstd::prelude::*;
use crate::error::{errno_from_status, RingError, EEXIST};
use crate::index::{
    advance, cell_index, is_power_of_two, is_power_of_two_u32, lemma_advance_truncates,
    lemma_power_of_two_bits, lemma_slots_distinct, slot_of, sub_one, MAX_ENTRIES,
};
use crate::ring::IoUring;

verus! {

/// One descriptor of the ring: where a buffer lies, how long it is, and the
/// id under which completions name it.
#[derive(Debug, Clone, Copy, PartialEq, Eq, Structural)]
pub struct BufDesc {
    /// Offset of the buffer from the start of the pool.
    pub addr: u64,
    /// Length of the buffer in bytes.
    pub len: u32,
    /// Id of the buffer: its position in the pool.
    pub bid: u16,
}

/// The 16-bit ring index `index` moved forward by `delta`, modulo 2^16.
pub open spec fn advance16(index: u16, delta: int) -> u16 {
    ((index + delta) % 0x1_0000) as u16
}

/// Number of descriptors between `head` and `tail`, modulo 2^16.
pub open spec fn distance16(tail: u16, head: u16) -> u16 {
    ((tail - head) % 0x1_0000) as u16
}

/// A buffer ring as mathematical values.
#[verifier::ext_equal]
pub struct BufRingState {
    /// Group id under which the ring is registered.
    pub group: u16,
    /// Number of descriptors, which is the number of buffers.
    pub entries: u32,
    /// Size of each buffer in bytes.
    pub entry_size: usize,
    /// The descriptor slots.
    pub descs: Seq<BufDesc>,
    /// End of the descriptors supplied to the kernel.
    pub tail: u16,
    /// Next descriptor the kernel will pick.
    pub head: u16,
}

/// A pool of `entries` buffers of `entry_size` bytes can be described.
pub open spec fn valid_pool(entries: u32, entry_size: usize) -> bool {
    &&& is_power_of_two(entries as int)
    &&& entries <= MAX_ENTRIES
    &&& entry_size <= u32::MAX
}

/// The descriptor of buffer `bid` in a pool of buffers of `entry_size` bytes:
/// the buffers lie one after the other, in the order of their ids.
pub open spec fn buffer_desc(entry_size: usize, bid: u16) -> BufDesc {
    BufDesc { addr: (bid * entry_size) as u64, len: entry_size as u32, bid }
}

impl BufRingState {
    /// The descriptor of buffer `bid` of this ring's pool.
    pub open spec fn desc_of(self, bid: u16) -> BufDesc {
        buffer_desc(self.entry_size, bid)
    }

    /// Slot of the ring index `index`.
    pub open spec fn slot(self, index: u16) -> int {
        slot_of(index as u32, sub_one(self.entries))
    }

    /// The state is one that a buffer ring can be in.
    pub open spec fn wf(self) -> bool {
        &&& valid_pool(self.entries, self.entry_size)
        &&& self.descs.len() == self.entries
    }

    /// Descriptors supplied and not yet picked by the kernel.
    pub open spec fn available(self) -> u16 {
        distance16(self.tail, self.head)
    }

    /// Slot that lies `offset` slots past the tail.
    pub open spec fn slot_past_tail(self, offset: u32) -> int {
        slot_of(advance(self.tail as u32, offset), sub_one(self.entries))
    }

    /// The state after descriptor `d` was written `offset` slots past the
    /// tail.
    pub open spec fn set_at(self, offset: u32, d: BufDesc) -> BufRingState {
        BufRingState { descs: self.descs.update(self.slot_past_tail(offset), d), ..self }
    }

    /// The state after the tail was published as `tail`.
    pub open spec fn with_tail(self, tail: u16) -> BufRingState {
        BufRingState { tail, ..self }
    }

    /// The state after the first `n` buffers were written past the tail,
    /// buffer `i` at offset `i`.
    pub open spec fn fill(self, n: nat) -> BufRingState
        decreases n,
    {
        if n == 0 {
            self
        } else {
            self.fill((n - 1) as nat).set_at((n - 1) as u32, self.desc_of((n - 1) as u16))
        }
    }

    /// The state after every buffer was supplied at once.
    pub open spec fn add_all(self) -> BufRingState {
        self.fill(self.entries as nat).with_tail(advance16(self.tail, self.entries as int))
    }

    /// A ring just registered: nothing supplied, every slot zeroed.
    pub open spec fn fresh(group: u16, entries: u32, entry_size: usize) -> BufRingState {
        BufRingState {
            group,
            entries,
            entry_size,
            descs: Seq::new(entries as nat, |i: int| BufDesc { addr: 0, len: 0, bid: 0 }),
            tail: 0,
            head: 0,
        }
    }

    /// A ring whose pool has been supplied once from the start: slot `i`
    /// holds the descriptor of buffer `i`.
    pub open spec fn supplied(group: u16, entries: u32, entry_size: usize) -> BufRingState {
        BufRingState {
            group,
            entries,
            entry_size,
            descs: Seq::new(entries as nat, |i: int| buffer_desc(entry_size, i as u16)),
            tail: (entries % 0x1_0000) as u16,
            head: 0,
        }
    }

    /// The descriptor the kernel picks next.
    pub open spec fn next_buffer(self) -> BufDesc {
        self.descs[self.slot(self.head)]
    }

    /// The state after the kernel picked a buffer.
    pub open spec fn take(self) -> BufRingState {
        BufRingState { head: advance16(self.head, 1), ..self }
    }

    /// No descriptor slot is free.
    pub open spec fn full(self) -> bool {
        self.available() >= self.entries
    }

    /// One round of use: the kernel picks a buffer, and the caller supplies
    /// the same buffer again.
    pub open spec fn cycle(self) -> BufRingState {
        self.take().resupply(self.next_buffer().bid)
    }

    /// Both halves of the next round succeed: a buffer is left to pick, it is
    /// one of the pool, and a slot is free to supply it again.
    pub open spec fn cycle_succeeds(self) -> bool {
        &&& self.available() != 0
        &&& self.next_buffer().bid < self.entries
        &&& !self.take().full()
    }

    /// The state after `n` rounds of use.
    pub open spec fn cycles(self, n: nat) -> BufRingState
        decreases n,
    {
        if n == 0 {
            self
        } else {
            self.cycles((n - 1) as nat).cycle()
        }
    }

    /// The state after buffer `bid` was supplied again.
    pub open spec fn resupply(self, bid: u16) -> BufRingState {
        self.set_at(0, self.desc_of(bid)).with_tail(advance16(self.tail, 1))
    }
}

/// A registered pool of equally sized buffers and the descriptor ring
/// through which they are supplied to the kernel.
pub struct BufRing {
    buffers: Vec<BufDesc>,
    ring_entries: u32,
    bgid: u16,
    entry_size: usize,
    tail: u16,
    head: u16,
    mask: u32,
}

impl View for BufRing {
    type V = BufRingState;

    closed spec fn view(&self) -> BufRingState {
        BufRingState {
            group: self.bgid,
            entries: self.ring_entries,
            entry_size: self.entry_size,
            descs: self.buffers@,
            tail: self.tail,
            head: self.head,
        }
    }
}

impl BufRing {
    #[verifier::type_invariant]
    spec fn inv(self) -> bool {
        &&& self@.wf()
        &&& self.mask == self.ring_entries - 1
    }

    /// The mask that turns a ring index into a slot: one less than the
    /// number of descriptors.
    pub fn ring_mask(&self) -> (mask: u32)
        ensures
            mask == self@.entries - 1,
            self@.wf(),
    {
        proof {
            use_type_invariant(self);
            lemma_power_of_two_bits(self.ring_entries);
        }
        self.ring_entries - 1
    }

    /// Resets the tail to the start of the ring.
    pub fn ring_init(&mut self)
        ensures
            final(self)@ == old(self)@.with_tail(0),
            final(self)@.wf(),
    {
        proof {
            use_type_invariant(&*self);
        }
        self.tail = 0;
    }

    /// Publishes `tail` to the kernel, after the descriptors before it.
    pub fn ring_update_tail(&mut self, tail: u16)
        ensures
            final(self)@ == old(self)@.with_tail(tail),
            final(self)@.wf(),
    {
        proof {
            use_type_invariant(&*self);
        }
        self.tail = tail;
    }

    /// The descriptor slots.
    pub fn get_buffers(&self) -> (descs: &Vec<BufDesc>)
        ensures
            descs@ == self@.descs,
            self@.wf(),
    {
        proof {
            use_type_invariant(self);
        }
        &self.buffers
    }

    /// The published tail.
    pub fn get_tail(&self) -> (tail: usize)
        ensures
            tail == self@.tail,
    {
        self.tail as usize
    }

    /// Writes the descriptor `{addr, len, bid}` into the slot `offset` slots
    /// past the tail. The kernel does not see it before the tail moves.
    fn set_buffer_at_idx(&mut self, offset: usize, addr: u64, len: usize, bid: u16)
        requires
            offset <= 0xffff,
            len <= u32::MAX,
        ensures
            final(self)@ == old(self)@.set_at(
                offset as u32,
                BufDesc { addr, len: len as u32, bid },
            ),
            final(self)@.wf(),
    {
        proof {
            use_type_invariant(&*self);
            lemma_power_of_two_bits(self.ring_entries);
        }
        let index: u32 = self.tail as u32 + offset as u32;
        let slot: usize = cell_index(index, self.mask, false);
        self.buffers[slot] = BufDesc { addr, len: len as u32, bid };
    }

    /// Supplies every buffer of the pool: writes the descriptor of buffer
    /// `i` into the slot `i` slots past the tail, for every `i`, then
    /// publishes the tail once, moved on by the number of buffers.
    pub fn add_all_buffers(&mut self)
        ensures
            final(self)@ == old(self)@.add_all(),
            final(self)@.wf(),
            final(self)@.tail == advance16(old(self)@.tail, old(self)@.entries as int),
            forall|i: u32|
                i < old(self)@.entries ==> final(self)@.descs[#[trigger] old(self)@.slot_past_tail(
                    i,
                )] == old(self)@.desc_of(i as u16),
    {
        proof {
            use_type_invariant(&*self);
            assert forall|i: u32| i < old(self)@.entries implies old(self)@.add_all().descs[#[trigger] old(
                self,
            )@.slot_past_tail(i)] == old(self)@.desc_of(i as u16) by {
                lemma_fill_contents(old(self)@, old(self)@.entries as nat, i);
            }
        }
        let n: u32 = self.ring_entries;
        let size: usize = self.entry_size;
        let mut i: u32 = 0;
        while i < n
            invariant
                i <= n,
                n == old(self)@.entries,
                n <= MAX_ENTRIES,
                size == old(self)@.entry_size,
                size <= u32::MAX,
                self@ == old(self)@.fill(i as nat),
                self@.entries == n,
                self@.entry_size == size,
                self@.tail == old(self)@.tail,
            decreases n - i,
        {
            assert(i * size <= 0x8000 * 0xffff_ffff) by (nonlinear_arith)
                requires
                    i <= 0x8000,
                    size <= 0xffff_ffff,
            ;
            self.set_buffer_at_idx(i as usize, (i as u64) * (size as u64), size, i as u16);
            i = i + 1;
        }
        let new_tail: u16 = ((self.tail as u32 + n) % 0x1_0000) as u16;
        self.ring_update_tail(new_tail);
    }

    /// The kernel picks the next supplied buffer, if one is left.
    pub fn kernel_take_buffer(&mut self) -> (d: Option<BufDesc>)
        ensures
            d is None <==> old(self)@.available() == 0,
            d is None ==> final(self)@ == old(self)@,
            d is Some ==> d.unwrap() == old(self)@.next_buffer(),
            d is Some ==> final(self)@ == old(self)@.take(),
            final(self)@.wf(),
    {
        proof {
            use_type_invariant(&*self);
            lemma_power_of_two_bits(self.ring_entries);
        }
        if self.tail == self.head {
            None
        } else {
            let slot: usize = cell_index(self.head as u32, self.mask, false);
            let d: BufDesc = self.buffers[slot];
            self.head = if self.head == u16::MAX { 0 } else { self.head + 1 };
            Some(d)
        }
    }

    /// Supplies buffer `bid` again, once its data has been used.
    ///
    /// Fails, changing nothing, with `ConfigurationError` when the pool has
    /// no buffer `bid`, and with `ResourceExhausted` when every descriptor
    /// slot is taken.
    pub fn resupply(&mut self, bid: u16) -> (r: Result<(), RingError>)
        ensures
            bid >= old(self)@.entries ==> r == Err::<(), RingError>(
                RingError::ConfigurationError,
            ) && final(self)@ == old(self)@,
            bid < old(self)@.entries && old(self)@.full() ==> r == Err::<(), RingError>(
                RingError::ResourceExhausted,
            ) && final(self)@ == old(self)@,
            bid < old(self)@.entries && !old(self)@.full() ==> r is Ok && final(self)@ == old(
                self,
            )@.resupply(bid),
            final(self)@.wf(),
    {
        proof {
            use_type_invariant(&*self);
        }
        if bid as u32 >= self.ring_entries {
            return Err(RingError::ConfigurationError);
        }
        let available: u16 = if self.tail >= self.head {
            self.tail - self.head
        } else {
            u16::MAX - (self.head - self.tail) + 1
        };
        if available as u32 >= self.ring_entries {
            return Err(RingError::ResourceExhausted);
        }
        let size: usize = self.entry_size;
        assert(bid * size <= 0x8000 * 0xffff_ffff) by (nonlinear_arith)
            requires
                bid <= 0x8000,
                size <= 0xffff_ffff,
        ;
        self.set_buffer_at_idx(0, (bid as u64) * (size as u64), size, bid);
        let new_tail: u16 = if self.tail == u16::MAX { 0 } else { self.tail + 1 };
        self.ring_update_tail(new_tail);
        Ok(())
    }
}

/// Writing the first `n` buffers past the tail changes nothing but the
/// descriptor slots, and leaves the descriptor of buffer `i` in the slot `i`
/// slots past the tail.
pub proof fn lemma_fill_contents(s: BufRingState, n: nat, i: u32)
    requires
        s.wf(),
        n <= s.entries,
        i < n,
    ensures
        s.fill(n).descs[s.slot_past_tail(i)] == s.desc_of(i as u16),
        s.fill(n).descs.len() == s.descs.len(),
        s.fill(n) == (BufRingState { descs: s.fill(n).descs, ..s }),
    decreases n,
{
    lemma_fill_frame(s, n);
    lemma_fill_frame(s, (n - 1) as nat);
    lemma_slot_in_range(s, i);
    lemma_slot_in_range(s, (n - 1) as u32);
    if i < n - 1 {
        lemma_fill_contents(s, (n - 1) as nat, i);
        lemma_slots_distinct(s.tail as u32, i, (n - 1) as u32, s.entries);
    }
}

/// Writing buffers past the tail changes nothing but the descriptor slots.
pub proof fn lemma_fill_frame(s: BufRingState, n: nat)
    requires
        s.wf(),
    ensures
        s.fill(n).descs.len() == s.descs.len(),
        s.fill(n) == (BufRingState { descs: s.fill(n).descs, ..s }),
    decreases n,
{
    if n > 0 {
        lemma_fill_frame(s, (n - 1) as nat);
        lemma_slot_in_range(s, (n - 1) as u32);
    }
}

/// Every slot past the tail is a slot of the ring.
pub proof fn lemma_slot_in_range(s: BufRingState, offset: u32)
    requires
        s.wf(),
    ensures
        0 <= s.slot_past_tail(offset) < s.entries,
{
    lemma_power_of_two_bits(s.entries);
    let a = advance(s.tail as u32, offset);
    let m = sub_one(s.entries);
    let e = s.entries;
    assert(a & m < e) by (bit_vector)
        requires
            e != 0,
            m == (e - 1) as u32,
    ;
}

/// Every slot of the ring lies less than one lap past the tail.
pub proof fn lemma_slot_reached(s: BufRingState, j: u32) -> (i: u32)
    requires
        s.wf(),
        j < s.entries,
    ensures
        i < s.entries,
        s.slot_past_tail(i) == j,
{
    lemma_power_of_two_bits(s.entries);
    let t = s.tail as u32;
    let m = sub_one(s.entries);
    let e = s.entries;
    let i: u32 = ((j + 0x1_0000 - t) as u32) & m;
    lemma_advance_truncates(t, i);
    let a = advance(t, i);
    assert(i < e && a & m == j) by (bit_vector)
        requires
            e != 0 && e & m == 0,
            e <= 0x8000,
            m == (e - 1) as u32,
            j < e,
            t < 0x1_0000,
            i == ((j + 0x1_0000 - t) as u32) & m,
            a == (t + i) as u32,
    ;
    i
}

/// Supplying the whole pool to a ring just registered leaves the descriptor
/// of buffer `i` in slot `i`.
pub proof fn lemma_first_supply(group: u16, entries: u32, entry_size: usize)
    requires
        valid_pool(entries, entry_size),
    ensures
        BufRingState::fresh(group, entries, entry_size).add_all() == BufRingState::supplied(
            group,
            entries,
            entry_size,
        ),
{
    let s = BufRingState::fresh(group, entries, entry_size);
    let a = s.add_all();
    let t = BufRingState::supplied(group, entries, entry_size);
    lemma_power_of_two_bits(entries);
    lemma_fill_frame(s, entries as nat);
    assert forall|j: int| 0 <= j < entries implies a.descs[j] == t.descs[j] by {
        let i = j as u32;
        let m = sub_one(entries);
        lemma_fill_contents(s, entries as nat, i);
        assert(i & m == i) by (bit_vector)
            requires
                entries != 0 && entries & m == 0,
                m == (entries - 1) as u32,
                i < entries,
        ;
    }
    assert(a.descs =~= t.descs);
}

/// A vector of `n` zeroed descriptors.
fn zeroed_descs(n: usize) -> (v: Vec<BufDesc>)
    ensures
        v@ == Seq::new(n as nat, |i: int| BufDesc { addr: 0, len: 0, bid: 0 }),
{
    let mut v: Vec<BufDesc> = Vec::new();
    let mut i: usize = 0;
    while i < n
        invariant
            i <= n,
            v@ == Seq::new(i as nat, |j: int| BufDesc { addr: 0, len: 0, bid: 0 }),
        decreases n - i,
    {
        v.push(BufDesc { addr: 0, len: 0, bid: 0 });
        i = i + 1;
    }
    v
}

impl BufRing {
    /// Builds a buffer ring of `entries` buffers of `entry_size` bytes,
    /// registers it with `ring` under `group_id` and supplies every buffer.
    ///
    /// Fails with `ConfigurationError`, building and registering nothing,
    /// unless `entries` is a power of two that a buffer ring can hold and
    /// `entry_size` fits the length field of a descriptor. Fails with
    /// `RegistrationFailure`, carrying the kernel's error number, when the
    /// group id is taken; nothing is built then either.
    pub fn init_with_group_id(
        ring: &mut IoUring,
        group_id: u16,
        entries: u32,
        entry_size: usize,
    ) -> (r: Result<BufRing, RingError>)
        ensures
            !valid_pool(entries, entry_size) ==> {
                &&& r is Err
                &&& r->Err_0 == RingError::ConfigurationError
                &&& final(ring)@ == old(ring)@
            },
            valid_pool(entries, entry_size) && old(ring)@.groups.contains(group_id) ==> {
                &&& r is Err
                &&& r->Err_0 == RingError::RegistrationFailure(EEXIST)
                &&& final(ring)@ == old(ring)@
            },
            valid_pool(entries, entry_size) && !old(ring)@.groups.contains(group_id) ==> {
                &&& r is Ok
                &&& r->Ok_0@ == BufRingState::supplied(group_id, entries, entry_size)
                &&& r->Ok_0@.wf()
                &&& final(ring)@ == old(ring)@.register(group_id)
            },
            final(ring)@.wf(),
    {
        if entries > MAX_ENTRIES || !is_power_of_two_u32(entries) || entry_size > u32::MAX as usize {
            let _ = ring.entries();
            return Err(RingError::ConfigurationError);
        }
        let out: i32 = ring.io_uring_register_buf_ring(group_id);
        if out != 0 {
            return Err(RingError::RegistrationFailure(errno_from_status(out)));
        }
        proof {
            lemma_power_of_two_bits(entries);
        }
        let mut ret = BufRing {
            buffers: zeroed_descs(entries as usize),
            ring_entries: entries,
            bgid: group_id,
            entry_size,
            tail: 0,
            head: 0,
            mask: entries - 1,
        };
        ret.ring_init();
        ret.add_all_buffers();
        proof {
            lemma_first_supply(group_id, entries, entry_size);
        }
        Ok(ret)
    }
}

/// After the whole pool was supplied to a ring that held nothing, any number
/// of rounds of use succeed one after the other, and each moves the tail on
/// by one: `n` rounds leave it advanced by the number of buffers plus `n`.
pub proof fn lemma_supply_cycles(s: BufRingState, n: nat)
    requires
        s.wf(),
        s.available() == 0,
    ensures
        forall|k: nat| k < n ==> #[trigger] s.add_all().cycles(k).cycle_succeeds(),
        s.add_all().cycles(n).tail == advance16(s.tail, s.entries + n),
        s.add_all().cycles(n).wf(),
{
    let a = s.add_all();
    lemma_supply_starts_turning(s);
    lemma_turning_cycles(a, n);
    assert forall|k: nat| k < n implies #[trigger] a.cycles(k).cycle_succeeds() by {
        lemma_turning_cycles(a, k);
    }
    lemma_advance16_adds(s.tail, s.entries as int, n as int);
}

/// As many rounds of use as the pool has buffers, after the whole pool was
/// supplied once, leave the tail advanced by exactly twice the number of
/// buffers.
pub proof fn lemma_full_turnover(s: BufRingState)
    requires
        s.wf(),
        s.available() == 0,
    ensures
        s.add_all().cycles(s.entries as nat).tail == advance16(s.tail, 2 * s.entries),
{
    lemma_supply_cycles(s, s.entries as nat);
}

/// Moving a 16-bit index on twice is moving it on by the sum.
pub proof fn lemma_advance16_adds(index: u16, a: int, b: int)
    requires
        0 <= a,
        0 <= b,
    ensures
        advance16(advance16(index, a), b) == advance16(index, a + b),
{
    vstd::arithmetic::div_mod::lemma_add_mod_noop_right(b, index + a, 0x1_0000);
    assert((b + (index + a) % 0x1_0000) % 0x1_0000 == (b + (index + a)) % 0x1_0000);
}

/// The ring is full of descriptors of its own pool.
spec fn turning(s: BufRingState) -> bool {
    &&& s.wf()
    &&& s.available() == s.entries
    &&& forall|j: int| 0 <= j < s.entries ==> (#[trigger] s.descs[j]).bid < s.entries
}

proof fn lemma_turning_cycles(a: BufRingState, n: nat)
    requires
        turning(a),
    ensures
        turning(a.cycles(n)),
        a.cycles(n).cycle_succeeds(),
        a.cycles(n).tail == advance16(a.tail, n as int),
        a.cycles(n).entries == a.entries,
    decreases n,
{
    if n == 0 {
        lemma_turning_succeeds(a);
    } else {
        lemma_turning_cycles(a, (n - 1) as nat);
        let p = a.cycles((n - 1) as nat);
        lemma_cycle_keeps_turning(p);
        lemma_turning_succeeds(p.cycle());
        lemma_advance16_adds(a.tail, n - 1, 1);
    }
}

proof fn lemma_supply_starts_turning(s: BufRingState)
    requires
        s.wf(),
        s.available() == 0,
    ensures
        turning(s.add_all()),
        s.add_all().tail == advance16(s.tail, s.entries as int),
        s.add_all().entries == s.entries,
{
    let a = s.add_all();
    lemma_fill_frame(s, s.entries as nat);
    assert forall|j: int| 0 <= j < s.entries implies (#[trigger] a.descs[j]).bid < s.entries by {
        let i = lemma_slot_reached(s, j as u32);
        lemma_fill_contents(s, s.entries as nat, i);
    }
}

proof fn lemma_turning_succeeds(s: BufRingState)
    requires
        turning(s),
    ensures
        s.cycle_succeeds(),
{
    lemma_power_of_two_bits(s.entries);
    let h = s.head as u32;
    let m = sub_one(s.entries);
    let e = s.entries;
    assert(h & m < e) by (bit_vector)
        requires
            e != 0,
            m == (e - 1) as u32,
    ;
}

proof fn lemma_cycle_keeps_turning(s: BufRingState)
    requires
        turning(s),
    ensures
        turning(s.cycle()),
        s.cycle().tail == advance16(s.tail, 1),
        s.cycle().entries == s.entries,
{
    lemma_turning_succeeds(s);
    lemma_slot_in_range(s.take(), 0);
}

} // verus!
