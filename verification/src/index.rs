//! Index arithmetic shared by every ring: power-of-two capacities, wrapping
//! 32-bit counters and masked slot selection.

use vstd::prelude::*;
use vstd::arithmetic::power2::{pow2, lemma2_to64, lemma_pow2_strictly_increases};

verus! {

/// Largest number of submission entries a ring may have.
pub const MAX_ENTRIES: u32 = 32768;

/// Setup flag: a kernel thread polls the submission queue.
pub const IORING_SETUP_SQPOLL: u32 = 2;

/// Setup flag: submission entries are twice the regular size.
pub const IORING_SETUP_SQE128: u32 = 1024;

/// Setup flag: completion entries are twice the regular size.
pub const IORING_SETUP_CQE32: u32 = 2048;

/// `n` is a power of two.
pub open spec fn is_power_of_two(n: int) -> bool {
    exists|k: nat| pow2(k) == n
}

/// Number of entries between `head` and `tail`, both free-running 32-bit
/// counters: `tail - head` modulo 2^32.
pub open spec fn distance(tail: u32, head: u32) -> u32 {
    if tail >= head {
        (tail - head) as u32
    } else {
        (tail - head + 0x1_0000_0000) as u32
    }
}

/// The counter `index` moved forward by `delta`, modulo 2^32.
pub open spec fn advance(index: u32, delta: u32) -> u32 {
    if index + delta > u32::MAX {
        (index + delta - 0x1_0000_0000) as u32
    } else {
        (index + delta) as u32
    }
}

/// Physical slot of a logical index in a ring whose mask is `mask`.
pub open spec fn slot_of(index: u32, mask: u32) -> int {
    (index & mask) as int
}

/// Cell of the entry array that holds the slot of `index`; with double-size
/// entries every slot spans two cells.
pub open spec fn cell_of(index: u32, mask: u32, wide: bool) -> int {
    if wide {
        2 * slot_of(index, mask)
    } else {
        slot_of(index, mask)
    }
}

/// How a shared index is read or written with respect to the other party.
#[derive(Debug, Clone, Copy, PartialEq, Eq, Structural)]
pub enum MemoryOrder {
    /// No synchronisation: the other party changes the index only inside a
    /// call that this thread makes.
    Relaxed,
    /// Later reads see everything the other party published before it
    /// wrote the index.
    Acquire,
    /// Earlier writes become visible before the index does.
    Release,
    /// Both of the above.
    AcqRel,
}

/// The places where caller and kernel meet on a shared index.
#[derive(Debug, Clone, Copy, PartialEq, Eq, Structural)]
pub enum Boundary {
    /// The caller reads the submission head, which the kernel moves.
    SubmissionHeadLoad,
    /// The caller publishes the submission tail.
    SubmissionTailStore,
    /// The caller reads the flags that the kernel raises on the submission
    /// queue.
    SubmissionFlagsLoad,
    /// The caller reads the completion tail, which the kernel moves.
    CompletionTailLoad,
    /// The caller reads the completion head, which only the caller moves.
    CompletionHeadLoad,
    /// The caller moves the completion head to return records.
    CompletionHeadAdvance,
    /// The caller publishes the tail of a buffer ring.
    BufferTailStore,
}

/// The powers of two are exactly the 32-bit values with a single bit set.
pub proof fn lemma_power_of_two_bits(n: u32)
    ensures
        is_power_of_two(n as int) <==> (n != 0 && n & sub_one(n) == 0),
{
    lemma2_to64();
    let single = n != 0 && n & sub_one(n) == 0;
    assert(single <==> (n == 0x1 || n == 0x2 || n == 0x4 || n == 0x8 || n == 0x10 || n == 0x20
        || n == 0x40 || n == 0x80 || n == 0x100 || n == 0x200 || n == 0x400 || n == 0x800 || n
        == 0x1000 || n == 0x2000 || n == 0x4000 || n == 0x8000 || n == 0x10000 || n == 0x20000
        || n == 0x40000 || n == 0x80000 || n == 0x100000 || n == 0x200000 || n == 0x400000 || n
        == 0x800000 || n == 0x1000000 || n == 0x2000000 || n == 0x4000000 || n == 0x8000000 || n
        == 0x10000000 || n == 0x20000000 || n == 0x40000000 || n == 0x80000000)) by {
        let m = sub_one(n);
        assert((n != 0 && n & m == 0) <==> (n == 0x1 || n == 0x2 || n == 0x4 || n == 0x8 || n
            == 0x10 || n == 0x20 || n == 0x40 || n == 0x80 || n == 0x100 || n == 0x200 || n
            == 0x400 || n == 0x800 || n == 0x1000 || n == 0x2000 || n == 0x4000 || n == 0x8000
            || n == 0x10000 || n == 0x20000 || n == 0x40000 || n == 0x80000 || n == 0x100000 || n
            == 0x200000 || n == 0x400000 || n == 0x800000 || n == 0x1000000 || n == 0x2000000
            || n == 0x4000000 || n == 0x8000000 || n == 0x10000000 || n == 0x20000000 || n
            == 0x40000000 || n == 0x80000000)) by (bit_vector)
            requires
                m == if n == 0 { 0xffff_ffffu32 } else { (n - 1) as u32 },
        ;
    }
    if single {
        let k: nat = if n == 0x1 { 0 } else if n == 0x2 { 1 } else if n == 0x4 { 2 } else if n == 0x8 { 3 }
            else if n == 0x10 { 4 } else if n == 0x20 { 5 } else if n == 0x40 { 6 } else if n == 0x80 { 7 }
            else if n == 0x100 { 8 } else if n == 0x200 { 9 } else if n == 0x400 { 10 } else if n == 0x800 { 11 }
            else if n == 0x1000 { 12 } else if n == 0x2000 { 13 } else if n == 0x4000 { 14 } else if n == 0x8000 { 15 }
            else if n == 0x10000 { 16 } else if n == 0x20000 { 17 } else if n == 0x40000 { 18 } else if n == 0x80000 { 19 }
            else if n == 0x100000 { 20 } else if n == 0x200000 { 21 } else if n == 0x400000 { 22 } else if n == 0x800000 { 23 }
            else if n == 0x1000000 { 24 } else if n == 0x2000000 { 25 } else if n == 0x4000000 { 26 } else if n == 0x8000000 { 27 }
            else if n == 0x10000000 { 28 } else if n == 0x20000000 { 29 } else if n == 0x40000000 { 30 } else { 31 };
        assert(pow2(k) == n);
    }
    if is_power_of_two(n as int) {
        let k = choose|k: nat| pow2(k) == n as int;
        if k >= 32 {
            if k > 32 {
                lemma_pow2_strictly_increases(32, k);
            }
            assert(false);
        }
        assert(k == 0 || k == 1 || k == 2 || k == 3 || k == 4 || k == 5 || k == 6 || k == 7 || k
            == 8 || k == 9 || k == 10 || k == 11 || k == 12 || k == 13 || k == 14 || k == 15 || k
            == 16 || k == 17 || k == 18 || k == 19 || k == 20 || k == 21 || k == 22 || k == 23
            || k == 24 || k == 25 || k == 26 || k == 27 || k == 28 || k == 29 || k == 30 || k
            == 31);
        assert(single);
    }
}

/// `n - 1` as the hardware computes it, wrapping at zero.
pub open spec fn sub_one(n: u32) -> u32 {
    if n == 0 {
        0xffff_ffffu32
    } else {
        (n - 1) as u32
    }
}

/// Decides whether `n` is a power of two.
pub fn is_power_of_two_u32(n: u32) -> (b: bool)
    ensures
        b <==> is_power_of_two(n as int),
    opens_invariants none
    no_unwind
{
    proof {
        lemma_power_of_two_bits(n);
    }
    n != 0 && n & (n - 1) == 0
}

/// `tail - head` with unsigned wraparound.
pub fn ring_distance(tail: u32, head: u32) -> (d: u32)
    ensures
        d == distance(tail, head),
    opens_invariants none
    no_unwind
{
    if tail >= head {
        tail - head
    } else {
        u32::MAX - (head - tail) + 1
    }
}

/// `index + delta` with unsigned wraparound.
pub fn advance_index(index: u32, delta: u32) -> (next: u32)
    ensures
        next == advance(index, delta),
    opens_invariants none
    no_unwind
{
    if delta <= u32::MAX - index {
        index + delta
    } else {
        delta - (u32::MAX - index) - 1
    }
}

/// Selects the entry-array cell of a logical index by masking.
pub fn cell_index(index: u32, mask: u32, wide: bool) -> (cell: usize)
    requires
        wide ==> mask <= 0x7fff_ffff,
    ensures
        cell == cell_of(index, mask, wide),
        !wide ==> cell <= mask,
        wide ==> cell <= 2 * mask && cell % 2 == 0,
    opens_invariants none
    no_unwind
{
    let slot: u32 = index & mask;
    assert(slot <= mask) by (bit_vector)
        requires
            slot == index & mask,
    ;
    if wide {
        (slot * 2) as usize
    } else {
        slot as usize
    }
}

/// The order that the protocol asks for at `boundary`, on a ring set up with
/// `setup_flags`.
///
/// An index is read with acquire ordering when the other party may move it
/// at any time, and relaxed when only this side writes it or the other side
/// moves it inside a call made here. Progress is published with release or
/// acquire-release ordering, so that the other party sees the entries before
/// it sees the index.
pub open spec fn order_at(boundary: Boundary, setup_flags: u32) -> MemoryOrder {
    match boundary {
        Boundary::SubmissionHeadLoad => if setup_flags & IORING_SETUP_SQPOLL != 0 {
            MemoryOrder::Acquire
        } else {
            MemoryOrder::Relaxed
        },
        Boundary::SubmissionTailStore => MemoryOrder::Release,
        Boundary::SubmissionFlagsLoad => MemoryOrder::Relaxed,
        Boundary::CompletionTailLoad => MemoryOrder::Acquire,
        Boundary::CompletionHeadLoad => MemoryOrder::Relaxed,
        Boundary::CompletionHeadAdvance => MemoryOrder::AcqRel,
        Boundary::BufferTailStore => MemoryOrder::Release,
    }
}

/// Chooses the memory order for an access to a shared index.
pub fn memory_order(boundary: Boundary, setup_flags: u32) -> (order: MemoryOrder)
    ensures
        order == order_at(boundary, setup_flags),
{
    match boundary {
        Boundary::SubmissionHeadLoad => {
            if setup_flags & IORING_SETUP_SQPOLL != 0 {
                MemoryOrder::Acquire
            } else {
                MemoryOrder::Relaxed
            }
        },
        Boundary::SubmissionTailStore => MemoryOrder::Release,
        Boundary::SubmissionFlagsLoad => MemoryOrder::Relaxed,
        Boundary::CompletionTailLoad => MemoryOrder::Acquire,
        Boundary::CompletionHeadLoad => MemoryOrder::Relaxed,
        Boundary::CompletionHeadAdvance => MemoryOrder::AcqRel,
        Boundary::BufferTailStore => MemoryOrder::Release,
    }
}

/// Advancing a counter is addition cut down to 32 bits.
pub proof fn lemma_advance_truncates(index: u32, delta: u32)
    ensures
        advance(index, delta) == (index + delta) as u32,
{
    let a = advance(index, delta);
    assert(a == (index + delta) as u32) by (bit_vector)
        requires
            a == if index + delta > 0xffff_ffff {
                (index + delta - 0x1_0000_0000) as u32
            } else {
                (index + delta) as u32
            },
    ;
}

/// Within one lap of a ring, distinct logical indices have distinct slots.
pub proof fn lemma_slots_distinct(base: u32, i: u32, j: u32, entries: u32)
    requires
        is_power_of_two(entries as int),
        i < entries,
        j < entries,
        i != j,
    ensures
        slot_of(advance(base, i), sub_one(entries)) != slot_of(advance(base, j), sub_one(entries)),
{
    lemma_power_of_two_bits(entries);
    let a = advance(base, i);
    let b = advance(base, j);
    let m = sub_one(entries);
    lemma_advance_truncates(base, i);
    lemma_advance_truncates(base, j);
    assert(a & m != b & m) by (bit_vector)
        requires
            entries != 0 && entries & m == 0,
            m == (entries - 1) as u32,
            i < entries,
            j < entries,
            i != j,
            a == (base + i) as u32,
            b == (base + j) as u32,
    ;
}

} // verus!
