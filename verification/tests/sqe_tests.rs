use libiouring::ring::IoUring;
use libiouring::sqe::{flags_to_bits, offset_to_bits, truncate_len, SqEntry, Sqe};

fn blank() -> SqEntry {
    SqEntry {
        opcode: 0,
        flags: 0,
        ioprio: 0,
        fd: 0,
        off: 0,
        addr: 0,
        len: 0,
        op_flags: 0,
        user_data: 0,
        buf_index: 0,
        personality: 0,
        file_index: 0,
        addr3: 0,
    }
}

fn dirty() -> SqEntry {
    SqEntry {
        opcode: 0xaa,
        flags: 0xff,
        ioprio: 0xbbbb,
        fd: 99,
        off: 0x1111,
        addr: 0x2222,
        len: 0x3333,
        op_flags: 0x4444,
        user_data: 0x5555,
        buf_index: 0x66,
        personality: 0x77,
        file_index: 88,
        addr3: 0x9999,
    }
}

#[test]
fn new_entry_is_zeroed() {
    assert_eq!(SqEntry::new(), blank());
}

#[test]
fn tag_round_trips_through_the_handle() {
    for tag in [0u64, 1, 22, 0x8000_0000_0000_0000, u64::MAX - 1, u64::MAX] {
        let mut e = blank();
        let s = Sqe { sqe: &mut e }.set_sqe_data(tag);
        assert_eq!(s.get_sqe_data(), tag);
        s.finalize();
        assert_eq!(e.user_data, tag);
    }
}

#[test]
fn prepare_overwrites_everything_but_the_tag() {
    let mut e = dirty();
    Sqe::io_uring_prep_rw(&mut e, 22, 7, 0x1000, 512, 4096);
    assert_eq!(
        e,
        SqEntry { opcode: 22, fd: 7, addr: 0x1000, len: 512, off: 4096, user_data: 0x5555, ..blank() }
    );
}

#[test]
fn flags_accumulate() {
    let mut e = blank();
    Sqe { sqe: &mut e }.set_fixed_file().finalize();
    assert_eq!(e.flags, 1);
    Sqe { sqe: &mut e }.set_drain().finalize();
    assert_eq!(e.flags, 3);
    Sqe { sqe: &mut e }.set_link().finalize();
    assert_eq!(e.flags, 7);
    Sqe { sqe: &mut e }.set_hard_link().finalize();
    assert_eq!(e.flags, 15);
    Sqe { sqe: &mut e }.set_async().finalize();
    assert_eq!(e.flags, 31);
    Sqe { sqe: &mut e }.set_buffer_select().finalize();
    assert_eq!(e.flags, 63);
    Sqe { sqe: &mut e }.set_no_cqe().finalize();
    assert_eq!(e.flags, 127);
    Sqe { sqe: &mut e }.set_link().finalize();
    assert_eq!(e.flags, 127);
}

#[test]
fn each_flag_sets_its_own_bit() {
    let mut e = blank();
    Sqe { sqe: &mut e }.set_link().finalize();
    assert_eq!(e.flags, 4);
    e = blank();
    Sqe { sqe: &mut e }.set_hard_link().finalize();
    assert_eq!(e.flags, 8);
    e = blank();
    Sqe { sqe: &mut e }.set_async().finalize();
    assert_eq!(e.flags, 16);
    e = blank();
    Sqe { sqe: &mut e }.set_drain().finalize();
    assert_eq!(e.flags, 2);
    e = blank();
    Sqe { sqe: &mut e }.set_no_cqe().finalize();
    assert_eq!(e.flags, 64);
    e = blank();
    Sqe { sqe: &mut e }.set_buffer_select().finalize();
    assert_eq!(e.flags, 32);
    e = blank();
    Sqe { sqe: &mut e }.set_fixed_file().finalize();
    assert_eq!(e.flags, 1);
}

#[test]
fn preparing_clears_flags_set_before() {
    let mut e = blank();
    Sqe { sqe: &mut e }.set_link().set_sqe_data(5).io_uring_prep_nop().finalize();
    assert_eq!(e.flags, 0);
    assert_eq!(e.user_data, 5);
    Sqe { sqe: &mut e }.io_uring_prep_nop().set_link().set_async().finalize();
    assert_eq!(e.flags, 20);
}

#[test]
fn accept_and_multishot_accept() {
    let mut e = dirty();
    Sqe { sqe: &mut e }.io_uring_prep_accept(5, 0x7000, 0x7100, 0x800).finalize();
    assert_eq!(
        e,
        SqEntry {
            opcode: 13,
            fd: 5,
            addr: 0x7000,
            off: 0x7100,
            op_flags: 0x800,
            user_data: 0x5555,
            ..blank()
        }
    );
    let mut m = dirty();
    Sqe { sqe: &mut m }.io_uring_prep_multishot_accept(5, 0, 0, 0).finalize();
    assert_eq!(m, SqEntry { opcode: 13, fd: 5, ioprio: 1, user_data: 0x5555, ..blank() });
}

#[test]
fn splice_and_tee() {
    let mut e = dirty();
    Sqe { sqe: &mut e }.io_uring_prep_splice(3, -1, 4, 100, 4096, 2).finalize();
    assert_eq!(
        e,
        SqEntry {
            opcode: 30,
            fd: 4,
            off: 100,
            addr: u64::MAX,
            len: 4096,
            op_flags: 2,
            file_index: 3,
            user_data: 0x5555,
            ..blank()
        }
    );
    let mut f = blank();
    Sqe { sqe: &mut f }.io_uring_prep_splice(3, 64, 4, -1, 10, 0).finalize();
    assert_eq!(
        f,
        SqEntry { opcode: 30, fd: 4, off: u64::MAX, addr: 64, len: 10, file_index: 3, ..blank() }
    );
    let mut t = dirty();
    Sqe { sqe: &mut t }.io_uring_prep_tee(8, 9, 77, 1).finalize();
    assert_eq!(
        t,
        SqEntry {
            opcode: 33,
            fd: 9,
            len: 77,
            op_flags: 1,
            file_index: 8,
            user_data: 0x5555,
            ..blank()
        }
    );
}

#[test]
fn nop_fsync_cancel_connect() {
    let mut e = dirty();
    Sqe { sqe: &mut e }.io_uring_prep_nop().finalize();
    assert_eq!(e, SqEntry { opcode: 0, fd: -1, user_data: 0x5555, ..blank() });
    let mut f = blank();
    Sqe { sqe: &mut f }.io_uring_prep_fsync(6, 1).finalize();
    assert_eq!(f, SqEntry { opcode: 3, fd: 6, op_flags: 1, ..blank() });
    let mut c = blank();
    Sqe { sqe: &mut c }.io_uring_prep_cancel(u64::MAX - 3, 4).set_sqe_data(1).finalize();
    assert_eq!(
        c,
        SqEntry { opcode: 14, fd: -1, addr: u64::MAX - 3, op_flags: 4, user_data: 1, ..blank() }
    );
    let mut n = blank();
    Sqe { sqe: &mut n }.io_uring_prep_connect(11, 0xabc0, 16).finalize();
    assert_eq!(n, SqEntry { opcode: 16, fd: 11, addr: 0xabc0, off: 16, ..blank() });
}

#[test]
fn vectored_reads_and_writes() {
    let mut e = blank();
    Sqe { sqe: &mut e }.io_uring_prep_readv(3, 0x4000, 2, 8192).finalize();
    assert_eq!(e, SqEntry { opcode: 1, fd: 3, addr: 0x4000, len: 2, off: 8192, ..blank() });
    Sqe { sqe: &mut e }.io_uring_prep_readv2(3, 0x4000, 2, 8192, 0x10).finalize();
    assert_eq!(
        e,
        SqEntry { opcode: 1, fd: 3, addr: 0x4000, len: 2, off: 8192, op_flags: 0x10, ..blank() }
    );
    Sqe { sqe: &mut e }.io_uring_prep_writev(3, 0x4000, 2, 8192).finalize();
    assert_eq!(e, SqEntry { opcode: 2, fd: 3, addr: 0x4000, len: 2, off: 8192, ..blank() });
    Sqe { sqe: &mut e }.io_uring_prep_writev2(3, 0x4000, 2, 8192, -1).finalize();
    assert_eq!(
        e,
        SqEntry {
            opcode: 2,
            fd: 3,
            addr: 0x4000,
            len: 2,
            off: 8192,
            op_flags: u32::MAX,
            ..blank()
        }
    );
}

#[test]
fn plain_and_fixed_reads_and_writes() {
    let mut e = blank();
    Sqe { sqe: &mut e }.io_uring_prep_read(3, 0x4000, 100, 7).finalize();
    assert_eq!(e, SqEntry { opcode: 22, fd: 3, addr: 0x4000, len: 100, off: 7, ..blank() });
    Sqe { sqe: &mut e }.io_uring_prep_write(3, 0x4000, 100, 7).finalize();
    assert_eq!(e, SqEntry { opcode: 23, fd: 3, addr: 0x4000, len: 100, off: 7, ..blank() });
    Sqe { sqe: &mut e }.io_uring_prep_read_fixed(3, 0x4000, 100, 7, 12).finalize();
    assert_eq!(
        e,
        SqEntry { opcode: 4, fd: 3, addr: 0x4000, len: 100, off: 7, buf_index: 12, ..blank() }
    );
    Sqe { sqe: &mut e }.io_uring_prep_write_fixed(3, 0x4000, 100, 7, 65535).finalize();
    assert_eq!(
        e,
        SqEntry { opcode: 5, fd: 3, addr: 0x4000, len: 100, off: 7, buf_index: 65535, ..blank() }
    );
}

#[test]
fn messages() {
    let mut e = blank();
    Sqe { sqe: &mut e }.io_uring_prep_recvmsg(3, 0x9000, 0x40).finalize();
    assert_eq!(e, SqEntry { opcode: 10, fd: 3, addr: 0x9000, len: 1, op_flags: 0x40, ..blank() });
    Sqe { sqe: &mut e }.io_uring_prep_recvmsg_multishot(3, 0x9000, 0x40).finalize();
    assert_eq!(
        e,
        SqEntry { opcode: 10, fd: 3, addr: 0x9000, len: 1, op_flags: 0x40, ioprio: 1, ..blank() }
    );
    Sqe { sqe: &mut e }.io_uring_prep_sendmsg(3, 0x9000, 0x4000).finalize();
    assert_eq!(e, SqEntry { opcode: 9, fd: 3, addr: 0x9000, len: 1, op_flags: 0x4000, ..blank() });
}

#[test]
fn signed_fields_keep_their_bits() {
    assert_eq!(offset_to_bits(0), 0);
    assert_eq!(offset_to_bits(1), 1);
    assert_eq!(offset_to_bits(-1), u64::MAX);
    assert_eq!(offset_to_bits(-2), u64::MAX - 1);
    assert_eq!(offset_to_bits(i64::MAX), i64::MAX as u64);
    assert_eq!(offset_to_bits(i64::MIN), 1u64 << 63);
    assert_eq!(flags_to_bits(0), 0);
    assert_eq!(flags_to_bits(7), 7);
    assert_eq!(flags_to_bits(-1), u32::MAX);
    assert_eq!(flags_to_bits(i32::MIN), 1u32 << 31);
    assert_eq!(flags_to_bits(i32::MAX), i32::MAX as u32);
}

#[test]
fn byte_counts_are_cut_to_the_length_field() {
    assert_eq!(truncate_len(0), 0);
    assert_eq!(truncate_len(4096), 4096);
    assert_eq!(truncate_len(u32::MAX as usize), u32::MAX);
    if usize::BITS > 32 {
        let big = (u32::MAX as usize).wrapping_add(6);
        assert_eq!(truncate_len(big), 5);
        let mut e = blank();
        Sqe { sqe: &mut e }.io_uring_prep_read(1, 0, big, 0).finalize();
        assert_eq!(e.len, 5);
    }
}

#[test]
fn handle_writes_into_the_ring_slot() {
    let mut ring = IoUring::init(4).unwrap();
    let slot = ring.io_uring_get_sqe().unwrap();
    assert_eq!(*slot.get_sqe(), blank());
    slot.io_uring_prep_read(9, 0x100, 64, 0).set_sqe_data(41).set_fixed_file().finalize();
    ring.submit();
    assert_eq!(
        ring.kernel_take_sqe().unwrap(),
        SqEntry { opcode: 22, fd: 9, addr: 0x100, len: 64, user_data: 41, flags: 1, ..blank() }
    );
}
