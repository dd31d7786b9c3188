use libiouring::cqe::CqEntry;
use libiouring::error::{check_status, errno_from_status, RingError};
use libiouring::index::{
    advance_index, cell_index, is_power_of_two_u32, memory_order, ring_distance, Boundary,
    MemoryOrder, IORING_SETUP_SQE128, IORING_SETUP_SQPOLL,
};
use libiouring::ring::{IoUring, IORING_FEAT_EXT_ARG};

fn is_config_error(r: Result<IoUring, RingError>) -> bool {
    match r {
        Err(e) => e == RingError::ConfigurationError,
        Ok(_) => false,
    }
}

#[test]
fn init_rejects_capacity_that_is_no_power_of_two() {
    for depth in [3isize, 5, 6, 7, 9, 12, 33, 100, 1000, 32767] {
        assert!(is_config_error(IoUring::init(depth)), "depth {}", depth);
    }
}

#[test]
fn init_rejects_zero_and_negative_capacity() {
    assert!(is_config_error(IoUring::init(0)));
    assert!(is_config_error(IoUring::init(-1)));
    assert!(is_config_error(IoUring::init(-32)));
    assert!(is_config_error(IoUring::init(isize::MIN)));
}

#[test]
fn init_rejects_capacity_beyond_the_largest_ring() {
    assert!(is_config_error(IoUring::init(65536)));
    assert!(is_config_error(IoUring::init(32769)));
    assert!(is_config_error(IoUring::init(isize::MAX)));
}

#[test]
fn init_accepts_every_power_of_two_up_to_the_largest_ring() {
    let mut depth: isize = 1;
    while depth <= 32768 {
        let mut ring = IoUring::init(depth).unwrap();
        assert_eq!(ring.entries(), depth as u32);
        assert_eq!(ring.io_uring_sq_available(), depth as u32);
        depth *= 2;
    }
}

#[test]
fn new_ring_is_empty() {
    let mut ring = IoUring::init(32).unwrap();
    assert_eq!(ring.entries(), 32);
    assert_eq!(ring.setup_flags(), 0);
    assert_eq!(ring.features(), 0);
    assert_eq!(ring.io_uring_sq_ready(), 0);
    assert_eq!(ring.io_uring_sq_available(), 32);
    assert_eq!(ring.io_uring_cq_ready(), 0);
    assert!(!ring.io_uring_cq_has_overflow());
    assert!(ring.kernel_take_sqe().is_none());
}

#[test]
fn init_with_params_keeps_flags_and_features() {
    let ring = IoUring::init_with_params(8, IORING_SETUP_SQE128, IORING_FEAT_EXT_ARG).unwrap();
    assert_eq!(ring.setup_flags(), IORING_SETUP_SQE128);
    assert_eq!(ring.features(), IORING_FEAT_EXT_ARG);
    assert!(is_config_error(IoUring::init_with_params(10, 0, 0)));
    assert!(is_config_error(IoUring::init_at(10, 0, 0, 7)));
}

#[test]
fn acquisition_past_capacity_finds_no_slot() {
    for depth in [1isize, 2, 8, 32] {
        let mut ring = IoUring::init(depth).unwrap();
        for i in 0..depth {
            let slot = ring.io_uring_get_sqe();
            assert!(slot.is_some(), "acquisition {} of {}", i + 1, depth);
            slot.unwrap().io_uring_prep_nop().finalize();
        }
        assert!(ring.io_uring_get_sqe().is_none());
        assert!(ring.io_uring_get_sqe().is_none());
        assert_eq!(ring.io_uring_sq_ready(), depth as u32);
        assert_eq!(ring.io_uring_sq_available(), 0);
    }
}

#[test]
fn submit_alone_frees_no_slot() {
    let mut ring = IoUring::init(2).unwrap();
    ring.io_uring_get_sqe().unwrap().finalize();
    ring.io_uring_get_sqe().unwrap().finalize();
    assert_eq!(ring.submit(), 2);
    assert!(ring.io_uring_get_sqe().is_none());
    assert!(ring.kernel_take_sqe().is_some());
    assert!(ring.io_uring_get_sqe().is_some());
    assert!(ring.io_uring_get_sqe().is_none());
}

#[test]
fn submit_publishes_what_is_staged() {
    let mut ring = IoUring::init(8).unwrap();
    assert_eq!(ring.submit(), 0);
    ring.io_uring_get_sqe().unwrap().set_sqe_data(1).finalize();
    ring.io_uring_get_sqe().unwrap().set_sqe_data(2).finalize();
    assert!(ring.kernel_take_sqe().is_none());
    assert_eq!(ring.submit(), 2);
    ring.io_uring_get_sqe().unwrap().set_sqe_data(3).finalize();
    assert_eq!(ring.kernel_take_sqe().unwrap().user_data, 1);
    assert_eq!(ring.kernel_take_sqe().unwrap().user_data, 2);
    assert!(ring.kernel_take_sqe().is_none());
    assert_eq!(ring.io_uring_sq_ready(), 1);
    assert_eq!(ring.submit(), 1);
    assert_eq!(ring.kernel_take_sqe().unwrap().user_data, 3);
    assert_eq!(ring.io_uring_sq_ready(), 0);
    assert_eq!(ring.io_uring_sq_available(), 8);
}

#[test]
fn slot_keeps_what_an_earlier_lap_left() {
    let mut ring = IoUring::init(2).unwrap();
    ring.io_uring_get_sqe().unwrap().set_sqe_data(77).io_uring_prep_nop().set_link().finalize();
    ring.io_uring_get_sqe().unwrap().finalize();
    ring.submit();
    ring.kernel_take_sqe();
    ring.kernel_take_sqe();
    let slot = ring.io_uring_get_sqe().unwrap();
    assert_eq!(slot.get_sqe_data(), 77);
    assert_eq!(slot.get_sqe().flags, 4);
}

#[test]
fn pending_completion_count_wraps_with_the_indices() {
    let mut ring = IoUring::init_at(8, 0, 0, u32::MAX - 1).unwrap();
    assert_eq!(ring.io_uring_cq_ready(), 0);
    for i in 0..5 {
        assert!(ring.kernel_post_cqe(CqEntry { user_data: i, res: 0, flags: 0 }));
        assert_eq!(ring.io_uring_cq_ready(), i as u32 + 1);
    }
    assert_eq!(ring.io_uring_cq_ready(), 5);
    assert_eq!(ring.io_uring_cq_ready(), 3u32.wrapping_sub(u32::MAX - 1));
}

#[test]
fn pending_submission_count_wraps_with_the_indices() {
    let mut ring = IoUring::init_at(4, 0, 0, u32::MAX).unwrap();
    for i in 0..4u64 {
        ring.io_uring_get_sqe().unwrap().set_sqe_data(i).finalize();
    }
    assert!(ring.io_uring_get_sqe().is_none());
    assert_eq!(ring.io_uring_sq_ready(), 4);
    assert_eq!(ring.io_uring_sq_available(), 0);
    assert_eq!(ring.submit(), 4);
    for i in 0..4u64 {
        assert_eq!(ring.kernel_take_sqe().unwrap().user_data, i);
    }
    assert_eq!(ring.io_uring_sq_ready(), 0);
}

#[test]
fn wide_submission_entries_leave_the_protocol_unchanged() {
    let mut ring = IoUring::init_with_params(4, IORING_SETUP_SQE128, 0).unwrap();
    for i in 0..4u64 {
        ring.io_uring_get_sqe().unwrap().set_sqe_data(10 + i).finalize();
    }
    assert!(ring.io_uring_get_sqe().is_none());
    assert_eq!(ring.submit(), 4);
    for i in 0..4u64 {
        assert_eq!(ring.kernel_take_sqe().unwrap().user_data, 10 + i);
    }
}

#[test]
fn overflow_is_raised_when_the_completion_queue_is_full_and_stays() {
    let mut ring = IoUring::init(2).unwrap();
    for i in 0..4 {
        assert!(ring.kernel_post_cqe(CqEntry { user_data: i, res: 0, flags: 0 }));
        assert!(!ring.io_uring_cq_has_overflow());
    }
    assert!(!ring.kernel_post_cqe(CqEntry { user_data: 9, res: 0, flags: 0 }));
    assert!(ring.io_uring_cq_has_overflow());
    assert_eq!(ring.io_uring_cq_ready(), 4);
    libiouring::cqe::io_uring_peek_cqe(&mut ring).unwrap().unwrap().consume_all();
    assert_eq!(ring.io_uring_cq_ready(), 0);
    assert!(ring.io_uring_cq_has_overflow());
    assert!(ring.kernel_post_cqe(CqEntry { user_data: 5, res: 0, flags: 0 }));
    assert!(ring.io_uring_cq_has_overflow());
}

#[test]
fn kernel_complete_echoes_the_tag() {
    let mut ring = IoUring::init(4).unwrap();
    ring.io_uring_get_sqe().unwrap().io_uring_prep_nop().set_sqe_data(0xfeed).finalize();
    ring.submit();
    let taken = ring.kernel_take_sqe().unwrap();
    assert!(ring.kernel_complete(&taken, -11, 3));
    let jar = libiouring::cqe::io_uring_peek_cqe(&mut ring).unwrap().unwrap();
    let c = jar.peek(0).unwrap();
    assert_eq!((c.user_data, c.res, c.flags), (0xfeed, -11, 3));
}

#[test]
fn buffer_groups_register_once() {
    let mut ring = IoUring::init(4).unwrap();
    assert!(!ring.has_buf_group(15));
    assert_eq!(ring.io_uring_register_buf_ring(15), 0);
    assert!(ring.has_buf_group(15));
    assert!(!ring.has_buf_group(16));
    assert_eq!(ring.io_uring_register_buf_ring(15), -17);
    assert_eq!(ring.io_uring_register_buf_ring(0), 0);
    assert_eq!(ring.io_uring_register_buf_ring(65535), 0);
    assert!(ring.has_buf_group(0));
    assert!(ring.has_buf_group(65535));
}

#[test]
fn status_outcomes() {
    assert_eq!(check_status(0), Ok(0));
    assert_eq!(check_status(5), Ok(5));
    assert_eq!(check_status(i32::MAX), Ok(i32::MAX as u32));
    assert_eq!(check_status(-1), Err(RingError::KernelRejected(1)));
    assert_eq!(check_status(-22), Err(RingError::KernelRejected(22)));
    assert_eq!(check_status(-62), Err(RingError::KernelRejected(62)));
    assert_eq!(check_status(i32::MIN + 1), Err(RingError::KernelRejected(i32::MAX)));
    assert_eq!(check_status(i32::MIN), Err(RingError::KernelRejected(i32::MAX)));
    assert_eq!(errno_from_status(-17), 17);
}

#[test]
fn powers_of_two() {
    assert!(!is_power_of_two_u32(0));
    assert!(is_power_of_two_u32(1));
    assert!(is_power_of_two_u32(2));
    assert!(!is_power_of_two_u32(3));
    assert!(is_power_of_two_u32(4));
    assert!(!is_power_of_two_u32(6));
    assert!(is_power_of_two_u32(0x8000_0000));
    assert!(!is_power_of_two_u32(0x8000_0001));
    assert!(!is_power_of_two_u32(u32::MAX));
}

#[test]
fn index_arithmetic_wraps() {
    assert_eq!(ring_distance(5, 3), 2);
    assert_eq!(ring_distance(3, 3), 0);
    assert_eq!(ring_distance(2, u32::MAX - 1), 4);
    assert_eq!(ring_distance(0, u32::MAX), 1);
    assert_eq!(ring_distance(0, 1), u32::MAX);
    assert_eq!(advance_index(3, 4), 7);
    assert_eq!(advance_index(u32::MAX, 1), 0);
    assert_eq!(advance_index(u32::MAX - 1, 5), 3);
    assert_eq!(advance_index(u32::MAX, u32::MAX), u32::MAX - 1);
    assert_eq!(advance_index(7, 0), 7);
}

#[test]
fn cells_are_masked_slots() {
    assert_eq!(cell_index(0, 7, false), 0);
    assert_eq!(cell_index(7, 7, false), 7);
    assert_eq!(cell_index(8, 7, false), 0);
    assert_eq!(cell_index(13, 7, false), 5);
    assert_eq!(cell_index(u32::MAX, 7, false), 7);
    assert_eq!(cell_index(13, 7, true), 10);
    assert_eq!(cell_index(u32::MAX, 31, true), 62);
    assert_eq!(cell_index(5, 0, false), 0);
}

#[test]
fn memory_order_follows_the_other_party() {
    assert_eq!(memory_order(Boundary::SubmissionHeadLoad, 0), MemoryOrder::Relaxed);
    assert_eq!(
        memory_order(Boundary::SubmissionHeadLoad, IORING_SETUP_SQPOLL),
        MemoryOrder::Acquire
    );
    assert_eq!(
        memory_order(Boundary::SubmissionHeadLoad, IORING_SETUP_SQE128),
        MemoryOrder::Relaxed
    );
    for flags in [0, IORING_SETUP_SQPOLL] {
        assert_eq!(memory_order(Boundary::SubmissionTailStore, flags), MemoryOrder::Release);
        assert_eq!(memory_order(Boundary::SubmissionFlagsLoad, flags), MemoryOrder::Relaxed);
        assert_eq!(memory_order(Boundary::CompletionTailLoad, flags), MemoryOrder::Acquire);
        assert_eq!(memory_order(Boundary::CompletionHeadLoad, flags), MemoryOrder::Relaxed);
        assert_eq!(memory_order(Boundary::CompletionHeadAdvance, flags), MemoryOrder::AcqRel);
        assert_eq!(memory_order(Boundary::BufferTailStore, flags), MemoryOrder::Release);
    }
}

#[test]
fn wide_completion_entries_leave_the_protocol_unchanged() {
    let mut ring =
        IoUring::init_with_params(2, libiouring::index::IORING_SETUP_CQE32, IORING_FEAT_EXT_ARG)
            .unwrap();
    for i in 0..4u64 {
        assert!(ring.kernel_post_cqe(CqEntry { user_data: i, res: i as i32, flags: 0 }));
    }
    assert!(!ring.kernel_post_cqe(CqEntry { user_data: 4, res: 4, flags: 0 }));
    assert_eq!(ring.io_uring_cq_ready(), 4);
    let jar = libiouring::cqe::io_uring_peek_cqe(&mut ring).unwrap().unwrap();
    for i in 0..4isize {
        assert_eq!(jar.peek(i).unwrap().user_data, i as u64);
    }
}

#[test]
fn buffer_groups_can_be_dropped_and_taken_again() {
    let mut ring = IoUring::init(4).unwrap();
    assert_eq!(ring.io_uring_unregister_buf_ring(15), -2);
    assert_eq!(ring.io_uring_register_buf_ring(15), 0);
    assert_eq!(ring.io_uring_register_buf_ring(16), 0);
    assert_eq!(ring.io_uring_unregister_buf_ring(15), 0);
    assert!(!ring.has_buf_group(15));
    assert!(ring.has_buf_group(16));
    assert_eq!(ring.io_uring_unregister_buf_ring(15), -2);
    assert_eq!(ring.io_uring_register_buf_ring(15), 0);
    assert!(ring.has_buf_group(15));
}

#[test]
fn flags_raised_by_the_kernel_stay_raised() {
    let mut ring = IoUring::init(2).unwrap();
    ring.kernel_raise_sq_flags(0);
    assert!(!ring.io_uring_cq_has_overflow());
    ring.kernel_raise_sq_flags(1);
    assert!(!ring.io_uring_cq_has_overflow());
    ring.kernel_raise_sq_flags(2);
    assert!(ring.io_uring_cq_has_overflow());
    ring.kernel_raise_sq_flags(0);
    ring.kernel_raise_sq_flags(4);
    assert!(ring.io_uring_cq_has_overflow());
}

#[test]
fn cells_of_a_ring_follow_its_entry_size() {
    let ring = IoUring::init(4).unwrap();
    assert_eq!(ring.sq_slot_index(0), 0);
    assert_eq!(ring.sq_slot_index(5), 1);
    assert_eq!(ring.sq_slot_index(u32::MAX), 3);
    assert_eq!(ring.sq_cell_index(5), 1);
    assert_eq!(ring.sq_cell_index(u32::MAX), 3);
    assert_eq!(ring.cq_cell_index(5), 5);
    assert_eq!(ring.cq_cell_index(8), 0);
    assert_eq!(ring.cq_cell_index(u32::MAX), 7);
    let wide = IoUring::init_with_params(
        4,
        IORING_SETUP_SQE128 | libiouring::index::IORING_SETUP_CQE32,
        0,
    )
    .unwrap();
    assert_eq!(wide.sq_slot_index(5), 1);
    assert_eq!(wide.sq_cell_index(5), 2);
    assert_eq!(wide.sq_cell_index(u32::MAX), 6);
    assert_eq!(wide.cq_cell_index(5), 10);
    assert_eq!(wide.cq_cell_index(u32::MAX), 14);
    let narrow_cq = IoUring::init_with_params(4, IORING_SETUP_SQE128, 0).unwrap();
    assert_eq!(narrow_cq.sq_cell_index(3), 6);
    assert_eq!(narrow_cq.cq_cell_index(7), 7);
}
