//! A verified model of the io_uring shared-memory ring protocol.
//!
//! The ring memory that caller and kernel share is held as plain values, and
//! every step of either side is a function with a proved contract: slot
//! acquisition and submission, completion retrieval and consumption, and the
//! provided-buffer ring. A driver that owns the mapped memory mirrors the
//! steps between this model and the kernel.

pub mod buf_ring;
pub mod cqe;
pub mod error;
pub mod index;
pub mod ring;
pub mod sqe;

pub use buf_ring::{BufDesc, BufRing, BufRingState};
pub use cqe::{
    get_cqe_data, io_uring_peek_cqe, io_uring_skip_timeouts, io_uring_wait_cqe,
    io_uring_wait_cqe_nr, CqEntry, CqeJar,
};
pub use error::{check_status, RingError};
pub use index::{Boundary, MemoryOrder};
pub use ring::{IoUring, RingState};
pub use sqe::{SqEntry, Sqe};
