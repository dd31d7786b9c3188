//! Submission entries and the builder that fills one in place.

use vstd::prelude::*;

verus! {

/// Operation codes, as the kernel numbers them.
pub const IORING_OP_NOP: u8 = 0;
pub const IORING_OP_READV: u8 = 1;
pub const IORING_OP_WRITEV: u8 = 2;
pub const IORING_OP_FSYNC: u8 = 3;
pub const IORING_OP_READ_FIXED: u8 = 4;
pub const IORING_OP_WRITE_FIXED: u8 = 5;
pub const IORING_OP_SENDMSG: u8 = 9;
pub const IORING_OP_RECVMSG: u8 = 10;
pub const IORING_OP_ACCEPT: u8 = 13;
pub const IORING_OP_ASYNC_CANCEL: u8 = 14;
pub const IORING_OP_CONNECT: u8 = 16;
pub const IORING_OP_READ: u8 = 22;
pub const IORING_OP_WRITE: u8 = 23;
pub const IORING_OP_SPLICE: u8 = 30;
pub const IORING_OP_TEE: u8 = 33;

/// The file field is an index into the registered file table.
pub const IOSQE_FIXED_FILE: u8 = 1;
/// Full barrier: runs after all earlier entries, before all later ones.
pub const IOSQE_IO_DRAIN: u8 = 2;
/// The next entry runs only if this one succeeds.
pub const IOSQE_IO_LINK: u8 = 4;
/// The next entry runs whatever this one's outcome.
pub const IOSQE_IO_HARDLINK: u8 = 8;
/// Always execute out of line.
pub const IOSQE_ASYNC: u8 = 16;
/// The buffer is chosen from a registered buffer group.
pub const IOSQE_BUFFER_SELECT: u8 = 32;
/// Post no completion if the request succeeds.
pub const IOSQE_CQE_SKIP_SUCCESS: u8 = 64;

/// Priority-field flag: keep posting completions without re-arming.
pub const IORING_ACCEPT_MULTISHOT: u16 = 1;

/// One submission entry, field for field as the kernel reads it. Fields that
/// share storage across operation kinds are named after their widest use.
#[derive(Debug, Clone, Copy, PartialEq, Eq, Structural)]
pub struct SqEntry {
    /// Operation code.
    pub opcode: u8,
    /// Flags common to all operations.
    pub flags: u8,
    /// Request priority; carries the multishot flag.
    pub ioprio: u16,
    /// File descriptor, or index into the registered file table.
    pub fd: i32,
    /// File offset, or a second address.
    pub off: u64,
    /// Buffer or structure address, or the input offset of a splice.
    pub addr: u64,
    /// Byte or element count.
    pub len: u32,
    /// Flags specific to the operation.
    pub op_flags: u32,
    /// Correlation tag, echoed on every completion of this entry.
    pub user_data: u64,
    /// Index of a registered buffer, or a buffer group.
    pub buf_index: u16,
    /// Credentials to run under.
    pub personality: u16,
    /// Input descriptor of a splice, or a registered-file index.
    pub file_index: i32,
    /// Third address.
    pub addr3: u64,
}

impl SqEntry {
    /// An entry with every field zero, as in freshly mapped ring memory.
    pub open spec fn zeroed() -> SqEntry {
        SqEntry {
            opcode: 0,
            flags: 0,
            ioprio: 0,
            fd: 0,
            off: 0,
            addr: 0,
            len: 0,
            op_flags: 0,
            user_data: 0,
            buf_index: 0,
            personality: 0,
            file_index: 0,
            addr3: 0,
        }
    }

    /// The entry that preparing an operation leaves behind: every field but
    /// the correlation tag is overwritten.
    pub open spec fn prepared(self, opcode: u8, fd: i32, addr: u64, len: u32, off: u64) -> SqEntry {
        SqEntry {
            opcode,
            flags: 0,
            ioprio: 0,
            fd,
            off,
            addr,
            len,
            op_flags: 0,
            user_data: self.user_data,
            buf_index: 0,
            personality: 0,
            file_index: 0,
            addr3: 0,
        }
    }

    /// This entry with the given common flag bits added.
    pub open spec fn with_flag(self, bits: u8) -> SqEntry {
        SqEntry { flags: self.flags | bits, ..self }
    }

    /// Makes a zeroed entry.
    pub fn new() -> (e: SqEntry)
        ensures
            e == SqEntry::zeroed(),
    {
        SqEntry {
            opcode: 0,
            flags: 0,
            ioprio: 0,
            fd: 0,
            off: 0,
            addr: 0,
            len: 0,
            op_flags: 0,
            user_data: 0,
            buf_index: 0,
            personality: 0,
            file_index: 0,
            addr3: 0,
        }
    }
}

/// The 64-bit pattern of a signed offset: negative values count down from
/// 2^64, so that -1 is the all-ones pattern.
pub open spec fn offset_bits(off: i64) -> u64 {
    if off >= 0 {
        off as u64
    } else {
        (off + 0x1_0000_0000_0000_0000) as u64
    }
}

/// The 32-bit pattern of signed flags: negative values count down from 2^32.
pub open spec fn flag_bits(flags: i32) -> u32 {
    if flags >= 0 {
        flags as u32
    } else {
        (flags + 0x1_0000_0000) as u32
    }
}

/// The low 32 bits of a byte count, which is all the length field can hold.
pub open spec fn low_u32(n: usize) -> u32 {
    (n as int % 0x1_0000_0000) as u32
}

/// Reinterprets a signed offset as the unsigned field the kernel reads.
pub fn offset_to_bits(off: i64) -> (bits: u64)
    ensures
        bits == offset_bits(off),
{
    if off >= 0 {
        off as u64
    } else {
        u64::MAX - ((-(off + 1)) as u64)
    }
}

/// Reinterprets signed flags as the unsigned field the kernel reads.
pub fn flags_to_bits(flags: i32) -> (bits: u32)
    ensures
        bits == flag_bits(flags),
{
    if flags >= 0 {
        flags as u32
    } else {
        u32::MAX - ((-(flags + 1)) as u32)
    }
}

/// Cuts a byte count down to the width of the length field.
pub fn truncate_len(n: usize) -> (len: u32)
    ensures
        len == low_u32(n),
{
    ((n as u64) % 0x1_0000_0000u64) as u32
}

/// Exclusive handle on one submission slot. Writes through it land in the
/// ring at once but stay invisible to the kernel until the ring is submitted.
pub struct Sqe<'a> {
    /// The slot.
    pub sqe: &'a mut SqEntry,
}

impl<'a> Sqe<'a> {
    /// The entry behind the handle, as it stands now.
    pub open spec fn entry(&self) -> SqEntry {
        *self.sqe
    }

    /// Wraps a slot of the ring.
    pub(crate) fn init(sqe: &'a mut SqEntry) -> (s: Sqe<'a>)
        ensures
            s.entry() == *old(sqe),
            *final(s.sqe) == *final(sqe),
    {
        Sqe { sqe }
    }

    /// The entry as it stands now.
    pub fn get_sqe(&self) -> (e: &SqEntry)
        ensures
            *e == self.entry(),
    {
        &*self.sqe
    }

    /// Sets the correlation tag that every completion of this entry echoes.
    pub fn set_sqe_data(self, data: u64) -> (s: Sqe<'a>)
        ensures
            s.entry() == (SqEntry { user_data: data, ..self.entry() }),
            *final(s.sqe) == *final(self.sqe),
    {
        let s = self;
        s.sqe.user_data = data;
        s
    }

    /// The correlation tag of this entry.
    pub fn get_sqe_data(&self) -> (data: u64)
        ensures
            data == self.entry().user_data,
    {
        self.sqe.user_data
    }

    /// Links this entry to the next one, which then runs only if this one
    /// succeeds and is skipped otherwise.
    pub fn set_link(self) -> (s: Sqe<'a>)
        ensures
            s.entry() == self.entry().with_flag(IOSQE_IO_LINK),
            *final(s.sqe) == *final(self.sqe),
    {
        let s = self;
        s.sqe.flags = s.sqe.flags | IOSQE_IO_LINK;
        s
    }

    /// Links this entry to the next one, which then runs whatever the outcome
    /// of this one.
    pub fn set_hard_link(self) -> (s: Sqe<'a>)
        ensures
            s.entry() == self.entry().with_flag(IOSQE_IO_HARDLINK),
            *final(s.sqe) == *final(self.sqe),
    {
        let s = self;
        s.sqe.flags = s.sqe.flags | IOSQE_IO_HARDLINK;
        s
    }

    /// Tells the kernel that the request will have to wait, so that it is
    /// executed out of line from the start.
    pub fn set_async(self) -> (s: Sqe<'a>)
        ensures
            s.entry() == self.entry().with_flag(IOSQE_ASYNC),
            *final(s.sqe) == *final(self.sqe),
    {
        let s = self;
        s.sqe.flags = s.sqe.flags | IOSQE_ASYNC;
        s
    }

    /// Makes this entry a barrier: it starts after all earlier submissions
    /// have completed, and later ones start after it.
    pub fn set_drain(self) -> (s: Sqe<'a>)
        ensures
            s.entry() == self.entry().with_flag(IOSQE_IO_DRAIN),
            *final(s.sqe) == *final(self.sqe),
    {
        let s = self;
        s.sqe.flags = s.sqe.flags | IOSQE_IO_DRAIN;
        s
    }

    /// Suppresses the completion of this request if it succeeds.
    pub fn set_no_cqe(self) -> (s: Sqe<'a>)
        ensures
            s.entry() == self.entry().with_flag(IOSQE_CQE_SKIP_SUCCESS),
            *final(s.sqe) == *final(self.sqe),
    {
        let s = self;
        s.sqe.flags = s.sqe.flags | IOSQE_CQE_SKIP_SUCCESS;
        s
    }

    /// Lets the kernel pick the buffer from a registered buffer group.
    pub fn set_buffer_select(self) -> (s: Sqe<'a>)
        ensures
            s.entry() == self.entry().with_flag(IOSQE_BUFFER_SELECT),
            *final(s.sqe) == *final(self.sqe),
    {
        let s = self;
        s.sqe.flags = s.sqe.flags | IOSQE_BUFFER_SELECT;
        s
    }

    /// Declares the file field to be an index into the registered file table.
    pub fn set_fixed_file(self) -> (s: Sqe<'a>)
        ensures
            s.entry() == self.entry().with_flag(IOSQE_FIXED_FILE),
            *final(s.sqe) == *final(self.sqe),
    {
        let s = self;
        s.sqe.flags = s.sqe.flags | IOSQE_FIXED_FILE;
        s
    }

    /// Fills every field of `sqe` but the correlation tag for operation `op`.
    pub fn io_uring_prep_rw(sqe: &mut SqEntry, op: u8, fd: i32, addr: usize, len: u32, offset: u64)
        ensures
            *final(sqe) == old(sqe).prepared(op, fd, addr as u64, len, offset),
    {
        sqe.opcode = op;
        sqe.flags = 0;
        sqe.ioprio = 0;
        sqe.fd = fd;
        sqe.off = offset;
        sqe.addr = addr as u64;
        sqe.len = len;
        sqe.op_flags = 0;
        sqe.buf_index = 0;
        sqe.personality = 0;
        sqe.file_index = 0;
        sqe.addr3 = 0;
    }

    /// Prepares an accept on the listening socket `fd`. `addr` and `len` are the
    /// addresses of the peer-address buffer and of its length, or zero.
    pub fn io_uring_prep_accept(self, fd: i32, addr: usize, len: usize, flags: u32) -> (s: Sqe<'a>)
        ensures
            s.entry() == (SqEntry {
                op_flags: flags,
                ..self.entry().prepared(IORING_OP_ACCEPT, fd, addr as u64, 0, len as u64)
            }),
            *final(s.sqe) == *final(self.sqe),
    {
        let s = self;
        Self::io_uring_prep_rw(&mut *s.sqe, IORING_OP_ACCEPT, fd, addr, 0, len as u64);
        s.sqe.op_flags = flags;
        s
    }

    /// Prepares an accept that posts one completion per accepted connection
    /// until it is cancelled or fails.
    pub fn io_uring_prep_multishot_accept(self, fd: i32, addr: usize, len: usize, flags: u32) -> (s: Sqe<'a>)
        ensures
            s.entry() == (SqEntry {
                op_flags: flags,
                ioprio: IORING_ACCEPT_MULTISHOT,
                ..self.entry().prepared(IORING_OP_ACCEPT, fd, addr as u64, 0, len as u64)
            }),
            *final(s.sqe) == *final(self.sqe),
    {
        let s = self.io_uring_prep_accept(fd, addr, len, flags);
        assert(0u16 | IORING_ACCEPT_MULTISHOT == IORING_ACCEPT_MULTISHOT) by (bit_vector);
        s.sqe.ioprio = s.sqe.ioprio | IORING_ACCEPT_MULTISHOT;
        s
    }

    /// Prepares a splice of `nbytes` from `fd_in` to `fd_out`. One of the two
    /// must be a pipe. An offset of -1 stands for the current position, and
    /// is the only offset a pipe accepts.
    pub fn io_uring_prep_splice(self, fd_in: i32, off_in: i64, fd_out: i32, off_out: i64, nbytes: u32, flags: u32) -> (s: Sqe<'a>)
        ensures
            s.entry() == (SqEntry {
                op_flags: flags,
                file_index: fd_in,
                addr: offset_bits(off_in),
                ..self.entry().prepared(IORING_OP_SPLICE, fd_out, 0, nbytes, offset_bits(off_out))
            }),
            *final(s.sqe) == *final(self.sqe),
    {
        let s = self;
        Self::io_uring_prep_rw(&mut *s.sqe, IORING_OP_SPLICE, fd_out, 0, nbytes, offset_to_bits(off_out));
        s.sqe.op_flags = flags;
        s.sqe.file_index = fd_in;
        s.sqe.addr = offset_to_bits(off_in);
        s
    }

    /// Prepares a tee of `nbytes` from the pipe `fd_in` to the pipe `fd_out`.
    pub fn io_uring_prep_tee(self, fd_in: i32, fd_out: i32, nbytes: u32, flags: u32) -> (s: Sqe<'a>)
        ensures
            s.entry() == (SqEntry {
                op_flags: flags,
                file_index: fd_in,
                ..self.entry().prepared(IORING_OP_TEE, fd_out, 0, nbytes, 0)
            }),
            *final(s.sqe) == *final(self.sqe),
    {
        let s = self;
        Self::io_uring_prep_rw(&mut *s.sqe, IORING_OP_TEE, fd_out, 0, nbytes, 0);
        s.sqe.addr = 0;
        s.sqe.file_index = fd_in;
        s.sqe.op_flags = flags;
        s
    }

    /// Prepares an operation that does nothing but complete.
    pub fn io_uring_prep_nop(self) -> (s: Sqe<'a>)
        ensures
            s.entry() == self.entry().prepared(IORING_OP_NOP, -1i32, 0, 0, 0),
            *final(s.sqe) == *final(self.sqe),
    {
        let s = self;
        Self::io_uring_prep_rw(&mut *s.sqe, IORING_OP_NOP, -1, 0, 0, 0);
        s
    }

    /// Prepares a vectored read into the `nr_vecs` buffers described at
    /// address `iovecs`, which must stay valid until completion.
    pub fn io_uring_prep_readv(self, fd: i32, iovecs: usize, nr_vecs: u32, offset: u64) -> (s: Sqe<'a>)
        ensures
            s.entry() == self.entry().prepared(IORING_OP_READV, fd, iovecs as u64, nr_vecs, offset),
            *final(s.sqe) == *final(self.sqe),
    {
        let s = self;
        Self::io_uring_prep_rw(&mut *s.sqe, IORING_OP_READV, fd, iovecs, nr_vecs, offset);
        s
    }

    /// Prepares a vectored read with per-call flags.
    pub fn io_uring_prep_readv2(self, fd: i32, iovecs: usize, nr_vecs: u32, offset: u64, flags: i32) -> (s: Sqe<'a>)
        ensures
            s.entry() == (SqEntry {
                op_flags: flag_bits(flags),
                ..self.entry().prepared(IORING_OP_READV, fd, iovecs as u64, nr_vecs, offset)
            }),
            *final(s.sqe) == *final(self.sqe),
    {
        let s = self.io_uring_prep_readv(fd, iovecs, nr_vecs, offset);
        s.sqe.op_flags = flags_to_bits(flags);
        s
    }

    /// Prepares a read into the buffer registered at `buf_index`. `buf` is an
    /// address inside that buffer. An index that was never registered is
    /// reported by the completion, not here.
    pub fn io_uring_prep_read_fixed(self, fd: i32, buf: usize, nbytes: usize, offset: u64, buf_index: u16) -> (s: Sqe<'a>)
        ensures
            s.entry() == (SqEntry {
                buf_index,
                ..self.entry().prepared(IORING_OP_READ_FIXED, fd, buf as u64, low_u32(nbytes), offset)
            }),
            *final(s.sqe) == *final(self.sqe),
    {
        let s = self;
        Self::io_uring_prep_rw(&mut *s.sqe, IORING_OP_READ_FIXED, fd, buf, truncate_len(nbytes), offset);
        s.sqe.buf_index = buf_index;
        s
    }

    /// Prepares a vectored write from the `nr_vecs` buffers described at
    /// address `iovecs`, which must stay valid until completion.
    pub fn io_uring_prep_writev(self, fd: i32, iovecs: usize, nr_vecs: u32, offset: u64) -> (s: Sqe<'a>)
        ensures
            s.entry() == self.entry().prepared(IORING_OP_WRITEV, fd, iovecs as u64, nr_vecs, offset),
            *final(s.sqe) == *final(self.sqe),
    {
        let s = self;
        Self::io_uring_prep_rw(&mut *s.sqe, IORING_OP_WRITEV, fd, iovecs, nr_vecs, offset);
        s
    }

    /// Prepares a vectored write with per-call flags.
    pub fn io_uring_prep_writev2(self, fd: i32, iovecs: usize, nr_vecs: u32, offset: u64, flags: i32) -> (s: Sqe<'a>)
        ensures
            s.entry() == (SqEntry {
                op_flags: flag_bits(flags),
                ..self.entry().prepared(IORING_OP_WRITEV, fd, iovecs as u64, nr_vecs, offset)
            }),
            *final(s.sqe) == *final(self.sqe),
    {
        let s = self.io_uring_prep_writev(fd, iovecs, nr_vecs, offset);
        s.sqe.op_flags = flags_to_bits(flags);
        s
    }

    /// Prepares a write from the buffer registered at `buf_index`. `buf` is an
    /// address inside that buffer. An index that was never registered is
    /// reported by the completion, not here.
    pub fn io_uring_prep_write_fixed(self, fd: i32, buf: usize, nbytes: usize, offset: u64, buf_index: u16) -> (s: Sqe<'a>)
        ensures
            s.entry() == (SqEntry {
                buf_index,
                ..self.entry().prepared(IORING_OP_WRITE_FIXED, fd, buf as u64, low_u32(nbytes), offset)
            }),
            *final(s.sqe) == *final(self.sqe),
    {
        let s = self;
        Self::io_uring_prep_rw(&mut *s.sqe, IORING_OP_WRITE_FIXED, fd, buf, truncate_len(nbytes), offset);
        s.sqe.buf_index = buf_index;
        s
    }

    /// Prepares the receipt of a message. `msg` is the address of the message
    /// header, which must stay valid and in place until completion.
    pub fn io_uring_prep_recvmsg(self, fd: i32, msg: usize, flags: u32) -> (s: Sqe<'a>)
        ensures
            s.entry() == (SqEntry {
                op_flags: flags,
                ..self.entry().prepared(IORING_OP_RECVMSG, fd, msg as u64, 1, 0)
            }),
            *final(s.sqe) == *final(self.sqe),
    {
        let s = self;
        Self::io_uring_prep_rw(&mut *s.sqe, IORING_OP_RECVMSG, fd, msg, 1, 0);
        s.sqe.op_flags = flags;
        s
    }

    /// Prepares a message receipt that keeps posting completions.
    pub fn io_uring_prep_recvmsg_multishot(self, fd: i32, msg: usize, flags: u32) -> (s: Sqe<'a>)
        ensures
            s.entry() == (SqEntry {
                op_flags: flags,
                ioprio: IORING_ACCEPT_MULTISHOT,
                ..self.entry().prepared(IORING_OP_RECVMSG, fd, msg as u64, 1, 0)
            }),
            *final(s.sqe) == *final(self.sqe),
    {
        let s = self.io_uring_prep_recvmsg(fd, msg, flags);
        assert(0u16 | IORING_ACCEPT_MULTISHOT == IORING_ACCEPT_MULTISHOT) by (bit_vector);
        s.sqe.ioprio = s.sqe.ioprio | IORING_ACCEPT_MULTISHOT;
        s
    }

    /// Prepares the sending of a message. `msg` is the address of the message
    /// header, which must stay valid and in place until completion.
    pub fn io_uring_prep_sendmsg(self, fd: i32, msg: usize, flags: u32) -> (s: Sqe<'a>)
        ensures
            s.entry() == (SqEntry {
                op_flags: flags,
                ..self.entry().prepared(IORING_OP_SENDMSG, fd, msg as u64, 1, 0)
            }),
            *final(s.sqe) == *final(self.sqe),
    {
        let s = self;
        Self::io_uring_prep_rw(&mut *s.sqe, IORING_OP_SENDMSG, fd, msg, 1, 0);
        s.sqe.op_flags = flags;
        s
    }

    /// Prepares a flush of `fd` to stable storage.
    pub fn io_uring_prep_fsync(self, fd: i32, fsync_flag: u32) -> (s: Sqe<'a>)
        ensures
            s.entry() == (SqEntry {
                op_flags: fsync_flag,
                ..self.entry().prepared(IORING_OP_FSYNC, fd, 0, 0, 0)
            }),
            *final(s.sqe) == *final(self.sqe),
    {
        let s = self;
        Self::io_uring_prep_rw(&mut *s.sqe, IORING_OP_FSYNC, fd, 0, 0, 0);
        s.sqe.op_flags = fsync_flag;
        s
    }

    /// Prepares the cancellation of the request submitted under the tag
    /// `user_data`. The target may still complete on its own first.
    pub fn io_uring_prep_cancel(self, user_data: u64, flags: u32) -> (s: Sqe<'a>)
        ensures
            s.entry() == (SqEntry {
                addr: user_data,
                op_flags: flags,
                ..self.entry().prepared(IORING_OP_ASYNC_CANCEL, -1i32, 0, 0, 0)
            }),
            *final(s.sqe) == *final(self.sqe),
    {
        let s = self;
        Self::io_uring_prep_rw(&mut *s.sqe, IORING_OP_ASYNC_CANCEL, -1, 0, 0, 0);
        s.sqe.addr = user_data;
        s.sqe.op_flags = flags;
        s
    }

    /// Prepares a connect of socket `fd` to the address stored at `addr`.
    pub fn io_uring_prep_connect(self, fd: i32, addr: usize, addrlen: u32) -> (s: Sqe<'a>)
        ensures
            s.entry() == self.entry().prepared(IORING_OP_CONNECT, fd, addr as u64, 0, addrlen as u64),
            *final(s.sqe) == *final(self.sqe),
    {
        let s = self;
        Self::io_uring_prep_rw(&mut *s.sqe, IORING_OP_CONNECT, fd, addr, 0, addrlen as u64);
        s
    }

    /// Prepares a read of `nbytes` from `fd` at `offset` into the buffer at
    /// address `buf`, which must stay valid until completion.
    pub fn io_uring_prep_read(self, fd: i32, buf: usize, nbytes: usize, offset: u64) -> (s: Sqe<'a>)
        ensures
            s.entry() == self.entry().prepared(IORING_OP_READ, fd, buf as u64, low_u32(nbytes), offset),
            *final(s.sqe) == *final(self.sqe),
    {
        let s = self;
        Self::io_uring_prep_rw(&mut *s.sqe, IORING_OP_READ, fd, buf, truncate_len(nbytes), offset);
        s
    }

    /// Prepares a write of `nbytes` to `fd` at `offset` from the buffer at
    /// address `buf`, which must stay valid until completion.
    pub fn io_uring_prep_write(self, fd: i32, buf: usize, nbytes: usize, offset: u64) -> (s: Sqe<'a>)
        ensures
            s.entry() == self.entry().prepared(IORING_OP_WRITE, fd, buf as u64, low_u32(nbytes), offset),
            *final(s.sqe) == *final(self.sqe),
    {
        let s = self;
        Self::io_uring_prep_rw(&mut *s.sqe, IORING_OP_WRITE, fd, buf, truncate_len(nbytes), offset);
        s
    }

    /// Marks the entry as complete. Nothing is written: the kernel sees the
    /// entry once the ring is submitted.
    pub fn finalize(self)
        ensures
            *final(self.sqe) == self.entry(),
    {
    }
}

/// Flags compose: setting one after the other is setting both at once, in
/// either order, and a flag once set stays set whatever is set after it.
pub proof fn lemma_flags_compose(e: SqEntry, a: u8, b: u8)
    ensures
        e.with_flag(a).with_flag(b) == e.with_flag(a | b),
        e.with_flag(a).with_flag(b) == e.with_flag(b).with_flag(a),
        e.with_flag(a).with_flag(a) == e.with_flag(a),
        e.with_flag(a).with_flag(b).flags & a == a,
        e.with_flag(a).with_flag(b).flags & e.flags == e.flags,
{
    let f = e.flags;
    assert((f | a) | b == f | (a | b)) by (bit_vector);
    assert((f | a) | b == (f | b) | a) by (bit_vector);
    assert((f | a) | a == f | a) by (bit_vector);
    assert(((f | a) | b) & a == a) by (bit_vector);
    assert(((f | a) | b) & f == f) by (bit_vector);
}

} // verus!
