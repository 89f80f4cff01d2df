//! Byte-oriented reading and writing, and the system calls that move bytes
//! through a descriptor.
use vstd::prelude::*;
use crate::errno::{Errno, __syscall_ret, is_errno_code, lemma_spec_of, EFBIG, EINTR, MAX_ERRNO};

verus! {

/// Objects that bytes can be written to, in the manner of `std::io::Write`.
pub trait Write {
    /// Writes from `buf`; `Ok(n)` says how many bytes were taken.
    fn write(&mut self, buf: &[u8]) -> Result<usize, Errno>;

    /// Flushes what is buffered to its destination.
    fn flush(&mut self) -> Result<(), Errno>;
}

/// Objects that bytes can be read from, in the manner of `std::io::Read`.
pub trait Read {
    /// Reads into `buf`; `Ok(n)` says how many bytes were filled.
    fn read(&mut self, buf: &mut [u8]) -> Result<usize, Errno>;
}

/// The progress of writing a whole buffer with repeated writes: how many of
/// its bytes are still to go.
pub struct WriteAll {
    remaining: usize,
}

impl WriteAll {
    /// The bytes still to go.
    pub closed spec fn spec_remaining(&self) -> usize {
        self.remaining
    }

    /// Starts writing a buffer of `len` bytes.
    pub fn new(len: usize) -> (r: WriteAll)
        ensures
            r.remaining() == len,
    {
        WriteAll { remaining: len }
    }

    /// The bytes still to go; the next write starts at `len - remaining`.
    #[verifier::when_used_as_spec(spec_remaining)]
    pub fn remaining(&self) -> (r: usize)
        ensures
            r == self.spec_remaining(),
    {
        self.remaining
    }

    /// Whether the whole buffer has been written, so that writing it
    /// succeeded.
    pub fn is_done(&self) -> (r: bool)
        ensures
            r == (self.remaining() == 0),
    {
        self.remaining == 0
    }

    /// Takes in what one write of the rest of the buffer returned. `None`:
    /// go on (after `Ok(n)` the rest is `n` bytes shorter; an interrupted
    /// write is tried again). `Some(result)`: stop with that result; a write
    /// that took nothing while bytes remained means the file is full
    /// (`EFBIG`), and any other error is passed on.
    pub fn advance(&mut self, result: Result<usize, Errno>) -> (r: Option<Result<(), Errno>>)
        requires
            old(self).remaining() > 0,
            result matches Ok(n) ==> n <= old(self).remaining(),
        ensures
            match result {
                Ok(0) => r == Some(Err::<(), Errno>(Errno::spec_of(EFBIG as int))) && final(self).remaining()
                    == old(self).remaining(),
                Ok(n) => r is None && final(self).remaining() == old(self).remaining() - n,
                Err(e) => if e@ == EINTR {
                    r is None && final(self).remaining() == old(self).remaining()
                } else {
                    r == Some(Err::<(), Errno>(e)) && final(self).remaining() == old(
                        self,
                    ).remaining()
                },
            },
    {
        match result {
            Ok(0) => Some(Err(Errno::of(EFBIG))),
            Ok(n) => {
                self.remaining = self.remaining - n;
                None
            },
            Err(e) => {
                if e.code() == EINTR {
                    None
                } else {
                    Some(Err(e))
                }
            },
        }
    }
}

/// How many bytes one read or write of a `len`-byte buffer hands the kernel:
/// at most `isize::MAX`, since larger counts are not defined.
pub open spec fn transfer_len(len: usize) -> usize {
    if len <= isize::MAX {
        len
    } else {
        isize::MAX as usize
    }
}

/// What a read or write returns, from the kernel's raw return: the byte
/// count, or the error.
pub open spec fn transfer_outcome(reply: i64) -> Result<usize, Errno> {
    if is_errno_code(-reply) {
        Err(Errno::spec_of(-reply))
    } else {
        Ok(reply as usize)
    }
}

/// A read or write fails exactly when the kernel's raw return is a negated
/// error number, and then it fails with that very error; otherwise it
/// succeeds with the raw return as its byte count.
pub proof fn lemma_transfer_error_is_kernel_error(reply: i64)
    ensures
        transfer_outcome(reply) is Err <==> -MAX_ERRNO <= reply <= -1,
        transfer_outcome(reply) matches Err(e) ==> e@ == -reply,
        transfer_outcome(reply) matches Ok(n) ==> n == reply as usize,
{
    if is_errno_code(-reply) {
        lemma_spec_of(-reply);
    }
}

/// A read(2) or write(2) to make: on descriptor `fd`, of `len` bytes.
#[derive(Debug, Clone, Copy, PartialEq, Eq, Structural)]
pub struct TransferCall {
    pub fd: i32,
    pub len: usize,
}

impl TransferCall {
    /// The call on `fd` for a buffer of `buf_len` bytes, in specifications.
    pub open spec fn spec_new(fd: i32, buf_len: usize) -> TransferCall {
        TransferCall { fd, len: transfer_len(buf_len) }
    }

    /// A call on `fd` for a buffer of `buf_len` bytes.
    pub fn new(fd: i32, buf_len: usize) -> (r: TransferCall)
        ensures
            r == TransferCall::spec_new(fd, buf_len),
    {
        let max = isize::MAX as usize;
        let len = if buf_len <= max {
            buf_len
        } else {
            max
        };
        TransferCall { fd, len }
    }

    /// The call's result, from the kernel's raw return `reply`: a reply in
    /// `-MAX_ERRNO..=-1` is the kernel's error, with the negated reply as its
    /// number; any other reply is the byte count.
    pub fn finish(&self, reply: i64) -> (r: Result<usize, Errno>)
        ensures
            r == transfer_outcome(reply),
            match r {
                Ok(n) => !is_errno_code(-reply) && n == reply as usize,
                Err(e) => is_errno_code(-reply) && e@ == -reply,
            },
    {
        match __syscall_ret(reply) {
            Ok(v) => Ok(v as usize),
            Err(e) => Err(e),
        }
    }
}

/// A sync to make of descriptor `fd` to its device: when `data_only`, of
/// the file's data alone, not its metadata, as fdatasync(2) makes it;
/// otherwise of both, as fsync(2) makes it.
#[derive(Debug, Clone, Copy, PartialEq, Eq, Structural)]
pub struct SyncCall {
    pub fd: i32,
    pub data_only: bool,
}

impl SyncCall {
    /// The call's result, from the kernel's raw return `reply`.
    pub fn finish(&self, reply: i64) -> (r: Result<(), Errno>)
        ensures
            match r {
                Ok(()) => !is_errno_code(-reply),
                Err(e) => is_errno_code(-reply) && e@ == -reply && e == Errno::spec_of(-reply),
            },
    {
        match __syscall_ret(reply) {
            Ok(_) => Ok(()),
            Err(e) => Err(e),
        }
    }
}

} // verus!
