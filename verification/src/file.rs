//! The C stream (`FILE`) of the runtime: a descriptor with a lock that the
//! owning thread may take again.
//!
//! The lock is kept here as plain state; the caller performs each step
//! atomically and spins where a step says the lock is held elsewhere.
use vstd::prelude::*;
use crate::errno::{Errno, __syscall_ret, is_errno_code, EBADF, EFAULT, EISDIR, EOVERFLOW};
use crate::fd::{AsRawFd, OwnedFd, RawFd};
use crate::io::{SyncCall, TransferCall};

verus! {

/// The signature at the top of every stream, so that a stray pointer can be
/// told apart from a stream.
pub const FILE_SIG: [u8; 4] = [70u8, 73u8, 76u8, 69u8];

/// The bit of `st_mode` that marks a directory.
pub const S_IFDIR: u32 = 0o040000;

/// The state of a stream's lock: whether it is taken, by which thread (0
/// when none), and how many holds it counts.
#[derive(Debug, Clone, Copy, PartialEq, Eq, Structural)]
pub struct LockState {
    pub locked: bool,
    pub owner_tid: i32,
    pub lock_count: u32,
}

/// A hold on a stream's lock: the reads and writes made through it. A hold
/// is given up once, by [`File::unlock`] on its own stream.
#[derive(Debug, PartialEq, Eq, Structural)]
pub struct FileLock {
    fd: RawFd,
}

/// What a first attempt at a stream's lock found.
#[derive(Debug, PartialEq, Eq, Structural)]
pub enum LockStep {
    /// The lock is held through this.
    Held(FileLock),
    /// Another thread holds it: wait until it is free, then take it with
    /// `File::lock_after_wait`.
    Contended,
}

/// A consistent lock state: it is taken exactly when it counts a hold, and a
/// free lock has no owner (0).
pub open spec fn lock_wf(s: LockState) -> bool {
    &&& s.locked <==> s.lock_count > 0
    &&& !s.locked ==> s.owner_tid == 0
}

/// Whether thread `tid` gets the lock in state `s`: when it is free, or
/// already `tid`'s.
pub open spec fn acquire_granted(s: LockState, tid: i32) -> bool {
    !s.locked || s.owner_tid == tid
}

/// The lock once thread `tid` has tried to take it in state `s`: a free lock
/// becomes `tid`'s with one hold; `tid`'s own lock counts one more hold; a
/// lock that another thread holds is left as it is.
pub open spec fn acquired(s: LockState, tid: i32) -> LockState {
    if !s.locked {
        LockState { locked: true, owner_tid: tid, lock_count: 1 }
    } else if s.owner_tid == tid {
        LockState { lock_count: (s.lock_count + 1) as u32, ..s }
    } else {
        s
    }
}

/// The lock once one hold of state `s` is given up: with none left it is
/// free and has no owner.
pub open spec fn released(s: LockState) -> LockState {
    if s.lock_count == 1 {
        LockState { locked: false, owner_tid: 0, lock_count: 0 }
    } else {
        LockState { lock_count: (s.lock_count - 1) as u32, ..s }
    }
}

impl LockState {
    /// A lock that nobody holds, in specifications.
    pub open spec fn spec_unlocked() -> LockState {
        LockState { locked: false, owner_tid: 0, lock_count: 0 }
    }

    /// A lock that nobody holds.
    #[verifier::when_used_as_spec(spec_unlocked)]
    pub fn unlocked() -> (r: LockState)
        ensures
            r == (LockState { locked: false, owner_tid: 0, lock_count: 0 }),
    {
        LockState { locked: false, owner_tid: 0, lock_count: 0 }
    }

    /// Takes the lock for thread `tid`. A free lock is taken with one hold;
    /// a lock that `tid` already owns counts one more hold; a lock owned by
    /// another thread is left as it is, and `false` is returned. A count
    /// already at `u32::MAX` has no room for another hold.
    pub fn acquire(&mut self, tid: i32) -> (r: bool)
        requires
            old(self).locked && old(self).owner_tid == tid ==> old(self).lock_count < u32::MAX,
        ensures
            r == acquire_granted(*old(self), tid),
            *final(self) == acquired(*old(self), tid),
            lock_wf(*old(self)) ==> lock_wf(*final(self)),
    {
        if !self.locked {
            self.locked = true;
            self.owner_tid = tid;
            self.lock_count = 1;
            true
        } else if self.owner_tid == tid {
            self.lock_count = self.lock_count + 1;
            true
        } else {
            false
        }
    }

    /// After waiting until the lock is free: thread `tid` takes it, with one
    /// hold.
    pub fn finish_wait(&mut self, tid: i32)
        requires
            !old(self).locked,
        ensures
            *final(self) == (LockState { locked: true, owner_tid: tid, lock_count: 1 }),
    {
        self.locked = true;
        self.owner_tid = tid;
        self.lock_count = 1;
    }

    /// Gives up one hold: when none remain, the lock is released and has no
    /// owner.
    pub fn release(&mut self)
        requires
            old(self).lock_count > 0,
        ensures
            *final(self) == released(*old(self)),
            lock_wf(*old(self)) ==> lock_wf(*final(self)),
    {
        self.lock_count = self.lock_count - 1;
        if self.lock_count != 0 {
            return ;
        }
        self.owner_tid = 0;
        self.locked = false;
    }
}

/// A thread that takes a free lock gets it, and giving up that one hold
/// frees the lock again, with no owner.
pub proof fn lemma_lock_release_roundtrip(tid: i32)
    ensures
        acquire_granted(LockState::spec_unlocked(), tid),
        released(acquired(LockState::spec_unlocked(), tid)) == LockState::spec_unlocked(),
{
}

/// A lock that another thread holds is not granted, and trying leaves it as
/// it is.
pub proof fn lemma_lock_contended(s: LockState, tid: i32)
    requires
        s.locked,
        s.owner_tid != tid,
    ensures
        !acquire_granted(s, tid),
        acquired(s, tid) == s,
{
}

/// Once a thread is granted the lock, no other thread is granted it until
/// it is released.
pub proof fn lemma_lock_exclusive(s: LockState, t1: i32, t2: i32)
    requires
        acquire_granted(s, t1),
        t1 != t2,
    ensures
        acquired(s, t1).locked,
        acquired(s, t1).owner_tid == t1,
        !acquire_granted(acquired(s, t1), t2),
{
}

/// The owner of a lock is granted it again with one more hold; giving that
/// hold up leaves the lock as it was, still the owner's.
pub proof fn lemma_lock_reentry_counted(s: LockState)
    requires
        lock_wf(s),
        s.locked,
        s.lock_count < u32::MAX,
    ensures
        acquire_granted(s, s.owner_tid),
        acquired(s, s.owner_tid).lock_count == s.lock_count + 1,
        released(acquired(s, s.owner_tid)) == s,
{
}

/// A C stream: a descriptor, its lock, whether it is open, and whether it
/// has a buffer.
#[derive(Debug)]
pub struct File {
    header: [u8; 4],
    fd: OwnedFd,
    lock: LockState,
    open: bool,
    buffered: bool,
}

/// What opening yields from open(2)'s raw return `reply`: the descriptor,
/// or the error; a negative descriptor that is no error code is refused as
/// `EBADF`.
pub open spec fn opened_descriptor(reply: i64) -> Result<RawFd, Errno> {
    if is_errno_code(-reply) {
        Err(Errno::spec_of(-reply))
    } else if (reply as i32) < 0 {
        Err(Errno::spec_of(EBADF as int))
    } else {
        Ok(reply as i32)
    }
}

impl File {
    pub closed spec fn spec_fd(&self) -> RawFd {
        self.fd@
    }

    pub closed spec fn spec_header(&self) -> [u8; 4] {
        self.header
    }

    pub closed spec fn spec_lock(&self) -> LockState {
        self.lock
    }

    pub closed spec fn spec_is_open(&self) -> bool {
        self.open
    }

    pub closed spec fn spec_is_buffered(&self) -> bool {
        self.buffered
    }

    /// A stream for descriptor `fd`, which the caller vouches is open: its
    /// lock free, open, and without a buffer. `-1` is no descriptor.
    pub fn from_fd_unchecked(fd: RawFd) -> (r: File)
        requires
            fd != -1,
        ensures
            r.fd() == fd,
            r.spec_header() == FILE_SIG,
            r.lock_state() == LockState::unlocked(),
            r.spec_is_open(),
            !r.spec_is_buffered(),
    {
        File {
            header: FILE_SIG,
            fd: OwnedFd::from_raw_fd_unchecked(fd),
            lock: LockState::unlocked(),
            open: true,
            buffered: false,
        }
    }

    /// The descriptor from open(2)'s raw return `reply` (see
    /// [`opened_descriptor`]).
    pub fn open_descriptor(reply: i64) -> (r: Result<RawFd, Errno>)
        ensures
            r == opened_descriptor(reply),
    {
        match __syscall_ret(reply) {
            Ok(v) => {
                let fd_raw = v as i32;
                if fd_raw < 0 {
                    Err(Errno::of(EBADF))
                } else {
                    Ok(fd_raw)
                }
            },
            Err(e) => Err(e),
        }
    }

    /// Opens a stream on the new descriptor `fd_raw`, given what fstat(2)
    /// reported of it: its `st_mode`, or the error. A directory is refused
    /// with `EISDIR`; an error of fstat is passed on. On an error no stream
    /// is made, and `fd_raw` comes back with the error as the descriptor that
    /// must be closed again.
    pub fn open(fd_raw: RawFd, stat: Result<u32, Errno>) -> (r: Result<File, (RawFd, Errno)>)
        requires
            fd_raw >= 0,
            stat matches Err(e) ==> e@ != EFAULT && e@ != EBADF && e@ != EOVERFLOW,
        ensures
            match stat {
                Err(e) => r == Err::<File, (RawFd, Errno)>((fd_raw, e)),
                Ok(mode) => if mode & S_IFDIR == S_IFDIR {
                    r == Err::<File, (RawFd, Errno)>((fd_raw, Errno::spec_of(EISDIR as int)))
                } else {
                    r matches Ok(f) && f.fd() == fd_raw && f.spec_header() == FILE_SIG
                        && f.lock_state() == LockState::unlocked() && f.spec_is_open()
                        && !f.spec_is_buffered()
                },
            },
    {
        let r = File::from_fd_unchecked(fd_raw);
        match stat {
            Ok(mode) => {
                if mode & S_IFDIR == S_IFDIR {
                    return Err((fd_raw, Errno::of(EISDIR)));
                }
                Ok(r)
            },
            Err(e) => Err((fd_raw, e)),
        }
    }

    /// The file descriptor.
    #[verifier::when_used_as_spec(spec_fd)]
    pub fn fd(&self) -> (r: RawFd)
        ensures
            r == self.spec_fd(),
            r != -1,
    {
        self.fd.as_raw_fd()
    }

    /// Whether the stream is open, so that dropping it closes its descriptor.
    #[verifier::when_used_as_spec(spec_is_open)]
    pub fn is_open(&self) -> (r: bool)
        ensures
            r == self.spec_is_open(),
    {
        self.open
    }

    /// The state of the stream's lock.
    #[verifier::when_used_as_spec(spec_lock)]
    pub fn lock_state(&self) -> (r: LockState)
        ensures
            r == self.spec_lock(),
    {
        self.lock
    }

    /// Locks the stream for thread `tid` (see [`LockState::acquire`]):
    /// held when the lock was free (one hold) or already `tid`'s (one more
    /// hold); contended, and left as it is, when another thread holds it.
    pub fn lock(&mut self, tid: i32) -> (r: LockStep)
        requires
            old(self).lock_state().locked && old(self).lock_state().owner_tid == tid
                ==> old(self).lock_state().lock_count < u32::MAX,
        ensures
            final(self).fd() == old(self).fd(),
            final(self).lock_state() == acquired(old(self).lock_state(), tid),
            lock_wf(old(self).lock_state()) ==> lock_wf(final(self).lock_state()),
            acquire_granted(old(self).lock_state(), tid) ==> (r matches LockStep::Held(h)
                && h.spec_fd() == old(self).fd()),
            !acquire_granted(old(self).lock_state(), tid) ==> r == LockStep::Contended,
    {
        if self.lock.acquire(tid) {
            LockStep::Held(FileLock { fd: self.fd() })
        } else {
            LockStep::Contended
        }
    }

    /// Finishes a contended `lock` once the lock is free: thread `tid` takes
    /// it, with one hold.
    pub fn lock_after_wait(&mut self, tid: i32) -> (r: FileLock)
        requires
            !old(self).lock_state().locked,
        ensures
            final(self).fd() == old(self).fd(),
            r.spec_fd() == old(self).fd(),
            final(self).lock_state() == (LockState { locked: true, owner_tid: tid, lock_count: 1 }),
    {
        self.lock.finish_wait(tid);
        FileLock { fd: self.fd() }
    }

    /// Tries to lock the stream for thread `tid` without waiting: a free lock
    /// is taken with one hold and `tid`'s own lock counts one more; `None`,
    /// with the lock left as it is, when another thread holds it.
    pub fn try_lock(&mut self, tid: i32) -> (r: Option<FileLock>)
        requires
            old(self).lock_state().locked && old(self).lock_state().owner_tid == tid
                ==> old(self).lock_state().lock_count < u32::MAX,
        ensures
            final(self).fd() == old(self).fd(),
            final(self).lock_state() == acquired(old(self).lock_state(), tid),
            lock_wf(old(self).lock_state()) ==> lock_wf(final(self).lock_state()),
            acquire_granted(old(self).lock_state(), tid) ==> (r matches Some(h) && h.spec_fd()
                == old(self).fd()),
            !acquire_granted(old(self).lock_state(), tid) ==> r is None,
    {
        if self.lock.acquire(tid) {
            Some(FileLock { fd: self.fd() })
        } else {
            None
        }
    }

    /// Gives up one hold on the stream's lock, as dropping a `FileLock`
    /// does (see [`LockState::release`]).
    pub fn unlock(&mut self, hold: FileLock)
        requires
            old(self).lock_state().lock_count > 0,
            hold.spec_fd() == old(self).fd(),
        ensures
            final(self).fd() == old(self).fd(),
            final(self).lock_state() == released(old(self).lock_state()),
            lock_wf(old(self).lock_state()) ==> lock_wf(final(self).lock_state()),
    {
        self.lock.release();
    }

    /// Closes the stream, given close(2)'s raw return `reply` on its
    /// descriptor: on an error the stream is handed back with the error, so
    /// that it can still be used.
    pub fn close_explicitly(self, reply: i64) -> (r: Result<(), (File, Errno)>)
        ensures
            match r {
                Ok(()) => !is_errno_code(-reply),
                Err((f, e)) => is_errno_code(-reply) && e@ == -reply && f == self,
            },
    {
        match __syscall_ret(reply) {
            Ok(_) => Ok(()),
            Err(e) => Err((self, e)),
        }
    }
}

impl FileLock {
    pub closed spec fn spec_fd(&self) -> RawFd {
        self.fd
    }

    /// The descriptor of the stream this hold is on.
    #[verifier::when_used_as_spec(spec_fd)]
    pub fn fd(&self) -> (r: RawFd)
        ensures
            r == self.spec_fd(),
    {
        self.fd
    }

    /// The write(2) that writes `buf` through the held stream.
    pub fn write(&self, buf: &[u8]) -> (r: TransferCall)
        ensures
            r == TransferCall::spec_new(self.spec_fd(), buf@.len() as usize),
    {
        TransferCall::new(self.fd, buf.len())
    }

    /// The read(2) that reads into `buf` through the held stream.
    pub fn read(&self, buf: &mut [u8]) -> (r: TransferCall)
        ensures
            r == TransferCall::spec_new(self.spec_fd(), old(buf)@.len() as usize),
            final(buf)@ == old(buf)@,
    {
        TransferCall::new(self.fd, buf.len())
    }

    /// The sync that flushes the held stream's data, not its metadata.
    pub fn flush(&self) -> (r: SyncCall)
        ensures
            r.fd == self.spec_fd(),
            r.data_only,
    {
        SyncCall { fd: self.fd, data_only: true }
    }
}

} // verus!
