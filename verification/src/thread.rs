//! POSIX threads: a thread's id and its own `errno`.
use vstd::prelude::*;
use crate::errno::{is_errno_code, Errno};

verus! {

/// A POSIX thread: its id and its `errno` (0 before any error).
#[derive(Debug)]
pub struct PThread {
    thread_id: i32,
    errno: i32,
}

impl PThread {
    pub closed spec fn spec_tid(&self) -> i32 {
        self.thread_id
    }

    pub closed spec fn spec_errno_raw(&self) -> i32 {
        self.errno
    }

    /// The record of the thread with id `thread_id`, with `errno` 0.
    pub fn from_thread_id(thread_id: i32) -> (r: PThread)
        ensures
            r.tid() == thread_id,
            r.get_errno_raw() == 0,
    {
        PThread { thread_id, errno: 0 }
    }

    /// The thread's `errno` as an error; `None` when it holds no error code
    /// (such as 0, before any error, or a value a program chose).
    pub fn get_errno(&self) -> (r: Option<Errno>)
        ensures
            r is Some <==> is_errno_code(self.get_errno_raw() as u32 as int),
            r matches Some(e) ==> e@ == self.get_errno_raw() as u32 as int,
    {
        let val = self.errno as u32;
        Errno::from_code(val as i64)
    }

    /// The thread's `errno`, whatever it holds.
    #[verifier::when_used_as_spec(spec_errno_raw)]
    pub fn get_errno_raw(&self) -> (r: i32)
        ensures
            r == self.spec_errno_raw(),
    {
        self.errno
    }

    /// Stores `err` in the thread's `errno`; returns what it held.
    pub fn swap_errno(&mut self, err: Errno) -> (r: i32)
        ensures
            r == old(self).get_errno_raw(),
            final(self).get_errno_raw() == err@,
            final(self).tid() == old(self).tid(),
    {
        let old_errno = self.errno;
        self.errno = err.code();
        old_errno
    }

    /// Stores `err` in the thread's `errno`.
    pub fn set_errno(&mut self, err: Errno)
        ensures
            final(self).get_errno_raw() == err@,
            final(self).tid() == old(self).tid(),
    {
        self.errno = err.code();
    }

    /// The thread's id.
    #[verifier::when_used_as_spec(spec_tid)]
    pub fn tid(&self) -> (r: i32)
        ensures
            r == self.spec_tid(),
    {
        self.thread_id
    }
}

/// After an error is stored in a thread's `errno`, reading `errno` as an
/// error gives that error back.
pub proof fn lemma_set_then_get_errno(raw: i32, e: Errno)
    requires
        is_errno_code(e@),
        raw == e@,
    ensures
        is_errno_code(raw as u32 as int),
        raw as u32 as int == e@,
{
}

impl PartialEq for PThread {
    /// Two records stand for the same thread when their ids agree
    /// (`pthread_equal`).
    fn eq(&self, other: &Self) -> (r: bool) {
        self.thread_id == other.thread_id
    }
}

impl vstd::std_specs::cmp::PartialEqSpecImpl for PThread {
    open spec fn obeys_eq_spec() -> bool {
        true
    }

    open spec fn eq_spec(&self, other: &Self) -> bool {
        self.tid() == other.tid()
    }
}

} // verus!
