//! Linux-specific system calls.
use vstd::prelude::*;
use crate::errno::{Errno, ENOMEM};

verus! {

/// What changing the data segment's end to `addr` yields, from brk(2)'s
/// return `reply`, which is always the segment's end as it now stands: that
/// end when it reached `addr`; `ENOMEM` when it fell short.
pub fn brk(addr: usize, reply: usize) -> (r: Result<usize, Errno>)
    ensures
        reply < addr ==> r == Err::<usize, Errno>(Errno::spec_of(ENOMEM as int)),
        reply >= addr ==> r == Ok::<usize, Errno>(reply),
{
    if reply < addr {
        return Err(Errno::of(ENOMEM));
    }
    Ok(reply)
}

} // verus!
