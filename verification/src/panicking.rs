//! What the runtime does when a thread panics.
use vstd::prelude::*;

verus! {

/// Where a panic arose, as it is handed to the panic handler.
#[derive(Debug)]
pub struct RsLibCPanicLocation {}

/// What a panic does, given how many panics the thread is already in.
#[derive(Debug, Clone, Copy, PartialEq, Eq, Structural)]
pub enum PanicEntry {
    /// A panic while panicking: abort the process.
    Abort,
    /// The first panic: go on, with this count.
    Proceed(u8),
}

/// How a panic starts on a thread that is in `count` panics already: a
/// second panic aborts, the first is counted.
pub fn panic_entry(count: u8) -> (r: PanicEntry)
    ensures
        count != 0 ==> r == PanicEntry::Abort,
        count == 0 ==> r == PanicEntry::Proceed(1),
{
    if count != 0 {
        PanicEntry::Abort
    } else {
        PanicEntry::Proceed(count + 1)
    }
}

} // verus!
