//! Error codes reported by the kernel, and how a raw system call return is
//! read as a result.
use vstd::prelude::*;

verus! {

/// The largest error code that a system call can report: Linux returns the
/// negated code, so a raw return in `-MAX_ERRNO..=-1` is an error.
pub const MAX_ERRNO: i64 = 4095;

/// Interrupted system call.
pub const EINTR: i32 = 4;
/// Bad file descriptor.
pub const EBADF: i32 = 9;
/// Out of memory.
pub const ENOMEM: i32 = 12;
/// Bad address.
pub const EFAULT: i32 = 14;
/// Is a directory.
pub const EISDIR: i32 = 21;
/// File too large.
pub const EFBIG: i32 = 27;
/// Value too large for its data type.
pub const EOVERFLOW: i32 = 75;

/// An error number (`errno`) as the kernel reports it: a code in `1..=MAX_ERRNO`.
#[derive(Debug, Clone, Copy, PartialEq, Eq, Structural)]
pub struct Errno {
    code: i32,
}

impl View for Errno {
    type V = int;

    closed spec fn view(&self) -> int {
        self.code as int
    }
}

/// Whether `code` is a number the kernel can report as an error.
pub open spec fn is_errno_code(code: int) -> bool {
    1 <= code <= MAX_ERRNO
}

impl Errno {
    #[verifier::type_invariant]
    spec fn inv(self) -> bool {
        is_errno_code(self.code as int)
    }

    /// The error with number `code`, if `code` is one.
    pub fn from_code(code: i64) -> (r: Option<Errno>)
        ensures
            r matches Some(e) ==> e@ == code,
            r is Some <==> is_errno_code(code as int),
    {
        if 1 <= code && code <= MAX_ERRNO {
            Some(Errno { code: code as i32 })
        } else {
            None
        }
    }

    /// The error with number `code`, in specifications.
    pub closed spec fn spec_of(code: int) -> Errno {
        Errno { code: code as i32 }
    }

    /// The error with number `code`.
    pub fn of(code: i32) -> (r: Errno)
        requires
            is_errno_code(code as int),
        ensures
            r@ == code,
            r == Errno::spec_of(code as int),
    {
        Errno { code }
    }

    /// The error's number, as C code stores it in `errno`.
    pub fn code(&self) -> (r: i32)
        ensures
            r == self@,
            is_errno_code(r as int),
    {
        proof {
            use_type_invariant(self);
        }
        self.code
    }
}

/// The error with number `code` has that number.
pub proof fn lemma_spec_of(code: int)
    requires
        is_errno_code(code),
    ensures
        Errno::spec_of(code)@ == code,
{
}

/// An error is its number: two errors with the same number are the same.
pub proof fn lemma_same_code_same_error(a: Errno, b: Errno)
    requires
        a@ == b@,
    ensures
        a == b,
{
}

/// Turning a result into an option, with its error stored where C code
/// reads `errno`.
pub trait MapErr<T>: Sized {
    /// `Some` of the success value; on an error, `None`, with the error's
    /// number written to `errno`.
    fn set_errno(self, errno: &mut i32) -> Option<T>;
}

impl<T> MapErr<T> for Result<T, Errno> {
    fn set_errno(self, errno: &mut i32) -> (r: Option<T>)
        ensures
            match self {
                Ok(v) => r == Some(v) && *final(errno) == *old(errno),
                Err(e) => r is None && *final(errno) == e@,
            },
    {
        match self {
            Ok(v) => Some(v),
            Err(e) => {
                *errno = e.code();
                None
            },
        }
    }
}

/// Reads a raw system call return: a value in `-MAX_ERRNO..=-1` is the
/// negated error code, anything else is the call's result.
pub fn __syscall_ret(ret: i64) -> (r: Result<i64, Errno>)
    ensures
        match r {
            Ok(v) => !is_errno_code(-ret) && v == ret,
            Err(e) => is_errno_code(-ret) && e@ == -ret && e == Errno::spec_of(-ret),
        },
{
    if -MAX_ERRNO <= ret && ret <= -1 {
        Err(Errno { code: (-ret) as i32 })
    } else {
        Ok(ret)
    }
}

} // verus!
