//! Owned and borrowed Unix file descriptors.
use vstd::prelude::*;
use crate::io::{transfer_len, SyncCall, TransferCall};
use core::marker::PhantomData;

verus! {

/// A raw file descriptor.
pub type RawFd = i32;

/// Objects that stand for a raw file descriptor.
pub trait AsRawFd {
    /// The descriptor's number.
    fn as_raw_fd(&self) -> RawFd;
}

/// An owned file descriptor: never `-1`, which is no descriptor.
#[derive(Debug)]
pub struct OwnedFd {
    fd: RawFd,
}

impl View for OwnedFd {
    type V = RawFd;

    closed spec fn view(&self) -> RawFd {
        self.fd
    }
}

impl OwnedFd {
    #[verifier::type_invariant]
    spec fn inv(self) -> bool {
        self.fd != -1
    }

    /// Takes ownership of `fd`, which the caller vouches is an open
    /// descriptor; `-1` is not one.
    pub fn from_raw_fd_unchecked(fd: RawFd) -> (r: OwnedFd)
        requires
            fd != -1,
        ensures
            r@ == fd,
    {
        OwnedFd { fd }
    }

    /// Takes ownership of `fd`, an open descriptor; `-1` is not one.
    pub fn from_raw(fd: RawFd) -> (r: OwnedFd)
        requires
            fd != -1,
        ensures
            r@ == fd,
    {
        OwnedFd { fd }
    }

    /// The read(2) that reads into `buf` from this descriptor.
    pub fn read(&self, buf: &mut [u8]) -> (r: TransferCall)
        ensures
            r.fd == self@,
            r.len == transfer_len(old(buf)@.len() as usize),
            final(buf)@ == old(buf)@,
    {
        TransferCall::new(self.as_raw_fd(), buf.len())
    }

    /// The write(2) that writes `buf` to this descriptor.
    pub fn write(&self, buf: &[u8]) -> (r: TransferCall)
        ensures
            r.fd == self@,
            r.len == transfer_len(buf@.len() as usize),
    {
        TransferCall::new(self.as_raw_fd(), buf.len())
    }

    /// The sync that flushes this descriptor's data, not its metadata, to
    /// its device.
    pub fn flush(&self) -> (r: SyncCall)
        ensures
            r.fd == self@,
            r.data_only,
    {
        SyncCall { fd: self.as_raw_fd(), data_only: true }
    }
}

impl AsRawFd for OwnedFd {
    fn as_raw_fd(&self) -> (r: RawFd)
        ensures
            r == self@,
            r != -1,
    {
        proof {
            use_type_invariant(self);
        }
        self.fd
    }
}

/// A file descriptor borrowed from its owner for `'s`: never `-1`.
#[derive(Debug)]
pub struct BorrowedFd<'s> {
    fd: RawFd,
    _marker: PhantomData<&'s OwnedFd>,
}

impl<'s> View for BorrowedFd<'s> {
    type V = RawFd;

    closed spec fn view(&self) -> RawFd {
        self.fd
    }
}

impl<'s> BorrowedFd<'s> {
    #[verifier::type_invariant]
    spec fn inv(self) -> bool {
        self.fd != -1
    }
}

impl<'s> AsRawFd for BorrowedFd<'s> {
    fn as_raw_fd(&self) -> (r: RawFd)
        ensures
            r == self@,
            r != -1,
    {
        proof {
            use_type_invariant(self);
        }
        self.fd
    }
}

} // verus!
