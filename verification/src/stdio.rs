//! The `FILE` record that crosses into C code: a magic number, a version, a
//! descriptor and the mode it was opened in.
use vstd::prelude::*;

verus! {

/// File mode options, as a set of bits.
#[derive(Debug, Clone, Copy, PartialEq, Eq, Structural)]
pub struct Mode {
    bits: u8,
}

/// Which of the named options a mode holds, one flag each.
#[derive(Debug, Clone, Copy, PartialEq, Eq, Structural)]
pub struct ModeFields {
    pub binary: bool,
    pub read: bool,
    pub write: bool,
    pub append: bool,
    pub update: bool,
}

impl View for Mode {
    type V = u8;

    closed spec fn view(&self) -> u8 {
        self.bits
    }
}

impl Mode {
    /// Binary mode.
    pub fn binary() -> (r: Mode)
        ensures
            r@ == 1,
    {
        Mode { bits: 1 }
    }

    /// Open for reading. (It shares its bit with `write`.)
    pub fn read() -> (r: Mode)
        ensures
            r@ == 4,
    {
        Mode { bits: 4 }
    }

    /// Open for writing. (It shares its bit with `read`.)
    pub fn write() -> (r: Mode)
        ensures
            r@ == 4,
    {
        Mode { bits: 4 }
    }

    /// Append to the end.
    pub fn append() -> (r: Mode)
        ensures
            r@ == 8,
    {
        Mode { bits: 8 }
    }

    /// Open for update, the `+` of a C mode string.
    pub fn update() -> (r: Mode)
        ensures
            r@ == 16,
    {
        Mode { bits: 16 }
    }

    /// No options.
    pub fn empty() -> (r: Mode)
        ensures
            r@ == 0,
    {
        Mode { bits: 0 }
    }

    /// The mode with exactly these bits.
    pub fn from_bits_retain(bits: u8) -> (r: Mode)
        ensures
            r@ == bits,
    {
        Mode { bits }
    }

    /// The mode's bits.
    pub fn bits(&self) -> (r: u8)
        ensures
            r == self@,
    {
        self.bits
    }

    /// Whether every bit of `other` is set in `self`.
    pub fn contains(&self, other: Mode) -> (r: bool)
        ensures
            r == (self@ & other@ == other@),
    {
        self.bits & other.bits == other.bits
    }

    /// The options of both modes.
    pub fn union(self, other: Mode) -> (r: Mode)
        ensures
            r@ == self@ | other@,
    {
        Mode { bits: self.bits | other.bits }
    }

    /// Which named options the mode holds, as a debug listing shows them.
    pub fn fields(&self) -> (r: ModeFields)
        ensures
            r.binary == (self@ & 1 == 1),
            r.read == (self@ & 4 == 4),
            r.write == (self@ & 4 == 4),
            r.append == (self@ & 8 == 8),
            r.update == (self@ & 16 == 16),
    {
        ModeFields {
            binary: self.contains(Mode::binary()),
            read: self.contains(Mode::read()),
            write: self.contains(Mode::write()),
            append: self.contains(Mode::append()),
            update: self.contains(Mode::update()),
        }
    }
}

/// The magic number at the top of every `FILE` of this library.
pub const MAGIC: u32 = 0xDEADBEEF;

/// The layout version of `FILE`; it grows when a field is added.
pub const CURRENT_VERSION: u32 = 0;

/// A representation of an open file: any file descriptor, not strictly a file.
#[derive(Debug)]
pub struct File {
    magic: u32,
    ver: u32,
    fd: u64,
    mode: Mode,
}

impl File {
    pub closed spec fn spec_fd(&self) -> u64 {
        self.fd
    }

    pub closed spec fn spec_magic(&self) -> u32 {
        self.magic
    }

    pub closed spec fn spec_version(&self) -> u32 {
        self.ver
    }

    pub closed spec fn spec_mode(&self) -> Mode {
        self.mode
    }

    /// A `FILE` for descriptor `fd`, opened in `mode`.
    pub fn from_fd(fd: u64, mode: Mode) -> (r: File)
        ensures
            r.fd() == fd,
            r.get_magic() == MAGIC,
            r.get_version() == CURRENT_VERSION,
            r.spec_mode() == mode,
    {
        File { magic: MAGIC, ver: CURRENT_VERSION, fd, mode }
    }

    /// The file descriptor.
    #[verifier::when_used_as_spec(spec_fd)]
    pub fn fd(&self) -> (r: u64)
        ensures
            r == self.spec_fd(),
    {
        self.fd
    }

    /// The magic number: `MAGIC` for a `FILE` of this library.
    #[verifier::when_used_as_spec(spec_magic)]
    pub fn get_magic(&self) -> (r: u32)
        ensures
            r == self.spec_magic(),
    {
        self.magic
    }

    /// The layout version of the record.
    #[verifier::when_used_as_spec(spec_version)]
    pub fn get_version(&self) -> (r: u32)
        ensures
            r == self.spec_version(),
    {
        self.ver
    }
}

} // verus!
