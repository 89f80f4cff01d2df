//! The record that registers a signal handler with the kernel.
//!
//! Handlers are kept as their addresses: 0 is no handler (`SIG_DFL`).
use vstd::prelude::*;

verus! {

/// The disposition that asks for a signal's default action.
pub const SIG_DFL: usize = 0;

/// The disposition that asks for a signal to be ignored.
pub const SIG_IGN: usize = 1;

/// A set of signals, one bit each, as the kernel lays it out on 64-bit
/// targets.
#[allow(non_camel_case_types)]
#[derive(Debug, Clone, Copy)]
pub struct sigset_t {
    __val: [u64; 16],
}

impl sigset_t {
    pub closed spec fn spec_words(&self) -> [u64; 16] {
        self.__val
    }

    /// The set with these words.
    pub fn from_words(words: [u64; 16]) -> (r: sigset_t)
        ensures
            r.words() == words,
    {
        sigset_t { __val: words }
    }

    /// The set's words.
    #[verifier::when_used_as_spec(spec_words)]
    pub fn words(&self) -> (r: [u64; 16])
        ensures
            r == self.spec_words(),
    {
        self.__val
    }
}

/// What to do when a signal arrives.
#[derive(Debug, Clone, Copy, PartialEq, Eq, Structural)]
pub enum SigActionHandler {
    /// The signal's default action.
    Default,
    /// Ignore the signal.
    Ignore,
    /// Call the one-argument handler at this address (0 for none).
    Handler(usize),
    /// Call the three-argument handler at this address (0 for none).
    Action(usize),
}

impl Default for SigActionHandler {
    fn default() -> (r: SigActionHandler)
        ensures
            r == SigActionHandler::Default,
    {
        SigActionHandler::Default
    }
}

/// The `sa_handler` field that `action` sets.
pub open spec fn handler_field(action: SigActionHandler) -> usize {
    match action {
        SigActionHandler::Default => SIG_DFL,
        SigActionHandler::Ignore => SIG_IGN,
        SigActionHandler::Handler(h) => h,
        SigActionHandler::Action(_) => 0,
    }
}

/// The `sa_sigaction` field that `action` sets.
pub open spec fn sigaction_field(action: SigActionHandler) -> usize {
    match action {
        SigActionHandler::Action(h) => h,
        _ => 0,
    }
}

/// The `sigaction` record: the handler (one-argument or three-argument),
/// the signals blocked while it runs, the flags, and the restorer.
#[allow(non_camel_case_types)]
#[derive(Debug, Clone, Copy)]
pub struct sigaction {
    sa_handler: usize,
    sa_sigaction: usize,
    sa_mask: sigset_t,
    sa_flags: i32,
    sa_restorer: usize,
}

impl sigaction {
    pub closed spec fn spec_handler(&self) -> usize {
        self.sa_handler
    }

    pub closed spec fn spec_sigaction_fn(&self) -> usize {
        self.sa_sigaction
    }

    pub closed spec fn spec_mask(&self) -> sigset_t {
        self.sa_mask
    }

    pub closed spec fn spec_flags(&self) -> i32 {
        self.sa_flags
    }

    pub closed spec fn spec_restorer(&self) -> usize {
        self.sa_restorer
    }

    /// The record for `action`, with `flags` and the blocked signals `mask`.
    /// Both handler fields start zeroed; the default action sets
    /// `sa_handler` to `SIG_DFL`, ignoring sets it to `SIG_IGN`, a
    /// one-argument handler goes into `sa_handler` and a three-argument one
    /// into `sa_sigaction`. There is no restorer.
    pub fn new(action: SigActionHandler, flags: i32, mask: sigset_t) -> (r: sigaction)
        ensures
            r.handler() == handler_field(action),
            r.sigaction_fn() == sigaction_field(action),
            r.mask().words() == mask.words(),
            r.flags() == flags,
            r.restorer() == 0,
    {
        let mut r = sigaction {
            sa_handler: 0,
            sa_sigaction: 0,
            sa_mask: mask,
            sa_flags: flags,
            sa_restorer: 0,
        };
        match action {
            SigActionHandler::Default => {
                r.sa_handler = SIG_DFL;
            },
            SigActionHandler::Ignore => {
                r.sa_handler = SIG_IGN;
            },
            SigActionHandler::Handler(h) => {
                r.sa_handler = h;
            },
            SigActionHandler::Action(h) => {
                r.sa_sigaction = h;
            },
        }
        r
    }

    /// The `sa_handler` field.
    #[verifier::when_used_as_spec(spec_handler)]
    pub fn handler(&self) -> (r: usize)
        ensures
            r == self.spec_handler(),
    {
        self.sa_handler
    }

    /// The `sa_sigaction` field.
    #[verifier::when_used_as_spec(spec_sigaction_fn)]
    pub fn sigaction_fn(&self) -> (r: usize)
        ensures
            r == self.spec_sigaction_fn(),
    {
        self.sa_sigaction
    }

    /// The `sa_mask` field.
    #[verifier::when_used_as_spec(spec_mask)]
    pub fn mask(&self) -> (r: sigset_t)
        ensures
            r == self.spec_mask(),
    {
        self.sa_mask
    }

    /// The `sa_flags` field.
    #[verifier::when_used_as_spec(spec_flags)]
    pub fn flags(&self) -> (r: i32)
        ensures
            r == self.spec_flags(),
    {
        self.sa_flags
    }

    /// The `sa_restorer` field.
    #[verifier::when_used_as_spec(spec_restorer)]
    pub fn restorer(&self) -> (r: usize)
        ensures
            r == self.spec_restorer(),
    {
        self.sa_restorer
    }
}

/// What the kernel reports of a signal: its number, an error number and a
/// code, followed by fields that depend on the signal.
#[allow(non_camel_case_types)]
#[derive(Debug, Clone, Copy)]
pub struct siginfo {
    pub signo: i32,
    pub errno: i32,
    pub code: i32,
    _pad: [i32; 29],
}

} // verus!
