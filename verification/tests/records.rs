use rslibc::auxv::{AuxType, AuxiliaryVector, AuxvVal, ElfAuxv};
use rslibc::common::Libc;
use rslibc::env::EnvVars;
use rslibc::errno::{Errno, EBADF, EINTR, ENOMEM};
use rslibc::fd::{AsRawFd, OwnedFd};
use rslibc::linux::brk;
use rslibc::panicking::{panic_entry, PanicEntry};
use rslibc::signal::{sigaction, sigset_t, SigActionHandler, SIG_IGN};
use rslibc::stdio::{File, Mode, CURRENT_VERSION, MAGIC};
use rslibc::thread::PThread;

#[test]
fn api_file_records_its_fields() {
    let f = File::from_fd(3, Mode::read());
    assert_eq!(f.fd(), 3);
    assert_eq!(f.get_magic(), 0xDEADBEEF);
    assert_eq!(f.get_magic(), MAGIC);
    assert_eq!(f.get_version(), CURRENT_VERSION);
}

#[test]
fn mode_bits() {
    let m = Mode::read().union(Mode::append());
    assert_eq!(m.bits(), 12);
    assert!(m.contains(Mode::write()));
    assert!(!m.contains(Mode::binary()));
    let f = Mode::from_bits_retain(17).fields();
    assert!(f.binary && f.update && !f.read && !f.write && !f.append);
    assert_eq!(Mode::empty().bits(), 0);
}

#[test]
fn sigaction_places_each_handler() {
    let mask = sigset_t::from_words([1; 16]);
    let d = sigaction::new(SigActionHandler::Default, 4, mask);
    assert_eq!((d.handler(), d.sigaction_fn(), d.flags(), d.restorer()), (0, 0, 4, 0));
    assert_eq!(d.mask().words(), [1; 16]);
    let i = sigaction::new(SigActionHandler::Ignore, 0, mask);
    assert_eq!(i.handler(), SIG_IGN);
    let h = sigaction::new(SigActionHandler::Handler(0x4000), 0, mask);
    assert_eq!((h.handler(), h.sigaction_fn()), (0x4000, 0));
    let a = sigaction::new(SigActionHandler::Action(0x5000), 0, mask);
    assert_eq!((a.handler(), a.sigaction_fn()), (0, 0x5000));
    assert_eq!(SigActionHandler::default(), SigActionHandler::Default);
}

#[test]
fn aux_types_by_number() {
    assert_eq!(AuxType::try_from(6), Some(AuxType::PAGESZ));
    assert_eq!(AuxType::try_from(51), Some(AuxType::MINSIGSTKSZ));
    assert_eq!(AuxType::try_from(18), None);
    assert_eq!(AuxType::Secure.code(), 23);
    let e = ElfAuxv { type_: 6, val: 4096 };
    assert_eq!(e.get_type(), Some(AuxType::PAGESZ));
    assert_eq!(e.get_val(), Some(AuxvVal::Int(4096)));
    assert_eq!(ElfAuxv { type_: 25, val: 0x7000 }.get_val(), Some(AuxvVal::Pointer(0x7000)));
    assert_eq!(ElfAuxv { type_: 9, val: 0x401000 }.get_val(), Some(AuxvVal::Function(0x401000)));
    assert_eq!(ElfAuxv { type_: 0, val: 0 }.get_val(), None);
    assert_eq!(ElfAuxv { type_: 3, val: 0x400040 }.get_val(), None);
    assert_eq!(ElfAuxv { type_: 20, val: 1 }.get_val(), None);
    assert_eq!(ElfAuxv { type_: 1000, val: 1 }.get_val(), None);
}

#[test]
fn auxiliary_vector_ends_at_null() {
    let entries = [
        ElfAuxv { type_: 6, val: 4096 },
        ElfAuxv { type_: 99, val: 1 },
        ElfAuxv { type_: 0, val: 0 },
        ElfAuxv { type_: 7, val: 5 },
    ];
    let v = AuxiliaryVector::from_ptr(&entries);
    assert!(v.entries() == &entries[..2]);
}

#[test]
fn aux_val_lookup() {
    let libc = Libc::new(Some(vec![6, 4096, 23, 1, 0, 0]), false);
    assert_eq!(libc.get_aux_val(6), Some(4096));
    assert_eq!(libc.get_aux_val(23), Some(1));
    assert_eq!(libc.get_aux_val(25), None);
    assert_eq!(libc.get_aux_val(0), None);
    assert_eq!(Libc::default().get_aux_val(6), None);
    let ignored = Libc::new(Some(vec![1, 77, 6, 4096, 1, 5, 0, 0]), false);
    assert_eq!(ignored.get_aux_val(6), Some(4096));
    assert_eq!(ignored.get_aux_val(1), None);
    assert_eq!(ignored.get_aux_val(25), None);
    let unterminated = Libc::new(Some(vec![6, 4096, 25]), false);
    assert_eq!(unterminated.get_aux_val(25), None);
    assert!(Libc::default().get_auxv_ptr().is_none());
}

#[test]
fn libc_errno_cell() {
    let mut libc = Libc::default();
    assert_eq!(libc.get_errno(), 0);
    *libc.get_errno_mut() = 12;
    assert_eq!(libc.get_errno(), 12);
    assert!(!libc.is_secure());
    assert!(Libc::new(None, true).is_secure());
}

#[test]
fn thread_errno() {
    let mut t = PThread::from_thread_id(77);
    assert_eq!(t.tid(), 77);
    assert_eq!(t.get_errno(), None);
    t.set_errno(Errno::of(EBADF));
    assert_eq!(t.get_errno_raw(), 9);
    assert_eq!(t.get_errno(), Some(Errno::of(EBADF)));
    assert_eq!(t.swap_errno(Errno::of(EINTR)), 9);
    assert_eq!(t.get_errno(), Some(Errno::of(EINTR)));
    assert!(t == PThread::from_thread_id(77));
    assert!(t != PThread::from_thread_id(78));
}

#[test]
fn owned_fd_calls() {
    let fd = OwnedFd::from_raw(3);
    assert_eq!(fd.as_raw_fd(), 3);
    let w = fd.write(b"abc");
    assert_eq!((w.fd, w.len), (3, 3));
    let mut buf = [0u8; 8];
    assert_eq!(fd.read(&mut buf).len, 8);
    assert_eq!(fd.flush().fd, 3);
    assert!(fd.flush().data_only);
    assert_eq!(OwnedFd::from_raw_fd_unchecked(0).as_raw_fd(), 0);
}

#[test]
fn brk_falls_short_with_enomem() {
    assert_eq!(brk(0x5000, 0x5000), Ok(0x5000));
    assert_eq!(brk(0x5000, 0x6000), Ok(0x6000));
    assert_eq!(brk(0x5000, 0x4000), Err(Errno::of(ENOMEM)));
}

#[test]
fn second_panic_aborts() {
    assert_eq!(panic_entry(0), PanicEntry::Proceed(1));
    assert_eq!(panic_entry(1), PanicEntry::Abort);
}

#[test]
fn env_vars_start_empty() {
    let _ = EnvVars::new();
}
