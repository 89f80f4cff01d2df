use rslibc::errno::{Errno, MapErr, __syscall_ret, EBADF, EFBIG, EINTR};
use rslibc::io::{SyncCall, TransferCall, WriteAll};

#[test]
fn syscall_ret_reads_error_range() {
    assert_eq!(__syscall_ret(5), Ok(5));
    assert_eq!(__syscall_ret(0), Ok(0));
    assert_eq!(__syscall_ret(-1).map_err(|e| e.code()), Err(1));
    assert_eq!(__syscall_ret(-4095).map_err(|e| e.code()), Err(4095));
    assert_eq!(__syscall_ret(-4096), Ok(-4096));
    assert_eq!(__syscall_ret(-9), Err(Errno::of(EBADF)));
}

#[test]
fn errno_codes_round_trip() {
    assert_eq!(Errno::from_code(0), None);
    assert_eq!(Errno::from_code(4096), None);
    assert_eq!(Errno::from_code(-4), None);
    let e = Errno::from_code(4).unwrap();
    assert_eq!(e, Errno::of(EINTR));
    assert_eq!(Errno::from_code(e.code() as i64), Some(e));
}

#[test]
fn set_errno_stores_the_error() {
    let mut errno = 0;
    let ok: Result<u32, Errno> = Ok(7);
    assert_eq!(ok.set_errno(&mut errno), Some(7));
    assert_eq!(errno, 0);
    let err: Result<u32, Errno> = Err(Errno::of(EBADF));
    assert_eq!(err.set_errno(&mut errno), None);
    assert_eq!(errno, 9);
}

#[test]
fn write_all_consumes_partial_writes() {
    let mut w = WriteAll::new(10);
    assert!(!w.is_done());
    assert_eq!(w.advance(Ok(4)), None);
    assert_eq!(w.remaining(), 6);
    assert_eq!(w.advance(Ok(6)), None);
    assert!(w.is_done());
}

#[test]
fn write_all_retries_interrupted_writes() {
    let mut w = WriteAll::new(3);
    assert_eq!(w.advance(Err(Errno::of(EINTR))), None);
    assert_eq!(w.remaining(), 3);
}

#[test]
fn write_all_full_file_is_efbig() {
    let mut w = WriteAll::new(3);
    assert_eq!(w.advance(Ok(0)), Some(Err(Errno::of(EFBIG))));
}

#[test]
fn write_all_passes_other_errors_on() {
    let mut w = WriteAll::new(3);
    assert_eq!(w.advance(Err(Errno::of(EBADF))), Some(Err(Errno::of(EBADF))));
}

#[test]
fn transfer_call_clamps_and_decodes() {
    let c = TransferCall::new(3, usize::MAX);
    assert_eq!(c.len, isize::MAX as usize);
    assert_eq!(c.fd, 3);
    assert_eq!(TransferCall::new(3, 12).len, 12);
    assert_eq!(c.finish(12), Ok(12));
    assert_eq!(c.finish(-9), Err(Errno::of(EBADF)));
    let s = SyncCall { fd: 3, data_only: true };
    assert_eq!(s.finish(0), Ok(()));
    assert_eq!(s.finish(-4), Err(Errno::of(EINTR)));
}
