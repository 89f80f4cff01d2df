use rslibc::errno::{Errno, EBADF, EISDIR, ENOMEM};
use rslibc::file::{File, LockState, LockStep, FILE_SIG};
use rslibc::io::TransferCall;

fn state(locked: bool, owner_tid: i32, lock_count: u32) -> LockState {
    LockState { locked, owner_tid, lock_count }
}

#[test]
fn new_stream_is_unlocked_and_open() {
    let f = File::from_fd_unchecked(1);
    assert_eq!(f.fd(), 1);
    assert_eq!(f.lock_state(), state(false, 0, 0));
    assert_eq!(FILE_SIG, *b"FILE");
}

#[test]
fn lock_then_unlock_frees_the_lock() {
    let mut f = File::from_fd_unchecked(1);
    let hold = match f.lock(42) {
        LockStep::Held(h) => h,
        LockStep::Contended => panic!("a free lock is contended"),
    };
    assert_eq!(f.lock_state(), state(true, 42, 1));
    f.unlock(hold);
    assert_eq!(f.lock_state(), LockState::unlocked());
}

#[test]
fn owner_reenters_with_one_more_hold() {
    let mut f = File::from_fd_unchecked(1);
    let outer = f.try_lock(7).unwrap();
    let inner = f.try_lock(7).unwrap();
    assert_eq!(f.lock_state(), state(true, 7, 2));
    f.unlock(inner);
    assert_eq!(f.lock_state(), state(true, 7, 1));
    let again = match f.lock(7) {
        LockStep::Held(h) => h,
        LockStep::Contended => panic!("the owner is refused"),
    };
    assert_eq!(f.lock_state(), state(true, 7, 2));
    f.unlock(again);
    f.unlock(outer);
    assert_eq!(f.lock_state(), state(false, 0, 0));
}

#[test]
fn other_thread_is_refused() {
    let mut f = File::from_fd_unchecked(2);
    let _h = f.try_lock(7).unwrap();
    assert!(f.try_lock(8).is_none());
    assert_eq!(f.lock(8), LockStep::Contended);
    assert_eq!(f.lock_state(), state(true, 7, 1));
}

#[test]
fn waiter_takes_the_lock_once_free() {
    let mut f = File::from_fd_unchecked(2);
    let h = f.try_lock(7).unwrap();
    assert_eq!(f.lock(8), LockStep::Contended);
    f.unlock(h);
    let w = f.lock_after_wait(8);
    assert_eq!(f.lock_state(), state(true, 8, 1));
    assert!(f.try_lock(9).is_none());
    f.unlock(w);
    assert_eq!(f.lock_state(), state(false, 0, 0));
}

#[test]
fn held_stream_reads_and_writes_its_descriptor() {
    let mut f = File::from_fd_unchecked(5);
    let h = f.try_lock(1).unwrap();
    assert_eq!(h.write(b"hello"), TransferCall { fd: 5, len: 5 });
    let mut buf = [0u8; 3];
    assert_eq!(h.read(&mut buf), TransferCall { fd: 5, len: 3 });
    assert_eq!(h.flush().fd, 5);
    assert!(h.flush().data_only);
}

#[test]
fn open_decodes_the_descriptor() {
    assert_eq!(File::open_descriptor(3), Ok(3));
    assert_eq!(File::open_descriptor(-9), Err(Errno::of(EBADF)));
    assert_eq!(File::open_descriptor(-5000), Err(Errno::of(EBADF)));
    assert_eq!(File::open_descriptor(-2).map_err(|e| e.code()), Err(2));
}

#[test]
fn open_refuses_directories() {
    assert_eq!(File::open(3, Ok(0o040755)).map(|f| f.fd()), Err((3, Errno::of(EISDIR))));
    assert_eq!(File::open(3, Ok(0o100644)).map(|f| f.fd()), Ok(3));
    assert_eq!(
        File::open(4, Err(Errno::of(ENOMEM))).map(|f| f.fd()),
        Err((4, Errno::of(ENOMEM)))
    );
}

#[test]
fn close_hands_the_stream_back_on_error() {
    let f = File::from_fd_unchecked(4);
    match f.close_explicitly(-9) {
        Err((back, e)) => {
            assert_eq!(e, Errno::of(EBADF));
            assert_eq!(back.fd(), 4);
            assert!(back.close_explicitly(0).is_ok());
        }
        Ok(()) => panic!("close reported success"),
    }
}
