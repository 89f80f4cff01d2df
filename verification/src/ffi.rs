//! Strings as C code sees them.
use vstd::prelude::*;

verus! {

/// An owned C string: its bytes, ending in a nul byte.
pub struct CString {
    inner: Vec<u8>,
}

} // verus!
