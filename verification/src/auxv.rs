//! The auxiliary vector: the entries that the kernel hands a new process
//! beside its arguments and environment.
use vstd::prelude::*;

verus! {

/// The type of an auxiliary vector entry (the kernel's `AT_*` numbers).
#[allow(non_camel_case_types)]
#[derive(Debug, Clone, Copy, PartialEq, Eq, Structural)]
pub enum AuxType {
    NULL,
    IGNORE,
    EXECFD,
    PHDR,
    PHENT,
    PHNUM,
    PAGESZ,
    BASE,
    FLAGS,
    ENTRY,
    NOTELF,
    UID,
    EUID,
    GID,
    EGID,
    PLATFORM,
    HWCAP,
    CLKTCK,
    Secure,
    BasePlatform,
    RANDOM,
    HWCAP2,
    RSEQ_FEATURE_SIZE,
    RSEQ_ALIGN,
    HWCAP3,
    HWCAP4,
    EXECFN,
    MINSIGSTKSZ,
}

/// The kernel's number for entry type `t`.
pub open spec fn aux_type_code(t: AuxType) -> i64 {
    match t {
        AuxType::NULL => 0,
        AuxType::IGNORE => 1,
        AuxType::EXECFD => 2,
        AuxType::PHDR => 3,
        AuxType::PHENT => 4,
        AuxType::PHNUM => 5,
        AuxType::PAGESZ => 6,
        AuxType::BASE => 7,
        AuxType::FLAGS => 8,
        AuxType::ENTRY => 9,
        AuxType::NOTELF => 10,
        AuxType::UID => 11,
        AuxType::EUID => 12,
        AuxType::GID => 13,
        AuxType::EGID => 14,
        AuxType::PLATFORM => 15,
        AuxType::HWCAP => 16,
        AuxType::CLKTCK => 17,
        AuxType::Secure => 23,
        AuxType::BasePlatform => 24,
        AuxType::RANDOM => 25,
        AuxType::HWCAP2 => 26,
        AuxType::RSEQ_FEATURE_SIZE => 27,
        AuxType::RSEQ_ALIGN => 28,
        AuxType::HWCAP3 => 29,
        AuxType::HWCAP4 => 30,
        AuxType::EXECFN => 31,
        AuxType::MINSIGSTKSZ => 51,
    }
}

/// Whether `v` is the number of a known entry type.
pub open spec fn is_aux_type_code(v: i64) -> bool {
    v == 0 || v == 1 || v == 2 || v == 3 || v == 4 || v == 5 || v == 6 || v == 7 || v == 8 || v == 9 || v == 10 || v == 11 || v == 12 || v == 13 || v == 14 || v == 15 || v == 16 || v == 17 || v == 23 || v == 24 || v == 25 || v == 26 || v == 27 || v == 28 || v == 29 || v == 30 || v == 31 || v == 51
}

impl AuxType {
    /// The entry type with number `val`, if there is one.
    pub fn try_from(val: i64) -> (r: Option<AuxType>)
        ensures
            r matches Some(t) ==> aux_type_code(t) == val,
            r is Some <==> is_aux_type_code(val),
    {
        match val {
            0 => Some(AuxType::NULL),
            1 => Some(AuxType::IGNORE),
            2 => Some(AuxType::EXECFD),
            3 => Some(AuxType::PHDR),
            4 => Some(AuxType::PHENT),
            5 => Some(AuxType::PHNUM),
            6 => Some(AuxType::PAGESZ),
            7 => Some(AuxType::BASE),
            8 => Some(AuxType::FLAGS),
            9 => Some(AuxType::ENTRY),
            10 => Some(AuxType::NOTELF),
            11 => Some(AuxType::UID),
            12 => Some(AuxType::EUID),
            13 => Some(AuxType::GID),
            14 => Some(AuxType::EGID),
            15 => Some(AuxType::PLATFORM),
            16 => Some(AuxType::HWCAP),
            17 => Some(AuxType::CLKTCK),
            23 => Some(AuxType::Secure),
            24 => Some(AuxType::BasePlatform),
            25 => Some(AuxType::RANDOM),
            26 => Some(AuxType::HWCAP2),
            27 => Some(AuxType::RSEQ_FEATURE_SIZE),
            28 => Some(AuxType::RSEQ_ALIGN),
            29 => Some(AuxType::HWCAP3),
            30 => Some(AuxType::HWCAP4),
            31 => Some(AuxType::EXECFN),
            51 => Some(AuxType::MINSIGSTKSZ),
            _ => None,
        }
    }

    /// The kernel's number for this entry type.
    pub fn code(&self) -> (r: i64)
        ensures
            r == aux_type_code(*self),
    {
        match self {
            AuxType::NULL => 0,
            AuxType::IGNORE => 1,
            AuxType::EXECFD => 2,
            AuxType::PHDR => 3,
            AuxType::PHENT => 4,
            AuxType::PHNUM => 5,
            AuxType::PAGESZ => 6,
            AuxType::BASE => 7,
            AuxType::FLAGS => 8,
            AuxType::ENTRY => 9,
            AuxType::NOTELF => 10,
            AuxType::UID => 11,
            AuxType::EUID => 12,
            AuxType::GID => 13,
            AuxType::EGID => 14,
            AuxType::PLATFORM => 15,
            AuxType::HWCAP => 16,
            AuxType::CLKTCK => 17,
            AuxType::Secure => 23,
            AuxType::BasePlatform => 24,
            AuxType::RANDOM => 25,
            AuxType::HWCAP2 => 26,
            AuxType::RSEQ_FEATURE_SIZE => 27,
            AuxType::RSEQ_ALIGN => 28,
            AuxType::HWCAP3 => 29,
            AuxType::HWCAP4 => 30,
            AuxType::EXECFN => 31,
            AuxType::MINSIGSTKSZ => 51,
        }
    }
}

/// Entry types whose value is an integer.
pub open spec fn is_int_entry(t: i64) -> bool {
    t == 2 || t == 4 || t == 5 || t == 6 || t == 8 || t == 10 || t == 11 || t == 12 || t == 13
        || t == 14 || t == 16 || t == 17 || t == 23 || t == 26 || t == 27 || t == 28 || t == 29
        || t == 30 || t == 51
}

/// Entry types whose value is a pointer.
pub open spec fn is_pointer_entry(t: i64) -> bool {
    t == 7 || t == 15 || t == 25 || t == 31
}

/// The entry type whose value is a function (the program's entry point).
pub open spec fn is_function_entry(t: i64) -> bool {
    t == 9
}

/// The value of an entry, read by the kind its type calls for.
#[derive(Debug, Clone, Copy, PartialEq, Eq, Structural)]
pub enum AuxvVal {
    Int(i64),
    Pointer(usize),
    /// A function's address; 0 for none.
    Function(usize),
}

/// One entry of the auxiliary vector: its type number and its value word.
#[derive(Clone, Copy, PartialEq, Eq, Structural)]
pub struct ElfAuxv {
    pub type_: i64,
    pub val: u64,
}

/// The value that `get_val` reads from entry `e`.
pub open spec fn entry_value(e: ElfAuxv) -> Option<AuxvVal> {
    if is_int_entry(e.type_) {
        Some(AuxvVal::Int(e.val as i64))
    } else if is_pointer_entry(e.type_) {
        Some(AuxvVal::Pointer(e.val as usize))
    } else if is_function_entry(e.type_) {
        Some(AuxvVal::Function(e.val as usize))
    } else {
        None
    }
}

/// How an entry of each known type is read: the terminator and ignored
/// entries have no value; the base address, the platform string, the random
/// bytes and the program's file name are pointers; the entry point is a
/// function; the program header table and the base platform have no known
/// kind here; every other known type (descriptor, sizes, counts, flags, ids,
/// capabilities, the secure flag, the clock rate) is an integer. A number
/// that names no known type has no value.
pub proof fn lemma_entry_kinds(t: AuxType, val: u64, unknown: i64)
    requires
        !is_aux_type_code(unknown),
    ensures
        entry_value(ElfAuxv { type_: unknown, val }) is None,
        ({
            let v = entry_value(ElfAuxv { type_: aux_type_code(t), val });
            match t {
                AuxType::NULL | AuxType::IGNORE | AuxType::PHDR | AuxType::BasePlatform => v is None,
                AuxType::BASE | AuxType::PLATFORM | AuxType::RANDOM | AuxType::EXECFN => v
                    == Some(AuxvVal::Pointer(val as usize)),
                AuxType::ENTRY => v == Some(AuxvVal::Function(val as usize)),
                AuxType::EXECFD | AuxType::PHENT | AuxType::PHNUM | AuxType::PAGESZ
                | AuxType::FLAGS | AuxType::NOTELF | AuxType::UID | AuxType::EUID | AuxType::GID
                | AuxType::EGID | AuxType::HWCAP | AuxType::CLKTCK | AuxType::Secure
                | AuxType::HWCAP2 | AuxType::RSEQ_FEATURE_SIZE | AuxType::RSEQ_ALIGN
                | AuxType::HWCAP3 | AuxType::HWCAP4 | AuxType::MINSIGSTKSZ => v == Some(
                    AuxvVal::Int(val as i64),
                ),
            }
        }),
{
}

impl ElfAuxv {
    /// The entry's type, if it is a known one.
    pub fn get_type(&self) -> (r: Option<AuxType>)
        ensures
            r matches Some(t) ==> aux_type_code(t) == self.type_,
            r is Some <==> is_aux_type_code(self.type_),
    {
        AuxType::try_from(self.type_)
    }

    /// The entry's value, read as its type calls for; `None` for the
    /// terminator, for ignored entries, and for types whose value has no
    /// known kind (reserved or unknown ones, which a newer kernel may pass).
    pub fn get_val(&self) -> (r: Option<AuxvVal>)
        ensures
            r == entry_value(*self),
    {
        let t = self.type_;
        if t == 0 || t == 1 {
            None
        } else if t == 2 || t == 4 || t == 5 || t == 6 || t == 8 || t == 10 || t == 11 || t == 12
            || t == 13 || t == 14 || t == 16 || t == 17 || t == 23 || t == 26 || t == 27 || t == 28
            || t == 29 || t == 30 || t == 51 {
            Some(AuxvVal::Int(self.val as i64))
        } else if t == 7 || t == 15 || t == 25 || t == 31 {
            Some(AuxvVal::Pointer(self.val as usize))
        } else if t == 9 {
            Some(AuxvVal::Function(self.val as usize))
        } else {
            None
        }
    }
}

/// The auxiliary vector: its entries up to the terminator (`AT_NULL`).
pub struct AuxiliaryVector {
    inner: Vec<ElfAuxv>,
}

impl View for AuxiliaryVector {
    type V = Seq<ElfAuxv>;

    closed spec fn view(&self) -> Seq<ElfAuxv> {
        self.inner@
    }
}

/// Whether `k` is where the vector `s` ends: the first entry of type
/// `AT_NULL`.
pub open spec fn is_terminator_at(s: Seq<ElfAuxv>, k: int) -> bool {
    0 <= k < s.len() && s[k].type_ == 0 && forall|j: int| 0 <= j < k ==> #[trigger] s[j].type_ != 0
}

impl AuxiliaryVector {
    /// The vector that starts at the first of `entries`: every entry before
    /// the first one of type `AT_NULL`, which must be there.
    pub fn from_ptr(entries: &[ElfAuxv]) -> (r: AuxiliaryVector)
        requires
            exists|k: int| 0 <= k < entries@.len() && #[trigger] entries@[k].type_ == 0,
        ensures
            exists|k: int|
                is_terminator_at(entries@, k) && r@ == entries@.subrange(0, k),
    {
        let mut inner: Vec<ElfAuxv> = Vec::new();
        let mut len: usize = 0;
        loop
            invariant
                len <= entries@.len(),
                inner@ == entries@.subrange(0, len as int),
                forall|j: int| 0 <= j < len ==> #[trigger] entries@[j].type_ != 0,
                exists|k: int| 0 <= k < entries@.len() && #[trigger] entries@[k].type_ == 0,
            decreases entries@.len() - len,
        {
            if len >= entries.len() {
                proof {
                    let k = choose|k: int| 0 <= k < entries@.len() && #[trigger] entries@[k].type_ == 0;
                    assert(entries@[k].type_ != 0);
                }
                return AuxiliaryVector { inner };
            }
            let data = entries[len];
            match data.get_type() {
                Some(AuxType::NULL) => {
                    proof {
                        assert(is_terminator_at(entries@, len as int));
                    }
                    return AuxiliaryVector { inner };
                },
                _ => {
                    inner.push(data);
                    len += 1;
                    proof {
                        assert(inner@ =~= entries@.subrange(0, len as int));
                    }
                },
            }
        }
    }

    /// The entries, in order.
    pub fn entries(&self) -> (r: &[ElfAuxv])
        ensures
            r@ == self@,
    {
        self.inner.as_slice()
    }
}

} // verus!
