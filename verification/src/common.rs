//! The state that the runtime shares across the process: the auxiliary
//! vector, whether it runs in secure mode, and `errno` for single-threaded
//! programs.
use vstd::prelude::*;

verus! {

/// The auxiliary vector as the kernel lays it out: pairs of words, a type
/// then a value, up to a pair of type `AT_NULL` (0).
///
/// The value of the first pair of type `t` from word `j` on: `None` when the
/// terminator, or the end of the words, comes first. Pairs of type
/// `AT_IGNORE` (1) are skipped, whatever is looked up.
pub open spec fn aux_lookup(s: Seq<u64>, j: int, t: u64) -> Option<u64>
    decreases s.len() - j,
{
    if j < 0 || j + 1 >= s.len() || s[j] == 0 {
        None
    } else if s[j] != 1 && s[j] == t {
        Some(s[j + 1])
    } else {
        aux_lookup(s, j + 2, t)
    }
}

/// Looking up `AT_NULL` (0) never finds a value: the terminator ends the
/// lookup first.
pub proof fn lemma_null_type_has_no_value(s: Seq<u64>, j: int)
    ensures
        aux_lookup(s, j, 0) is None,
    decreases s.len() - j,
{
    if 0 <= j && j + 1 < s.len() && s[j] != 0 {
        lemma_null_type_has_no_value(s, j + 2);
    }
}

/// Looking up `AT_IGNORE` (1) never finds a value: those pairs are skipped.
pub proof fn lemma_ignore_type_has_no_value(s: Seq<u64>, j: int)
    ensures
        aux_lookup(s, j, 1) is None,
    decreases s.len() - j,
{
    if 0 <= j && j + 1 < s.len() && s[j] != 0 {
        lemma_ignore_type_has_no_value(s, j + 2);
    }
}

/// Whether word `j` starts the first pair of type `t` in the words `s`: `j`
/// is the even index of a whole pair whose type is `t`, and no pair before it
/// is the terminator or of type `t`.
pub open spec fn first_pair_of(s: Seq<u64>, t: u64, j: int) -> bool {
    &&& 0 <= j && j % 2 == 0 && j + 1 < s.len()
    &&& s[j] == t
    &&& forall|k: int| 0 <= k < j && k % 2 == 0 ==> #[trigger] s[k] != 0 && s[k] != t
}

/// A pair of the looked-up type gives its value word, whatever that word
/// holds (0 included), for any type but `AT_NULL` and `AT_IGNORE`.
pub proof fn lemma_aux_lookup_match(s: Seq<u64>, j: int, t: u64)
    requires
        0 <= j,
        j + 1 < s.len(),
        s[j] == t,
        t != 0,
        t != 1,
    ensures
        aux_lookup(s, j, t) == Some(s[j + 1]),
{
}

proof fn lemma_aux_lookup_reaches(s: Seq<u64>, t: u64, j: int, m: int)
    requires
        t != 0,
        t != 1,
        first_pair_of(s, t, j),
        0 <= m <= j,
        m % 2 == 0,
    ensures
        aux_lookup(s, m, t) == Some(s[j + 1]),
    decreases j - m,
{
    if m < j {
        assert(s[m] != 0 && s[m] != t);
        lemma_aux_lookup_reaches(s, t, j, m + 2);
    }
}

proof fn lemma_aux_lookup_found_from(s: Seq<u64>, t: u64, m: int)
    requires
        t != 1,
        0 <= m,
        m % 2 == 0,
        forall|k: int| 0 <= k < m && k % 2 == 0 ==> #[trigger] s[k] != 0 && s[k] != t,
    ensures
        aux_lookup(s, m, t) matches Some(v) ==> exists|j: int|
            #[trigger] first_pair_of(s, t, j) && s[j + 1] == v,
    decreases s.len() - m,
{
    if 0 <= m && m + 1 < s.len() && s[m] != 0 {
        if s[m] == t {
            assert(first_pair_of(s, t, m));
        } else {
            assert forall|k: int| 0 <= k < m + 2 && k % 2 == 0 implies #[trigger] s[k] != 0 && s[k]
                != t by {
                if k < m {
                } else {
                    assert(k == m);
                }
            }
            lemma_aux_lookup_found_from(s, t, m + 2);
        }
    }
}

/// The lookup from the first word gives the value of the first pair of the
/// looked-up type before the terminator, and nothing else: when such a pair
/// exists (for a type other than `AT_NULL` and `AT_IGNORE`), its value word
/// is the answer, whatever it holds; and any answer is the value word of such
/// a pair.
pub proof fn lemma_aux_lookup_first_pair(s: Seq<u64>, t: u64)
    ensures
        forall|j: int|
            t != 0 && t != 1 && #[trigger] first_pair_of(s, t, j) ==> aux_lookup(s, 0, t) == Some(
                s[j + 1],
            ),
        aux_lookup(s, 0, t) matches Some(v) ==> exists|j: int|
            #[trigger] first_pair_of(s, t, j) && s[j + 1] == v,
{
    assert forall|j: int| t != 0 && t != 1 && #[trigger] first_pair_of(s, t, j) implies aux_lookup(
        s,
        0,
        t,
    ) == Some(s[j + 1]) by {
        lemma_aux_lookup_reaches(s, t, j, 0);
    }
    if t == 1 {
        lemma_ignore_type_has_no_value(s, 0);
    } else {
        lemma_aux_lookup_found_from(s, t, 0);
    }
}

/// The state of the runtime.
#[derive(Debug)]
pub struct Libc {
    auxv: Option<Vec<u64>>,
    secure: bool,
    errno: i32,
}

impl Libc {
    pub closed spec fn spec_auxv(&self) -> Option<Seq<u64>> {
        match self.auxv {
            Some(v) => Some(v@),
            None => None,
        }
    }

    pub closed spec fn spec_secure(&self) -> bool {
        self.secure
    }

    pub closed spec fn spec_errno(&self) -> i32 {
        self.errno
    }

    /// The state once the runtime is set up: the auxiliary vector the kernel
    /// passed (`None` where it passes none) and whether the process runs in
    /// secure mode.
    pub fn new(auxv: Option<Vec<u64>>, secure: bool) -> (r: Libc)
        ensures
            r.spec_auxv() == (match auxv {
                Some(v) => Some(v@),
                None => None::<Seq<u64>>,
            }),
            r.is_secure() == secure,
            r.get_errno() == 0,
    {
        Libc { auxv, secure, errno: 0 }
    }

    /// The state before the runtime is set up: no auxiliary vector, not
    /// secure, and `errno` 0.
    pub fn default() -> (r: Libc)
        ensures
            r.spec_auxv() is None,
            !r.is_secure(),
            r.get_errno() == 0,
    {
        Libc { auxv: None, secure: false, errno: 0 }
    }

    /// The auxiliary vector's words, if there is one.
    pub fn get_auxv_ptr(&self) -> (r: Option<&Vec<u64>>)
        ensures
            match r {
                Some(v) => self.spec_auxv() == Some(v@),
                None => self.spec_auxv() is None,
            },
    {
        match &self.auxv {
            Some(v) => Some(v),
            None => None,
        }
    }

    /// Whether the process runs in secure mode.
    #[verifier::when_used_as_spec(spec_secure)]
    pub fn is_secure(&self) -> (r: bool)
        ensures
            r == self.spec_secure(),
    {
        self.secure
    }

    /// The current `errno`.
    #[verifier::when_used_as_spec(spec_errno)]
    pub fn get_errno(&self) -> (r: i32)
        ensures
            r == self.spec_errno(),
    {
        self.errno
    }

    /// `errno`, to be written.
    pub fn get_errno_mut(&mut self) -> (r: &mut i32)
        ensures
            *r == old(self).get_errno(),
            final(self).get_errno() == *final(r),
            final(self).spec_auxv() == old(self).spec_auxv(),
            final(self).is_secure() == old(self).is_secure(),
    {
        &mut self.errno
    }

    /// The value of the auxiliary vector's first entry of type `type_`:
    /// `None` when there is no vector or no such entry before the
    /// terminator (see [`aux_lookup`]). `AT_IGNORE` entries are skipped.
    pub fn get_aux_val(&self, type_: u64) -> (r: Option<u64>)
        ensures
            r == (match self.spec_auxv() {
                Some(s) => aux_lookup(s, 0, type_),
                None => None,
            }),
            match self.spec_auxv() {
                Some(s) => (forall|j: int|
                    type_ != 0 && type_ != 1 && #[trigger] first_pair_of(s, type_, j) ==> r == Some(
                        s[j + 1],
                    )) && (r matches Some(v) ==> exists|j: int|
                    #[trigger] first_pair_of(s, type_, j) && s[j + 1] == v),
                None => r is None,
            },
    {
        let auxv = match &self.auxv {
            Some(v) => v,
            None => {
                return None;
            },
        };
        proof {
            lemma_aux_lookup_first_pair(auxv@, type_);
        }
        let mut i: usize = 0;
        while i < auxv.len()
            invariant
                self.spec_auxv() == Some(auxv@),
                aux_lookup(auxv@, i as int, type_) == aux_lookup(auxv@, 0, type_),
                forall|j: int|
                    type_ != 0 && type_ != 1 && #[trigger] first_pair_of(auxv@, type_, j)
                        ==> aux_lookup(auxv@, 0, type_) == Some(auxv@[j + 1]),
                aux_lookup(auxv@, 0, type_) matches Some(v) ==> exists|j: int|
                    #[trigger] first_pair_of(auxv@, type_, j) && auxv@[j + 1] == v,
            decreases auxv@.len() - i,
        {
            let a = auxv[i];
            if a == 0 {
                return None;
            }
            if i + 1 >= auxv.len() {
                return None;
            }
            if a == 1 {
                // AT_IGNORE: the value is undefined and is passed over.
                i = i + 2;
                continue;
            }
            let v = auxv[i + 1];
            if a == type_ {
                return Some(v);
            }
            i = i + 2;
        }
        None
    }
}

} // verus!
