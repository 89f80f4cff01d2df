//! The heap allocator: a list of block headers, each followed by the data it
//! hands out.
//!
//! A header sits at an address of its own; its data starts at the first
//! address after the header that meets the block's alignment. The list is kept
//! in a `Vec`, in the order the headers link to one another; a header's `addr`
//! stands for where it lives in memory. Mapping fresh memory is left to the
//! caller: when no block fits, [`Allocator::inner_alloc`] says how many bytes
//! to map, and [`Allocator::alloc_node`] lays a header into what was mapped.
use vstd::prelude::*;
use vstd::arithmetic::div_mod::{
    lemma_fundamental_div_mod, lemma_mod_adds, lemma_mod_multiples_basic, lemma_small_mod,
};

verus! {

/// The size of a block header in memory (on x86-64).
pub const NODE_SIZE: usize = 32;

/// The alignment of a block header in memory (on x86-64).
pub const NODE_ALIGN: usize = 8;

/// The least data a block may keep when it is split off another.
pub const MIN_DATA_SIZE: usize = 1;

/// The highest address any part of a block may reach (`isize::MAX`).
pub const ADDR_LIMIT: usize = isize::MAX as usize;

/// Whether `a` is a power of two.
pub open spec fn is_power_of_two(a: usize) -> bool {
    a != 0 && a & ((a - 1) as usize) == 0
}

/// How many bytes must be added to `x` to reach a multiple of `a`.
pub open spec fn align_offset(x: int, a: int) -> int {
    if x % a == 0 {
        0
    } else {
        a - x % a
    }
}

/// The distance from a header at `addr` to the start of data aligned to `align`.
pub open spec fn data_offset(addr: int, align: int) -> int {
    align_offset(addr + NODE_SIZE, align)
}

/// Where the data of a header at `addr` starts, for alignment `align`.
pub open spec fn data_start(addr: int, align: int) -> int {
    addr + NODE_SIZE + data_offset(addr, align)
}

/// `x + align_offset(x, a)` is the least multiple of `a` at or above `x`.
pub proof fn lemma_align_offset(x: int, a: int)
    requires
        0 <= x,
        0 < a,
    ensures
        0 <= align_offset(x, a) < a,
        (x + align_offset(x, a)) % a == 0,
{
    lemma_fundamental_div_mod(x, a);
    if x % a != 0 {
        assert(x + align_offset(x, a) == (x / a + 1) * a) by (nonlinear_arith)
            requires
                x == a * (x / a) + (x % a),
                align_offset(x, a) == a - x % a,
        ;
        lemma_mod_multiples_basic(x / a + 1, a);
    }
}

/// A memory layout: a size and a power-of-two alignment, with the size,
/// rounded up to the alignment, no larger than `isize::MAX`.
#[derive(Debug, Clone, Copy)]
pub struct Layout {
    size: usize,
    align: usize,
}

impl Layout {
    #[verifier::type_invariant]
    spec fn inv(self) -> bool {
        &&& is_power_of_two(self.align)
        &&& self.size + self.align - 1 <= ADDR_LIMIT
    }

    pub closed spec fn spec_size(&self) -> usize {
        self.size
    }

    pub closed spec fn spec_align(&self) -> usize {
        self.align
    }

    /// The layout of `size` bytes aligned to `align`, if that is a layout.
    pub fn from_size_align(size: usize, align: usize) -> (r: Option<Layout>)
        ensures
            r is Some <==> is_power_of_two(align) && size + align - 1 <= ADDR_LIMIT,
            r matches Some(l) ==> l.size() == size && l.align() == align,
    {
        if align != 0 && align & (align - 1) == 0 && align - 1 <= ADDR_LIMIT
            && size <= ADDR_LIMIT - (align - 1) {
            Some(Layout { size, align })
        } else {
            None
        }
    }

    /// The size in bytes.
    #[verifier::when_used_as_spec(spec_size)]
    pub fn size(&self) -> (r: usize)
        ensures
            r == self.spec_size(),
    {
        self.size
    }

    /// The alignment: a power of two.
    #[verifier::when_used_as_spec(spec_align)]
    pub fn align(&self) -> (r: usize)
        ensures
            r == self.spec_align(),
            is_power_of_two(r),
            self.spec_size() + r - 1 <= ADDR_LIMIT,
    {
        proof {
            use_type_invariant(self);
        }
        self.align
    }
}

/// A block header: whether the block is free, the size and alignment of the
/// data it keeps, and the address where the header itself lives.
#[derive(Debug, Clone, Copy, PartialEq, Eq, Structural)]
pub struct Node {
    pub free: bool,
    pub size: usize,
    pub align: usize,
    pub addr: usize,
}

/// Where the data of block `n` starts.
pub open spec fn node_data_start(n: Node) -> int {
    data_start(n.addr as int, n.align as int)
}

/// Where the data of block `n` ends.
pub open spec fn node_data_end(n: Node) -> int {
    node_data_start(n) + n.size
}

/// The bytes block `n` covers, from its header to the end of its data.
pub open spec fn footprint(n: Node) -> int {
    node_data_end(n) - n.addr
}

/// What block `n` counts for in the room the list takes: its footprint and
/// the padding that may follow it.
pub open spec fn cost(n: Node) -> int {
    footprint(n) + NODE_ALIGN
}

/// The room that the blocks from index `k` on take.
pub open spec fn reach_from(s: Seq<Node>, k: int) -> int
    decreases s.len() - k,
{
    if k < 0 || k >= s.len() {
        0
    } else {
        cost(s[k]) + reach_from(s, k + 1)
    }
}

/// A well-formed list: every alignment is a power of two, every header is
/// aligned to `NODE_ALIGN`, the blocks lie in memory in list order without
/// overlapping, and from each header on, the blocks that follow fit below
/// `ADDR_LIMIT` even when each is padded to the next header's alignment.
pub open spec fn nodes_wf(s: Seq<Node>) -> bool {
    &&& forall|k: int|
        0 <= k < s.len() ==> {
            &&& is_power_of_two(#[trigger] s[k].align)
            &&& s[k].addr + reach_from(s, k) <= ADDR_LIMIT
            &&& s[k].addr % NODE_ALIGN == 0
        }
    &&& blocks_ordered(s)
}

/// Where block `n` ends in memory: the end of its data.
pub open spec fn block_end(n: Node) -> int {
    node_data_end(n)
}

/// The blocks lie in memory in list order, each ending before the next
/// header starts, so that no two blocks overlap.
pub open spec fn blocks_ordered(s: Seq<Node>) -> bool {
    forall|k: int| 0 <= k && k + 1 < s.len() ==> #[trigger] block_end(s[k]) <= s[k + 1].addr
}

/// What `get_new_size_aligned` answers: the room the block's data would keep
/// if it were realigned to `align`, when that room holds `size` bytes.
pub open spec fn new_size_aligned(n: Node, size: int, align: int) -> Option<usize> {
    let raw = data_offset(n.addr as int, n.align as int) + n.size;
    let padding = data_offset(n.addr as int, align);
    if raw >= padding && raw - padding >= size {
        Some((raw - padding) as usize)
    } else {
        None
    }
}

/// The room block `n` would keep for data aligned to `align`: from where
/// that data would start to where the block's data ends now.
pub open spec fn capacity(n: Node, align: int) -> int {
    node_data_end(n) - data_start(n.addr as int, align)
}

proof fn lemma_reach_nonneg(s: Seq<Node>, k: int)
    requires
        forall|j: int| 0 <= j < s.len() ==> #[trigger] s[j].align > 0,
    ensures
        reach_from(s, k) >= 0,
        0 <= k < s.len() ==> reach_from(s, k) >= cost(s[k]),
    decreases s.len() - k,
{
    if 0 <= k < s.len() {
        lemma_reach_nonneg(s, k + 1);
        lemma_align_offset(s[k].addr + NODE_SIZE, s[k].align as int);
    }
}

/// Each block of a well-formed list lies below `ADDR_LIMIT`.
proof fn lemma_node_fits(s: Seq<Node>, k: int)
    requires
        nodes_wf(s),
        0 <= k < s.len(),
    ensures
        s[k].align > 0,
        0 <= data_offset(s[k].addr as int, s[k].align as int) < s[k].align,
        s[k].addr + cost(s[k]) <= ADDR_LIMIT,
{
    assert(is_power_of_two(s[k].align));
    assert forall|j: int| 0 <= j < s.len() implies #[trigger] s[j].align > 0 by {
        assert(is_power_of_two(s[j].align));
    }
    lemma_reach_nonneg(s, k);
    lemma_align_offset(s[k].addr + NODE_SIZE, s[k].align as int);
}

/// How many bytes must be added to `x` to reach a multiple of `a`.
fn offset_to_align(x: usize, a: usize) -> (r: usize)
    requires
        a > 0,
    ensures
        r == align_offset(x as int, a as int),
        r < a,
{
    let rem = x % a;
    if rem == 0 {
        0
    } else {
        a - rem
    }
}

impl Node {
    /// The distance from the header at `addr` to data aligned to `alignment`.
    fn get_data_offset(addr: usize, alignment: usize) -> (r: usize)
        requires
            addr + NODE_SIZE <= usize::MAX,
            alignment > 0,
        ensures
            r == data_offset(addr as int, alignment as int),
            r < alignment,
    {
        offset_to_align(addr + NODE_SIZE, alignment)
    }

    /// Where the data of the header at `addr` starts, for `alignment`.
    fn get_data_ptr(addr: usize, alignment: usize) -> (r: usize)
        requires
            addr + NODE_SIZE + data_offset(addr as int, alignment as int) <= usize::MAX,
            alignment > 0,
        ensures
            r == data_start(addr as int, alignment as int),
            r % alignment == 0,
            addr + NODE_SIZE <= r < addr + NODE_SIZE + alignment,
    {
        proof {
            lemma_align_offset(addr + NODE_SIZE, alignment as int);
        }
        addr + NODE_SIZE + Self::get_data_offset(addr, alignment)
    }

    /// Where this block's data starts.
    pub fn data_ptr(&self) -> (r: usize)
        requires
            node_data_start(*self) <= usize::MAX,
            self.align > 0,
        ensures
            r == node_data_start(*self),
            r % self.align == 0,
    {
        Self::get_data_ptr(self.addr, self.align)
    }

    /// The room this block's data would keep if realigned to `layout`, when
    /// that room holds `layout.size()` bytes; `None` when it does not.
    fn get_new_size_aligned(&self, layout: &Layout) -> (r: Option<usize>)
        requires
            self.align > 0,
            self.addr + footprint(*self) <= ADDR_LIMIT,
        ensures
            r == new_size_aligned(*self, layout.size() as int, layout.align() as int),
            r is Some <==> capacity(*self, layout.align() as int) >= layout.size(),
            r matches Some(c) ==> c == capacity(*self, layout.align() as int) && c >= layout.size(),
    {
        proof {
            lemma_align_offset(self.addr + NODE_SIZE, self.align as int);
        }
        let current_padding = Self::get_data_offset(self.addr, self.align);
        let current_raw_size = current_padding + self.size;
        let new_padding = Self::get_data_offset(self.addr, layout.align());
        if current_raw_size >= new_padding && current_raw_size - new_padding >= layout.size() {
            Some(current_raw_size - new_padding)
        } else {
            None
        }
    }
}

/// Why an allocation failed.
#[derive(Debug, Clone, Copy, PartialEq, Eq, Structural)]
pub enum AllocError {
    /// The system is out of memory.
    OutOfMemory,
    /// A size of 0 was asked for.
    TooSmall,
}

/// What [`Allocator::inner_alloc`] decided.
#[derive(Debug, Clone, Copy, PartialEq, Eq, Structural)]
pub enum Allocation {
    /// A free block was reused; its data starts at this address.
    Reused(usize),
    /// No free block fits: this many bytes must be mapped, and
    /// [`Allocator::alloc_node`] lays the block into them.
    NeedsMapping(usize),
}

/// Whether block `n` can serve `size` bytes aligned to `align`.
pub open spec fn fits(n: Node, size: int, align: int) -> bool {
    n.free && new_size_aligned(n, size, align) is Some
}

/// A block can serve `size` bytes aligned to `align` exactly when it is free
/// and the room it would keep for that alignment holds them, an exact fit
/// included; the block then keeps all of that room.
pub proof fn lemma_fits_iff_capacity(n: Node, size: int, align: int)
    requires
        0 <= size,
    ensures
        fits(n, size, align) <==> n.free && capacity(n, align) >= size,
        fits(n, size, align) ==> new_size_aligned(n, size, align) == Some(
            capacity(n, align) as usize,
        ),
{
}

/// Block `n` once it serves `size` bytes aligned to `align`.
pub open spec fn allocated(n: Node, size: int, align: usize) -> Node {
    Node { free: false, size: new_size_aligned(n, size, align as int)->0, align, addr: n.addr }
}

/// The bytes mapped for a fresh block of `requested` bytes under `layout`:
/// the data, the header, and the padding that a large alignment may need.
pub open spec fn mapping_size(requested: int, align: int) -> int {
    requested + (if NODE_ALIGN < align { align - NODE_ALIGN } else { 0 }) + NODE_SIZE
}

/// Block `a` once it has taken in the block `b` that follows it.
pub open spec fn joined(a: Node, b: Node) -> Node {
    let padding = align_offset(node_data_end(a), NODE_ALIGN as int);
    let total = padding + NODE_SIZE + data_offset(b.addr as int, b.align as int) + b.size;
    Node { size: (a.size + total) as usize, ..a }
}

/// Whether block `i` and the next one are both free.
pub open spec fn can_join(s: Seq<Node>, i: int) -> bool {
    0 <= i && i + 1 < s.len() && s[i].free && s[i + 1].free
}

/// The list once block `i` has taken in the block after it.
pub open spec fn join_at(s: Seq<Node>, i: int) -> Seq<Node> {
    s.update(i, joined(s[i], s[i + 1])).remove(i + 1)
}

/// The list once block `i` has taken in every free block that follows it
/// without a used one in between, as long as it is free itself.
pub open spec fn coalesce(s: Seq<Node>, i: int) -> Seq<Node>
    decreases s.len(),
{
    if can_join(s, i) {
        coalesce(join_at(s, i), i)
    } else {
        s
    }
}

/// The list once block `i` is marked free.
pub open spec fn freed(s: Seq<Node>, i: int) -> Seq<Node> {
    s.update(i, Node { free: true, ..s[i] })
}

/// What freeing `ptr` does at block `i`: if the block's data starts at
/// `ptr`, it is marked free and coalesced with the free blocks after it.
pub open spec fn dealloc_step(s: Seq<Node>, i: int, ptr: usize) -> Seq<Node> {
    if 0 <= i < s.len() && node_data_start(s[i]) == ptr {
        coalesce(freed(s, i), i)
    } else {
        s
    }
}

/// Freeing `ptr` at each block from index `i` on, in list order.
pub open spec fn dealloc_from(s: Seq<Node>, i: int, ptr: usize) -> Seq<Node>
    decreases s.len() - i,
{
    if i < 0 || i >= s.len() {
        s
    } else {
        proof {
            lemma_coalesce_len(freed(s, i), i);
        }
        dealloc_from(dealloc_step(s, i, ptr), i + 1, ptr)
    }
}

/// The result that splitting block `n` at `min_size` would add after it.
pub open spec fn split_off(n: Node, min_size: int) -> Option<Node> {
    if n.free && n.size >= NODE_SIZE + MIN_DATA_SIZE && n.size - (NODE_SIZE + MIN_DATA_SIZE)
        >= min_size {
        let after = node_data_start(n) + min_size;
        let new_addr = after + align_offset(after, NODE_ALIGN as int);
        if new_addr + NODE_SIZE + MIN_DATA_SIZE == after + (n.size - min_size) {
            Some(Node { free: true, size: MIN_DATA_SIZE, align: 1, addr: new_addr as usize })
        } else {
            None
        }
    } else {
        None
    }
}

/// Coalescing never lengthens the list, and leaves block `i` where it was,
/// at the same address, alignment and state, and every block before it as it was.
pub proof fn lemma_coalesce_len(s: Seq<Node>, i: int)
    ensures
        coalesce(s, i).len() <= s.len(),
        0 <= i < s.len() ==> i < coalesce(s, i).len(),
        0 <= i < s.len() ==> coalesce(s, i)[i].addr == s[i].addr && coalesce(s, i)[i].align
            == s[i].align && coalesce(s, i)[i].free == s[i].free,
        forall|j: int| 0 <= j < i && j < s.len() ==> #[trigger] coalesce(s, i)[j] == s[j],
    decreases s.len(),
{
    if can_join(s, i) {
        lemma_coalesce_len(join_at(s, i), i);
    }
}

/// Coalescing runs until it can go no further: afterwards block `i` is not
/// followed by a free block while it is free itself, and it is free exactly
/// when it was.
pub proof fn lemma_coalesce_fixpoint(s: Seq<Node>, i: int)
    requires
        0 <= i < s.len(),
    ensures
        coalesce(s, i)[i].free == s[i].free,
        s[i].free && i + 1 < coalesce(s, i).len() ==> !coalesce(s, i)[i + 1].free,
    decreases s.len(),
{
    lemma_coalesce_len(s, i);
    if can_join(s, i) {
        lemma_coalesce_fixpoint(join_at(s, i), i);
    }
}

/// In a well-formed list the data of each block starts below that of the
/// next, so that no two neighbours hand out the same address.
proof fn lemma_data_starts_increase(s: Seq<Node>, k: int)
    requires
        nodes_wf(s),
        0 <= k,
        k + 1 < s.len(),
    ensures
        node_data_start(s[k]) < node_data_start(s[k + 1]),
{
    lemma_node_fits(s, k);
    lemma_node_fits(s, k + 1);
    assert(block_end(s[k]) <= s[k + 1].addr);
}

/// Replacing block `i` by a block at the same address that costs no more
/// leaves the room taken from each index at most what it was.
proof fn lemma_reach_update(s: Seq<Node>, i: int, n: Node, k: int)
    requires
        0 <= i < s.len(),
        cost(n) <= cost(s[i]),
    ensures
        k <= i ==> reach_from(s.update(i, n), k) <= reach_from(s, k),
        k > i ==> reach_from(s.update(i, n), k) == reach_from(s, k),
    decreases s.len() - k,
{
    if 0 <= k < s.len() {
        lemma_reach_update(s, i, n, k + 1);
    }
}

/// Replacing block `i` by a block at the same address, with a power-of-two
/// alignment, that costs no more, keeps a list well-formed.
proof fn lemma_update_wf(s: Seq<Node>, i: int, n: Node)
    requires
        nodes_wf(s),
        0 <= i < s.len(),
        n.addr == s[i].addr,
        is_power_of_two(n.align),
        cost(n) <= cost(s[i]),
    ensures
        nodes_wf(s.update(i, n)),
{
    let t = s.update(i, n);
    assert forall|k: int| 0 <= k < t.len() implies {
        &&& is_power_of_two(#[trigger] t[k].align)
        &&& t[k].addr + reach_from(t, k) <= ADDR_LIMIT
        &&& t[k].addr % NODE_ALIGN == 0
    } by {
        lemma_reach_update(s, i, n, k);
        assert(is_power_of_two(s[k].align));
    }
    assert forall|k: int| 0 <= k && k + 1 < t.len() implies #[trigger] block_end(t[k])
        <= t[k + 1].addr by {
        assert(block_end(s[k]) <= s[k + 1].addr);
    }
}

/// Joining blocks `i` and `i + 1` shifts the room taken after them down by
/// one index and takes no more room from any index up to `i`.
proof fn lemma_reach_join(s: Seq<Node>, i: int, k: int)
    requires
        0 <= i,
        i + 1 < s.len(),
        cost(joined(s[i], s[i + 1])) <= cost(s[i]) + cost(s[i + 1]),
    ensures
        0 <= k <= i ==> reach_from(join_at(s, i), k) <= reach_from(s, k),
        k > i ==> reach_from(join_at(s, i), k) == reach_from(s, k + 1),
    decreases s.len() - k,
{
    let t = join_at(s, i);
    if k >= t.len() {
    } else if k > i {
        lemma_reach_join(s, i, k + 1);
        assert(t[k] == s[k + 1]);
    } else if k == i {
        lemma_reach_join(s, i, k + 1);
        assert(t[i] == joined(s[i], s[i + 1]));
        assert(reach_from(t, i) == cost(t[i]) + reach_from(t, i + 1));
        assert(reach_from(s, i + 1) == cost(s[i + 1]) + reach_from(s, i + 2));
        assert(reach_from(s, i) == cost(s[i]) + reach_from(s, i + 1));
    } else if 0 <= k {
        lemma_reach_join(s, i, k + 1);
        assert(t[k] == s[k]);
    }
}

/// Joining two free neighbours of a well-formed list keeps it well-formed.
proof fn lemma_join_wf(s: Seq<Node>, i: int)
    requires
        nodes_wf(s),
        can_join(s, i),
    ensures
        nodes_wf(join_at(s, i)),
{
    let a = s[i];
    let b = s[i + 1];
    lemma_node_fits(s, i);
    lemma_node_fits(s, i + 1);
    lemma_align_offset(node_data_end(a), NODE_ALIGN as int);
    lemma_align_offset(a.addr + NODE_SIZE, a.align as int);
    assert forall|j: int| 0 <= j < s.len() implies #[trigger] s[j].align > 0 by {
        assert(is_power_of_two(s[j].align));
    }
    lemma_reach_nonneg(s, i + 2);
    assert(a.addr + cost(a) + cost(b) <= ADDR_LIMIT);
    assert(cost(joined(a, b)) <= cost(a) + cost(b));
    let t = join_at(s, i);
    assert forall|k: int| 0 <= k < t.len() implies {
        &&& is_power_of_two(#[trigger] t[k].align)
        &&& t[k].addr + reach_from(t, k) <= ADDR_LIMIT
        &&& t[k].addr % NODE_ALIGN == 0
    } by {
        lemma_reach_join(s, i, k);
        if k > i {
            assert(t[k] == s[k + 1]);
            assert(is_power_of_two(s[k + 1].align));
        } else {
            assert(t[k].addr == s[k].addr);
            assert(is_power_of_two(s[k].align));
        }
    }
    assert(block_end(a) <= b.addr);
    assert(b.addr % NODE_ALIGN == 0);
    lemma_align_up_le(node_data_end(a), b.addr as int, NODE_ALIGN as int);
    assert(block_end(joined(a, b)) <= block_end(b));
    assert forall|k: int| 0 <= k && k + 1 < t.len() implies #[trigger] block_end(t[k])
        <= t[k + 1].addr by {
        if k > i {
            assert(t[k] == s[k + 1]);
            assert(t[k + 1] == s[k + 2]);
            assert(block_end(s[k + 1]) <= s[k + 2].addr);
        } else if k == i {
            assert(t[k + 1] == s[k + 2]);
            assert(block_end(s[k + 1]) <= s[k + 2].addr);
        } else if k + 1 == i {
            assert(t[k] == s[k]);
            assert(block_end(s[k]) <= s[k + 1].addr);
        } else {
            assert(t[k] == s[k]);
            assert(t[k + 1] == s[k + 1]);
            assert(block_end(s[k]) <= s[k + 1].addr);
        }
    }
}

proof fn lemma_reach_len(s: Seq<Node>, k: int)
    requires
        forall|j: int| 0 <= j < s.len() ==> #[trigger] s[j].align > 0,
        0 <= k <= s.len(),
    ensures
        reach_from(s, k) >= s.len() - k,
    decreases s.len() - k,
{
    if k < s.len() {
        lemma_reach_len(s, k + 1);
        lemma_align_offset(s[k].addr + NODE_SIZE, s[k].align as int);
    }
}

/// A well-formed list has fewer blocks than `ADDR_LIMIT`.
proof fn lemma_wf_len(s: Seq<Node>)
    requires
        nodes_wf(s),
    ensures
        s.len() <= ADDR_LIMIT,
{
    if s.len() > 0 {
        assert forall|j: int| 0 <= j < s.len() implies #[trigger] s[j].align > 0 by {
            assert(is_power_of_two(s[j].align));
        }
        lemma_reach_len(s, 0);
        assert(is_power_of_two(s[0].align));
    }
}

/// A range that lies in block `i` of a well-formed list, past its header,
/// overlaps no other block, header or data.
pub proof fn lemma_range_disjoint(s: Seq<Node>, i: int, p: int, size: int)
    requires
        nodes_wf(s),
        0 <= i < s.len(),
        s[i].addr + NODE_SIZE <= p,
        0 <= size,
        p + size <= block_end(s[i]),
    ensures
        forall|j: int|
            0 <= j < s.len() && j != i ==> block_end(#[trigger] s[j]) <= p || p + size
                <= s[j].addr,
{
    assert forall|j: int| 0 <= j < s.len() && j != i implies block_end(#[trigger] s[j]) <= p
        || p + size <= s[j].addr by {
        if j < i {
            lemma_ordered(s, j, i);
        } else {
            lemma_ordered(s, i, j);
        }
    }
}

/// In a well-formed list, two blocks never overlap: a block ends before
/// any later block's header starts.
pub proof fn lemma_blocks_disjoint(s: Seq<Node>, j: int, k: int)
    requires
        nodes_wf(s),
        0 <= j < k < s.len(),
    ensures
        block_end(s[j]) <= s[k].addr,
{
    lemma_ordered(s, j, k);
}

/// Two blocks reused one after the other, with no free in between, hand out
/// ranges that do not overlap: after block `i` serves `size1` bytes aligned
/// to `align1`, the block that serves the next `size2` bytes aligned to
/// `align2` is another one, and its range lies apart from the first.
pub proof fn lemma_reuses_disjoint(
    s: Seq<Node>,
    i: int,
    size1: int,
    align1: usize,
    j: int,
    size2: int,
    align2: usize,
)
    requires
        nodes_wf(s),
        0 <= i < s.len(),
        0 <= j < s.len(),
        is_power_of_two(align1),
        is_power_of_two(align2),
        0 <= size1,
        0 <= size2,
        fits(s[i], size1, align1 as int),
        fits(s.update(i, allocated(s[i], size1, align1))[j], size2, align2 as int),
    ensures
        j != i,
        ({
            let p1 = data_start(s[i].addr as int, align1 as int);
            let p2 = data_start(s[j].addr as int, align2 as int);
            p1 + size1 <= p2 || p2 + size2 <= p1
        }),
{
    let s1 = s.update(i, allocated(s[i], size1, align1));
    assert(!s1[i].free);
    assert(j != i);
    assert(s1[j] == s[j]);
    lemma_node_fits(s, i);
    lemma_node_fits(s, j);
    lemma_align_offset(s[i].addr + NODE_SIZE, align1 as int);
    lemma_align_offset(s[j].addr + NODE_SIZE, align2 as int);
    let p1 = data_start(s[i].addr as int, align1 as int);
    let p2 = data_start(s[j].addr as int, align2 as int);
    lemma_range_disjoint(s, i, p1, size1);
    assert(block_end(s[j]) <= p1 || p1 + size1 <= s[j].addr);
}

/// Rounding `x` up to a multiple of `a` stays at or below any multiple of
/// `a` at or above `x`.
proof fn lemma_align_up_le(x: int, y: int, a: int)
    requires
        0 <= x <= y,
        0 < a,
        y % a == 0,
    ensures
        x + align_offset(x, a) <= y,
{
    lemma_align_offset(x, a);
    let m = x + align_offset(x, a);
    if m > y {
        lemma_fundamental_div_mod(y, a);
        lemma_fundamental_div_mod(m, a);
        let qy = y / a;
        let qm = m / a;
        assert(a * qy > a * qm - a);
        assert(a * qy < a * qm);
        assert(a * (qy - qm + 1) > 0) by (nonlinear_arith)
            requires
                a * qy > a * qm - a,
        ;
        assert(a * (qm - qy) > 0) by (nonlinear_arith)
            requires
                a * qy < a * qm,
        ;
        assert(qy - qm + 1 > 0) by (nonlinear_arith)
            requires
                a * (qy - qm + 1) > 0,
                a > 0,
        ;
        assert(qm - qy > 0) by (nonlinear_arith)
            requires
                a * (qm - qy) > 0,
                a > 0,
        ;
    }
}

/// In a well-formed list, a block ends before any later block's header
/// starts.
proof fn lemma_ordered(s: Seq<Node>, j: int, k: int)
    requires
        nodes_wf(s),
        0 <= j < k < s.len(),
    ensures
        block_end(s[j]) <= s[k].addr,
    decreases k - j,
{
    assert(block_end(s[j]) <= s[j + 1].addr);
    if k > j + 1 {
        lemma_node_fits(s, j + 1);
        lemma_ordered(s, j + 1, k);
    }
}

/// A fresh block laid into memory aligned to its alignment `a` starts its
/// data aligned and ends it within the mapping.
proof fn lemma_fresh_block_fits_any_align(mapped: usize, a: usize)
    requires
        is_power_of_two(a),
        mapped % NODE_ALIGN == 0,
    ensures
        data_start(mapped as int, a as int) <= mapped + mapping_size(0, a as int),
{
    let x = mapped + NODE_SIZE;
    lemma_align_offset(x, a as int);
    lemma_mod_adds(mapped as int, NODE_SIZE as int, 8);
    assert(x % 8 == 0);
    lemma_fundamental_div_mod(x, 8);
    let qx = x / 8;
    assert(a <= 8 ==> (a == 1 || a == 2 || a == 4 || a == 8)) by (bit_vector)
        requires
            a != 0 && a & ((a - 1) as usize) == 0,
    ;
    assert(a > 8 ==> a % 8 == 0) by (bit_vector)
        requires
            a != 0 && a & ((a - 1) as usize) == 0,
    ;
    if a <= 8 {
        let k: int = if a == 1 {
            8
        } else if a == 2 {
            4
        } else if a == 4 {
            2
        } else {
            1
        };
        assert(k * (a as int) == 8);
        assert(x == (qx * k) * (a as int)) by (nonlinear_arith)
            requires
                x == 8 * qx,
                k * (a as int) == 8,
        ;
        lemma_mod_multiples_basic(qx * k, a as int);
        assert(data_offset(mapped as int, a as int) == 0);
    } else {
        let r = x % (a as int);
        lemma_fundamental_div_mod(x, a as int);
        lemma_fundamental_div_mod(a as int, 8);
        let qa = x / (a as int);
        let ka = (a as int) / 8;
        assert(r == 8 * (qx - ka * qa)) by (nonlinear_arith)
            requires
                x == 8 * qx,
                a == 8 * ka,
                x == (a as int) * qa + r,
        ;
        if r != 0 {
            assert(0 < r);
            assert(qx - ka * qa >= 1);
            assert(r >= 8);
        }
    }
}

proof fn lemma_fresh_block_fits(mapped: usize, a: usize)
    requires
        is_power_of_two(a),
        mapped % a == 0,
    ensures
        (data_start(mapped as int, a as int)) % a as int == 0,
        data_start(mapped as int, a as int) <= mapped + mapping_size(0, a as int),
{
    let off = data_offset(mapped as int, a as int);
    lemma_align_offset(mapped + NODE_SIZE, a as int);
    assert(a <= 32 ==> (a == 1 || a == 2 || a == 4 || a == 8 || a == 16 || a == 32)) by (bit_vector)
        requires
            a != 0 && a & ((a - 1) as usize) == 0,
    ;
    lemma_mod_adds(mapped as int, NODE_SIZE as int, a as int);
    if a > 32 {
        lemma_small_mod(32, a as nat);
    }
    assert((mapped + NODE_SIZE) % (a as int) == (NODE_SIZE as int) % (a as int));
    if a <= 32 {
        assert(32int % (a as int) == 0) by {
            if a == 1 {
                assert(32int % 1int == 0);
            } else if a == 2 {
                assert(32int % 2int == 0);
            } else if a == 4 {
                assert(32int % 4int == 0);
            } else if a == 8 {
                assert(32int % 8int == 0);
            } else if a == 16 {
                assert(32int % 16int == 0);
            } else {
                assert(32int % 32int == 0);
            }
        }
        assert(off == 0);
    } else {
        assert(off == a - 32);
    }
}

/// Freeing `ptr` from index `i` on keeps some block whose data starts at
/// `ptr`, if there was one, and leaves every such block free, if those
/// before index `i` were.
proof fn lemma_dealloc_from_owners(s: Seq<Node>, i: int, ptr: usize)
    requires
        0 <= i,
        forall|k: int| 0 <= k < i && k < s.len() && node_data_start(#[trigger] s[k]) == ptr ==> s[k].free,
    ensures
        (exists|k: int| 0 <= k < s.len() && node_data_start(#[trigger] s[k]) == ptr) ==> exists|k: int|
            0 <= k < dealloc_from(s, i, ptr).len() && node_data_start(
                #[trigger] dealloc_from(s, i, ptr)[k],
            ) == ptr,
        forall|k: int|
            0 <= k < dealloc_from(s, i, ptr).len() && node_data_start(
                #[trigger] dealloc_from(s, i, ptr)[k],
            ) == ptr ==> dealloc_from(s, i, ptr)[k].free,
    decreases s.len() - i,
{
    if i < s.len() {
        let t = dealloc_step(s, i, ptr);
        lemma_coalesce_len(freed(s, i), i);
        if node_data_start(s[i]) == ptr {
            assert(node_data_start(t[i]) == ptr);
        }
        assert forall|k: int| 0 <= k < i + 1 && k < t.len() && node_data_start(#[trigger] t[k]) == ptr
            implies t[k].free by {
            if k < i {
                assert(t[k] == s[k]);
            }
        }
        lemma_dealloc_from_owners(t, i + 1, ptr);
        if exists|k: int| 0 <= k < s.len() && node_data_start(#[trigger] s[k]) == ptr {
            let k0 = choose|k: int| 0 <= k < s.len() && node_data_start(#[trigger] s[k]) == ptr;
            if node_data_start(s[i]) == ptr {
                assert(0 <= i < t.len() && node_data_start(t[i]) == ptr);
            } else {
                assert(t == s);
                assert(0 <= k0 < t.len() && node_data_start(t[k0]) == ptr);
            }
            assert(exists|k: int| 0 <= k < t.len() && node_data_start(#[trigger] t[k]) == ptr);
            assert(dealloc_from(s, i, ptr) == dealloc_from(t, i + 1, ptr));
        }
    } else {
        if exists|k: int| 0 <= k < s.len() && node_data_start(#[trigger] s[k]) == ptr {
            let k0 = choose|k: int| 0 <= k < s.len() && node_data_start(#[trigger] s[k]) == ptr;
            assert(dealloc_from(s, i, ptr) == s);
            assert(node_data_start(dealloc_from(s, i, ptr)[k0]) == ptr);
        }
    }
}

/// Freeing a pointer at which some block's data starts leaves a block whose
/// data starts there, and every such block is free.
pub proof fn lemma_dealloc_frees_owner(s: Seq<Node>, i: int, ptr: usize)
    requires
        0 <= i < s.len(),
        node_data_start(s[i]) == ptr,
    ensures
        exists|k: int|
            0 <= k < dealloc_from(s, 0, ptr).len() && node_data_start(
                #[trigger] dealloc_from(s, 0, ptr)[k],
            ) == ptr,
        forall|k: int|
            0 <= k < dealloc_from(s, 0, ptr).len() && node_data_start(
                #[trigger] dealloc_from(s, 0, ptr)[k],
            ) == ptr ==> dealloc_from(s, 0, ptr)[k].free,
{
    lemma_dealloc_from_owners(s, 0, ptr);
}

/// Freeing the pointer that reusing block `i` for `size` bytes aligned to
/// `align` handed out leaves a free block whose data starts there.
pub proof fn lemma_reuse_then_free(s: Seq<Node>, i: int, size: int, align: usize)
    requires
        nodes_wf(s),
        0 <= i < s.len(),
        is_power_of_two(align),
        fits(s[i], size, align as int),
    ensures
        ({
            let used = s.update(i, allocated(s[i], size, align));
            let ptr = data_start(s[i].addr as int, align as int) as usize;
            let after = dealloc_from(used, 0, ptr);
            exists|k: int|
                0 <= k < after.len() && node_data_start(#[trigger] after[k]) == ptr && after[k].free
        }),
{
    let used = s.update(i, allocated(s[i], size, align));
    lemma_node_fits(s, i);
    lemma_align_offset(s[i].addr + NODE_SIZE, align as int);
    let ptr = data_start(s[i].addr as int, align as int) as usize;
    assert(node_data_start(used[i]) == ptr);
    lemma_dealloc_frees_owner(used, i, ptr);
}

/// The heap: the list of block headers, in link order.
pub struct Allocator {
    nodes: Vec<Node>,
}

impl View for Allocator {
    type V = Seq<Node>;

    closed spec fn view(&self) -> Seq<Node> {
        self.nodes@
    }
}

impl Allocator {
    /// Whether the list is well-formed (see [`nodes_wf`]).
    pub open spec fn wf(&self) -> bool {
        nodes_wf(self@)
    }

    /// An allocator with no blocks yet.
    pub fn new() -> (r: Allocator)
        ensures
            r@ == Seq::<Node>::empty(),
            r.wf(),
    {
        Allocator { nodes: Vec::new() }
    }

    /// An allocator over headers already laid into memory, in link order.
    pub fn from_nodes(nodes: Vec<Node>) -> (r: Allocator)
        requires
            nodes_wf(nodes@),
        ensures
            r@ == nodes@,
            r.wf(),
    {
        Allocator { nodes }
    }

    /// The blocks, in link order.
    pub fn nodes(&self) -> (r: &Vec<Node>)
        ensures
            r@ == self@,
    {
        &self.nodes
    }

    /// Splits block `i` at `min_size` bytes of data: when the block is free
    /// and its tail exactly holds a header and `MIN_DATA_SIZE` bytes, a free
    /// block is linked in after it there.
    fn split(&mut self, i: usize, min_size: usize) -> (r: bool)
        requires
            old(self).wf(),
            i < old(self)@.len(),
        ensures
            match split_off(old(self)@[i as int], min_size as int) {
                Some(m) => r && final(self)@ == old(self)@.insert(i + 1, m),
                None => !r && final(self)@ == old(self)@,
            },
    {
        let node = self.nodes[i];
        proof {
            lemma_node_fits(self@, i as int);
            lemma_wf_len(self@);
        }
        if !node.free {
            return false;
        }
        if node.size >= NODE_SIZE + MIN_DATA_SIZE && node.size - (NODE_SIZE + MIN_DATA_SIZE)
            >= min_size {
            let after = Node::get_data_ptr(node.addr, node.align) + min_size;
            let padding = offset_to_align(after, NODE_ALIGN);
            let new_node_ptr = after + padding;
            let new_node_end = new_node_ptr + (NODE_SIZE + MIN_DATA_SIZE);
            let real_after = after + (node.size - min_size);
            if new_node_end != real_after {
                return false;
            }
            let new_node = Node { free: true, size: MIN_DATA_SIZE, align: 1, addr: new_node_ptr };
            self.nodes.insert(i + 1, new_node);
            return true;
        }
        false
    }

    /// Joins block `i` with the block after it, when both are free: block `i`
    /// grows over the padding, the header and the data of the next one, and
    /// the next one leaves the list.
    fn join(&mut self, i: usize) -> (r: bool)
        requires
            old(self).wf(),
            i < old(self)@.len(),
        ensures
            r == can_join(old(self)@, i as int),
            r ==> final(self)@ == join_at(old(self)@, i as int),
            !r ==> final(self)@ == old(self)@,
            final(self).wf(),
    {
        let node = self.nodes[i];
        if !node.free {
            return false;
        }
        if i < self.nodes.len() - 1 {
            let next = self.nodes[i + 1];
            if !next.free {
                return false;
            }
            proof {
                let s = self@;
                lemma_node_fits(s, i as int);
                lemma_node_fits(s, i + 1);
                assert forall|j: int| 0 <= j < s.len() implies #[trigger] s[j].align > 0 by {
                    assert(is_power_of_two(s[j].align));
                }
                lemma_reach_nonneg(s, i + 2);
                lemma_align_offset(node_data_end(node), NODE_ALIGN as int);
            }
            let end = Node::get_data_ptr(node.addr, node.align) + node.size;
            let end_next_padding = offset_to_align(end, NODE_ALIGN);
            let total_size = end_next_padding + NODE_SIZE + Node::get_data_offset(
                next.addr,
                next.align,
            ) + next.size;
            let grown = Node { size: node.size + total_size, ..node };
            proof {
                lemma_join_wf(self@, i as int);
            }
            self.nodes.set(i, grown);
            self.nodes.remove(i + 1);
            proof {
                assert(self@ =~= join_at(old(self)@, i as int));
            }
            return true;
        }
        false
    }

    /// The bytes to map for a fresh block of `requested_size` bytes under
    /// `layout`.
    pub fn node_mapping_size(layout: &Layout, requested_size: usize) -> (r: usize)
        requires
            mapping_size(requested_size as int, layout.align() as int) <= usize::MAX,
        ensures
            r == mapping_size(requested_size as int, layout.align() as int),
    {
        let end = NODE_ALIGN;
        let padding = if end < layout.align() {
            layout.align() - end
        } else {
            0
        };
        requested_size + padding + NODE_SIZE
    }

    /// Lays a used block for `requested_size` bytes under `layout` into the
    /// memory mapped at `mapped`, which holds `node_mapping_size` bytes; a
    /// null `mapped` means the mapping failed. The block is not linked into
    /// the list.
    ///
    /// The block's data starts aligned; when `mapped` is a multiple of
    /// `NODE_ALIGN` (as every mapping is) or of the alignment, its
    /// `requested_size` bytes end within the mapping.
    pub fn alloc_node(layout: &Layout, requested_size: usize, mapped: usize) -> (r: Result<
        Node,
        AllocError,
    >)
        requires
            mapping_size(requested_size as int, layout.align() as int) <= usize::MAX,
        ensures
            mapped == 0 ==> r == Err::<Node, AllocError>(AllocError::OutOfMemory),
            mapped != 0 ==> r == Ok::<Node, AllocError>(
                Node {
                    free: false,
                    size: mapping_size(requested_size as int, layout.align() as int) as usize,
                    align: layout.align(),
                    addr: mapped,
                },
            ),
            mapped != 0 ==> node_data_start(r->Ok_0) % layout.align() as int == 0,
            mapped != 0 && (mapped % layout.align() == 0 || mapped % NODE_ALIGN == 0)
                ==> node_data_start(r->Ok_0) + requested_size <= mapped + mapping_size(
                requested_size as int,
                layout.align() as int,
            ),
    {
        let real_size = Self::node_mapping_size(layout, requested_size);
        if mapped == 0 {
            return Err(AllocError::OutOfMemory);
        }
        let node = Node { free: false, size: real_size, align: layout.align(), addr: mapped };
        proof {
            let a = layout.align();
            lemma_align_offset(mapped + NODE_SIZE, a as int);
            if mapped % a == 0 {
                lemma_fresh_block_fits(mapped, a);
            }
            if mapped % NODE_ALIGN == 0 {
                lemma_fresh_block_fits_any_align(mapped, a);
            }
        }
        Ok(node)
    }

    /// Finds room for `layout`: the first free block that can hold it is
    /// realigned to it and handed out; when none can, the answer is how many
    /// bytes to map for a fresh block. A size of 0 is refused.
    ///
    /// Blocks are never added: the list keeps its length.
    pub fn inner_alloc(&mut self, layout: Layout) -> (r: Result<Allocation, AllocError>)
        requires
            old(self).wf(),
        ensures
            final(self).wf(),
            final(self)@.len() == old(self)@.len(),
            match r {
                Err(e) => e == AllocError::TooSmall && layout.size() == 0 && final(self)@ == old(
                    self,
                )@,
                Ok(Allocation::Reused(p)) => layout.size() > 0 && exists|i: int|
                    #![trigger old(self)@[i]]
                    0 <= i < old(self)@.len() && fits(
                        old(self)@[i],
                        layout.size() as int,
                        layout.align() as int,
                    ) && (forall|j: int|
                        0 <= j < i ==> !fits(
                            #[trigger] old(self)@[j],
                            layout.size() as int,
                            layout.align() as int,
                        )) && old(self)@[i].free && capacity(old(self)@[i], layout.align() as int)
                        >= layout.size() && (forall|j: int|
                        0 <= j < i ==> !(#[trigger] old(self)@[j].free && capacity(
                            old(self)@[j],
                            layout.align() as int,
                        ) >= layout.size())) && final(self)@[i].size == capacity(
                        old(self)@[i],
                        layout.align() as int,
                    ) && final(self)@ == old(self)@.update(
                        i,
                        allocated(old(self)@[i], layout.size() as int, layout.align()),
                    ) && p == data_start(old(self)@[i].addr as int, layout.align() as int) && p
                        % layout.align() == 0 && old(self)@[i].addr + NODE_SIZE <= p && p
                        + layout.size() <= node_data_end(old(self)@[i]) && (forall|j: int|
                        0 <= j < old(self)@.len() && j != i ==> block_end(
                            #[trigger] old(self)@[j],
                        ) <= p || p + layout.size() <= old(self)@[j].addr),
                Ok(Allocation::NeedsMapping(n)) => layout.size() > 0 && (forall|j: int|
                    0 <= j < old(self)@.len() ==> !fits(
                        #[trigger] old(self)@[j],
                        layout.size() as int,
                        layout.align() as int,
                    )) && (forall|j: int|
                    0 <= j < old(self)@.len() ==> !(#[trigger] old(self)@[j].free && capacity(
                        old(self)@[j],
                        layout.align() as int,
                    ) >= layout.size())) && final(self)@ == old(self)@ && n == mapping_size(
                    layout.size() as int,
                    layout.align() as int,
                ),
            },
    {
        let align = layout.align();
        let requested_size = layout.size();
        if requested_size == 0 {
            return Err(AllocError::TooSmall);
        }
        let len = self.nodes.len();
        let mut i: usize = 0;
        while i < len
            invariant
                self.wf(),
                self@ == old(self)@,
                len == self@.len(),
                i <= len,
                align == layout.align(),
                requested_size == layout.size(),
                is_power_of_two(align),
                requested_size + align - 1 <= ADDR_LIMIT,
                requested_size > 0,
                forall|j: int|
                    0 <= j < i ==> !fits(#[trigger] self@[j], requested_size as int, align as int),
            decreases len - i,
        {
            let node = self.nodes[i];
            proof {
                lemma_node_fits(self@, i as int);
            }
            if node.free {
                match node.get_new_size_aligned(&layout) {
                    Some(real_size) => {
                        proof {
                            lemma_align_offset(node.addr + NODE_SIZE, align as int);
                            lemma_range_disjoint(
                                self@,
                                i as int,
                                data_start(node.addr as int, align as int),
                                requested_size as int,
                            );
                        }
                        let resized = Node { size: real_size, align, ..node };
                        proof {
                            lemma_align_offset(node.addr + NODE_SIZE, align as int);
                            assert(footprint(resized) == footprint(node));
                            lemma_update_wf(self@, i as int, resized);
                        }
                        self.nodes.set(i, resized);
                        let _ = self.split(i, real_size);
                        let taken = Node { free: false, ..resized };
                        proof {
                            lemma_update_wf(self@, i as int, taken);
                        }
                        self.nodes.set(i, taken);
                        let p = Node::get_data_ptr(node.addr, align);
                        proof {
                            assert forall|j: int| 0 <= j < i implies !(#[trigger] old(
                                self,
                            )@[j].free && capacity(old(self)@[j], align as int)
                                >= requested_size) by {
                                lemma_fits_iff_capacity(
                                    old(self)@[j],
                                    requested_size as int,
                                    align as int,
                                );
                            }
                            assert(self@ =~= old(self)@.update(
                                i as int,
                                allocated(old(self)@[i as int], requested_size as int, align),
                            ));
                        }
                        return Ok(Allocation::Reused(p));
                    },
                    None => {},
                }
            }
            i += 1;
        }
        proof {
            assert forall|j: int| 0 <= j < old(self)@.len() implies !(#[trigger] old(
                self,
            )@[j].free && capacity(old(self)@[j], align as int) >= requested_size) by {
                lemma_fits_iff_capacity(old(self)@[j], requested_size as int, align as int);
            }
        }
        Ok(Allocation::NeedsMapping(Self::node_mapping_size(&layout, requested_size)))
    }

    /// Frees the block whose data starts at `ptr`: every such block is marked
    /// free and takes in the free blocks that follow it (see
    /// [`dealloc_from`]). Afterwards every block whose data starts at `ptr`
    /// is free, and the list is no longer than before.
    pub fn inner_dealloc(&mut self, ptr: usize)
        requires
            old(self).wf(),
        ensures
            final(self).wf(),
            final(self)@ == dealloc_from(old(self)@, 0, ptr),
            final(self)@.len() <= old(self)@.len(),
            forall|k: int|
                0 <= k < final(self)@.len() && node_data_start(#[trigger] final(self)@[k]) == ptr
                    ==> final(self)@[k].free,
            forall|k: int|
                0 <= k && k + 1 < final(self)@.len() && node_data_start(
                    #[trigger] final(self)@[k],
                ) == ptr ==> !final(self)@[k + 1].free,
    {
        let mut i: usize = 0;
        while i < self.nodes.len()
            invariant
                self.wf(),
                i <= self@.len(),
                self@.len() <= old(self)@.len(),
                dealloc_from(self@, i as int, ptr) == dealloc_from(old(self)@, 0, ptr),
                forall|k: int|
                    0 <= k < i && node_data_start(#[trigger] self@[k]) == ptr ==> self@[k].free,
                forall|k: int|
                    0 <= k < i && k + 1 < self@.len() && node_data_start(#[trigger] self@[k])
                        == ptr ==> !self@[k + 1].free,
            decreases self@.len() - i,
        {
            let ghost before = self@;
            let node = self.nodes[i];
            proof {
                lemma_node_fits(self@, i as int);
            }
            if Node::get_data_ptr(node.addr, node.align) == ptr {
                let freed_node = Node { free: true, ..node };
                proof {
                    lemma_update_wf(self@, i as int, freed_node);
                    assert(self@.update(i as int, freed_node) == freed(before, i as int));
                }
                self.nodes.set(i, freed_node);
                let mut merging = true;
                while merging
                    invariant
                        self.wf(),
                        i < self@.len(),
                        coalesce(self@, i as int) == coalesce(freed(before, i as int), i as int),
                        !merging ==> coalesce(self@, i as int) == self@,
                    decreases self@.len() + (if merging {
                        1int
                    } else {
                        0int
                    }),
                {
                    proof {
                        lemma_coalesce_len(self@, i as int);
                    }
                    merging = self.join(i);
                }
                proof {
                    lemma_coalesce_len(freed(before, i as int), i as int);
                    lemma_coalesce_fixpoint(self@, i as int);
                    if i > 0 {
                        lemma_data_starts_increase(before, i - 1);
                    }
                    assert forall|k: int|
                        0 <= k < i + 1 && k + 1 < self@.len() && node_data_start(
                            #[trigger] self@[k],
                        ) == ptr implies !self@[k + 1].free by {
                        if k < i {
                            assert(self@[k] == before[k]);
                            if k + 1 < i {
                                assert(self@[k + 1] == before[k + 1]);
                            }
                        }
                    }
                }
            }
            proof {
                assert(self@ == dealloc_step(before, i as int, ptr));
                lemma_coalesce_len(freed(before, i as int), i as int);
            }
            i += 1;
        }
    }
}

} // verus!
