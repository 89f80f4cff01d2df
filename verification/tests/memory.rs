use rslibc::memory::{AllocError, Allocation, Allocator, Layout, Node, NODE_SIZE};

fn node(free: bool, size: usize, align: usize, addr: usize) -> Node {
    Node { free, size, align, addr }
}

#[test]
fn layout_checks_alignment_and_size() {
    assert!(Layout::from_size_align(8, 3).is_none());
    assert!(Layout::from_size_align(8, 0).is_none());
    assert!(Layout::from_size_align(isize::MAX as usize, 2).is_none());
    let l = Layout::from_size_align(24, 16).unwrap();
    assert_eq!(l.size(), 24);
    assert_eq!(l.align(), 16);
}

#[test]
fn zero_size_is_too_small() {
    let mut a = Allocator::new();
    let l = Layout::from_size_align(0, 8).unwrap();
    assert_eq!(a.inner_alloc(l), Err(AllocError::TooSmall));
}

#[test]
fn empty_heap_asks_for_a_mapping() {
    let mut a = Allocator::new();
    let small = Layout::from_size_align(100, 8).unwrap();
    assert_eq!(a.inner_alloc(small), Ok(Allocation::NeedsMapping(100 + NODE_SIZE)));
    let big = Layout::from_size_align(100, 64).unwrap();
    assert_eq!(a.inner_alloc(big), Ok(Allocation::NeedsMapping(100 + 56 + 32)));
    assert!(a.nodes().is_empty());
}

#[test]
fn fresh_block_lies_in_its_mapping() {
    let l = Layout::from_size_align(100, 64).unwrap();
    let size = Allocator::node_mapping_size(&l, 100);
    assert_eq!(size, 188);
    let n = Allocator::alloc_node(&l, 100, 0x10000).unwrap();
    assert_eq!(n, node(false, 188, 64, 0x10000));
    let p = n.data_ptr();
    assert_eq!(p, 0x10040);
    assert_eq!(p % 64, 0);
    assert!(p + 100 <= 0x10000 + size);
    let big = Layout::from_size_align(100, 8192).unwrap();
    let size = Allocator::node_mapping_size(&big, 100);
    let page = Allocator::alloc_node(&big, 100, 0x11000).unwrap();
    let q = page.data_ptr();
    assert_eq!(q % 8192, 0);
    assert!(q + 100 <= 0x11000 + size);
    let l8 = Layout::from_size_align(5, 8).unwrap();
    let n8 = Allocator::alloc_node(&l8, 5, 0x20000).unwrap();
    assert_eq!(n8.data_ptr(), 0x20000 + 32);
}

#[test]
fn failed_mapping_is_out_of_memory() {
    let l = Layout::from_size_align(10, 8).unwrap();
    assert_eq!(Allocator::alloc_node(&l, 10, 0), Err(AllocError::OutOfMemory));
}

#[test]
fn first_fitting_free_block_is_reused() {
    let mut a = Allocator::from_nodes(vec![
        node(false, 100, 8, 4096),
        node(true, 10, 8, 4232),
        node(true, 100, 8, 4280),
    ]);
    let l = Layout::from_size_align(50, 8).unwrap();
    assert_eq!(a.inner_alloc(l), Ok(Allocation::Reused(4280 + 32)));
    assert_eq!(a.nodes()[2], node(false, 100, 8, 4280));
    assert_eq!(a.nodes()[1], node(true, 10, 8, 4232));
    assert_eq!(a.nodes().len(), 3);
}

#[test]
fn reused_block_is_realigned() {
    let mut a = Allocator::from_nodes(vec![node(true, 100, 8, 4096)]);
    let l = Layout::from_size_align(50, 64).unwrap();
    assert_eq!(a.inner_alloc(l), Ok(Allocation::Reused(4160)));
    assert_eq!(a.nodes()[0], node(false, 68, 64, 4096));
}

#[test]
fn too_small_free_block_is_passed_over() {
    let mut a = Allocator::from_nodes(vec![node(true, 40, 8, 4096)]);
    let l = Layout::from_size_align(41, 8).unwrap();
    assert_eq!(a.inner_alloc(l), Ok(Allocation::NeedsMapping(41 + 32)));
    assert_eq!(a.nodes()[0], node(true, 40, 8, 4096));
}

#[test]
fn dealloc_frees_and_joins_the_next_free_block() {
    let mut a = Allocator::from_nodes(vec![node(false, 100, 8, 4096), node(true, 64, 8, 4232)]);
    a.inner_dealloc(4128);
    assert_eq!(a.nodes().len(), 1);
    assert_eq!(a.nodes()[0], node(true, 200, 8, 4096));
}

#[test]
fn dealloc_stops_joining_at_a_used_block() {
    let mut a = Allocator::from_nodes(vec![
        node(false, 100, 8, 4096),
        node(false, 64, 8, 4232),
        node(true, 8, 8, 4328),
    ]);
    a.inner_dealloc(4128);
    assert_eq!(a.nodes().len(), 3);
    assert_eq!(a.nodes()[0], node(true, 100, 8, 4096));
    assert_eq!(a.nodes()[1], node(false, 64, 8, 4232));
}

#[test]
fn dealloc_of_unknown_pointer_changes_nothing() {
    let mut a = Allocator::from_nodes(vec![node(false, 100, 8, 4096)]);
    a.inner_dealloc(4097);
    assert_eq!(a.nodes()[0], node(false, 100, 8, 4096));
}

#[test]
fn reuse_then_free_leaves_the_block_free() {
    let mut a = Allocator::from_nodes(vec![node(true, 100, 8, 4096)]);
    let l = Layout::from_size_align(10, 8).unwrap();
    let p = match a.inner_alloc(l) {
        Ok(Allocation::Reused(p)) => p,
        other => panic!("unexpected {:?}", other),
    };
    assert!(!a.nodes()[0].free);
    a.inner_dealloc(p);
    assert!(a.nodes()[0].free);
    assert_eq!(a.nodes()[0].data_ptr(), p);
}

#[test]
fn two_reuses_hand_out_disjoint_ranges() {
    let mut a = Allocator::from_nodes(vec![node(true, 100, 8, 4096), node(true, 100, 8, 4232)]);
    let l = Layout::from_size_align(60, 8).unwrap();
    let p1 = match a.inner_alloc(l) {
        Ok(Allocation::Reused(p)) => p,
        other => panic!("unexpected {:?}", other),
    };
    let p2 = match a.inner_alloc(l) {
        Ok(Allocation::Reused(p)) => p,
        other => panic!("unexpected {:?}", other),
    };
    assert_eq!((p1, p2), (4128, 4264));
    assert!(p1 + 60 <= p2);
    assert!(p1 + 60 <= 4232);
}
