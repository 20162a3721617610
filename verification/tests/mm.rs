use reenix::mm::allocation::{AllocSource, AllocStep, Allocator, ReallocPlan, MAX_SLAB_SIZE};
use reenix::mm::page::{
    addr_to_num, align_down, align_up, aligned, const_align_down, num_to_addr, offset, same,
};
use reenix::mm::pagetable::{vaddr_to_offset, vaddr_to_pdindex, vaddr_to_ptindex};
use reenix::mm::slabmap::{SlabAllocator, SlabMap};
use reenix::mm::utils::LightMap;

#[test]
fn page_arithmetic() {
    assert_eq!(offset(0x1234), 0x234);
    assert!(aligned(0x3000));
    assert!(!aligned(0x3001));
    assert_eq!(align_down(0x3fff), 0x3000);
    assert_eq!(const_align_down(0x1000), 0x1000);
    assert_eq!(align_up(0x3001), 0x4000);
    assert_eq!(align_up(0x3000), 0x3000);
    assert_eq!(align_up(1), 0x1000);
    assert_eq!(num_to_addr(5), 0x5000);
    assert_eq!(addr_to_num(0x5fff), 5);
    assert!(same(0x5000, 0x5fff));
    assert!(!same(0x5fff, 0x6000));
}

#[test]
fn page_number_wraps() {
    // The page address of a page number past the address space wraps.
    assert_eq!(num_to_addr(usize::MAX), usize::MAX.wrapping_mul(4096));
}

#[test]
fn vaddr_split() {
    let v: usize = 0xc012_3456;
    assert_eq!(vaddr_to_pdindex(v), 0x300);
    assert_eq!(vaddr_to_ptindex(v), 0x123);
    assert_eq!(vaddr_to_offset(v), 0xc012_3000);
    let back = vaddr_to_pdindex(v) * 4 * 1024 * 1024 + vaddr_to_ptindex(v) * 4096 + offset(v);
    assert_eq!(back, v);
}

fn slab(handle: usize, size: u32) -> SlabAllocator {
    SlabAllocator { handle, size }
}

#[test]
fn slab_map_sorted_lookup() {
    let mut m = SlabMap::new();
    m.add(slab(1, 256));
    m.add(slab(2, 32));
    m.add(slab(3, 1024));
    m.add(slab(4, 32)); // a second allocator for the same size is ignored
    assert_eq!(m.len(), 3);
    m.finish();
    assert_eq!(m.find(32), Some(slab(2, 32)));
    assert_eq!(m.find(33), None);
    assert_eq!(m.find_smallest(33), Some(slab(1, 256)));
    assert_eq!(m.find_smallest(1), Some(slab(2, 32)));
    assert_eq!(m.find_smallest(1025), None);
}

fn ready_allocator() -> Allocator {
    let mut a = Allocator::new();
    a.request_slab_allocator(slab(10, 64));
    a.request_slab_allocator(slab(11, 512));
    assert!(a.maybe_add_kmalloc_slab(Some(slab(12, 2049))));
    assert!(!a.maybe_add_kmalloc_slab(Some(slab(13, 4096))));
    assert!(!a.maybe_add_kmalloc_slab(None));
    assert!(!a.requests_closed());
    a.close_requests();
    assert!(a.requests_closed());
    a
}

#[test]
fn allocator_sources() {
    let a = ready_allocator();
    assert_eq!(a.do_allocate(10), AllocSource::Slab(slab(10, 64)));
    assert_eq!(a.do_allocate(64), AllocSource::Slab(slab(10, 64)));
    assert_eq!(a.do_allocate(65), AllocSource::Slab(slab(11, 512)));
    assert_eq!(a.do_allocate(2047), AllocSource::Slab(slab(12, 2049)));
    assert_eq!(a.do_allocate(MAX_SLAB_SIZE), AllocSource::Pages(1));
    assert_eq!(a.do_allocate(4097), AllocSource::Pages(2));
    assert_eq!(a.deallocate(true, 10), None);
    assert_eq!(a.deallocate(false, 10), Some(AllocSource::Slab(slab(10, 64))));
}

#[test]
fn allocator_requests() {
    let mut a = Allocator::new();
    assert!(a.needs_slab_allocator(100));
    a.request_slab_allocator(slab(1, 100));
    assert!(!a.needs_slab_allocator(100));
    assert!(a.needs_slab_allocator(101));
}

#[test]
fn reallocate_in_place() {
    let a = ready_allocator();
    assert!(a.can_reallocate_inplace(false, 10, 60));
    assert!(!a.can_reallocate_inplace(false, 10, 100));
    assert!(a.can_reallocate_inplace(false, 5000, 8192));
    assert!(!a.can_reallocate_inplace(false, 4096, 4097));
    assert!(!a.can_reallocate_inplace(false, 100, 5000));
    assert!(!a.can_reallocate_inplace(true, 10, 11));
    assert!(a.can_reallocate_inplace(true, 10, 10));
    assert_eq!(a.reallocate_inplace(false, 10, 60), 60);
    assert_eq!(a.reallocate_inplace(false, 10, 100), 10);
    // The decision is the same in both directions.
    assert_eq!(
        a.can_reallocate_inplace(false, 60, 10),
        a.can_reallocate_inplace(false, 10, 60)
    );
    assert_eq!(a.usable_size(33, 8), 33);
}

#[test]
fn light_map_add_find() {
    let mut m: LightMap<u32> = LightMap::new();
    assert_eq!(m.find(5), None);
    m.add(10, 100);
    m.add(5, 50);
    m.add(20, 200);
    m.add(10, 999); // a key already present keeps its value
    assert_eq!(m.len(), 3);
    assert_eq!(m.find(10), Some(100));
    assert_eq!(m.find(5), Some(50));
    assert_eq!(m.find(7), None);
    assert_eq!(m.find_smallest(6), Some((10, 100)));
    assert_eq!(m.find_smallest(10), Some((10, 100)));
    assert_eq!(m.find_smallest(11), Some((20, 200)));
    assert_eq!(m.find_smallest(21), None);
    assert_eq!(m.find_smallest(0), Some((5, 50)));
}

#[test]
fn reallocate_moves_or_stays() {
    let a = ready_allocator();
    assert_eq!(a.reallocate(false, 10, 60), ReallocPlan::InPlace);
    assert_eq!(a.reallocate(false, 10, 100), ReallocPlan::Move { copy: 10 });
    assert_eq!(a.reallocate(false, 600, 100), ReallocPlan::Move { copy: 100 });
    assert_eq!(a.reallocate(true, 10, 11), ReallocPlan::Move { copy: 10 });
    assert_eq!(a.reallocate(false, 5000, 8192), ReallocPlan::InPlace);
}

#[test]
fn slab_names() {
    assert_eq!(SlabAllocator::get_name(b""), b"".to_vec());
    assert_eq!(SlabAllocator::get_name(b"kmalloc-64"), b"kmalloc-64".to_vec());
    assert_eq!(SlabAllocator::get_name(&[0x6b, 0xff, 0x6b]), b"ILLEGAL_NAME".to_vec());
}

#[test]
fn requests_after_close_are_ignored() {
    let mut a = ready_allocator();
    a.request_slab_allocator(slab(20, 100));
    assert_eq!(a.do_allocate(80), AllocSource::Slab(slab(11, 512)));
    assert!(!a.needs_slab_allocator(512));
    assert!(a.needs_slab_allocator(100));
}

#[test]
fn allocation_steps() {
    let a = ready_allocator();
    assert_eq!(a.allocate(10, 0), AllocStep::Try(AllocSource::Slab(slab(10, 64))));
    assert_eq!(a.allocate(10, 1), AllocStep::ReclaimAndRetry(AllocSource::Slab(slab(10, 64))));
    assert_eq!(a.allocate(5000, 0), AllocStep::Try(AllocSource::Pages(2)));
    assert_eq!(a.allocate(5000, 2), AllocStep::Backup);
    assert_eq!(a.allocate(5000, 3), AllocStep::Fail);
}
