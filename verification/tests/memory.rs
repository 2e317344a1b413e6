use kernel_core::memory::{
    alloc_frame, dealloc_frame, init_frame_allocator, page_fault_handler, resolve_page_fault,
    FaultTarget, FrameAllocator, KernelStack, MemoryArea, MemoryAttr, MemoryRegion, MemorySet,
    PAGE_SIZE, STACK_SIZE,
};

fn attr() -> MemoryAttr {
    MemoryAttr { user: true, readonly: false, execute: false, hide: false }
}

fn set(token: usize, ranges: &[(usize, usize)]) -> MemorySet {
    let mut set = MemorySet::new(token);
    for &(start, end) in ranges {
        let area = MemoryArea::new(start, end, attr());
        assert!(set.is_free_for(&area));
        set.push(area);
    }
    set
}

#[test]
fn area_contains_its_half_open_range() {
    let area = MemoryArea::new(0x1000, 0x3000, attr());
    assert!(!area.contains(0xfff));
    assert!(area.contains(0x1000));
    assert!(area.contains(0x2fff));
    assert!(!area.contains(0x3000));
    assert_eq!(area.start_addr(), 0x1000);
    assert_eq!(area.end_addr(), 0x3000);
    assert_eq!(area.attr(), attr());
}

#[test]
fn areas_overlap_when_they_share_an_address() {
    let a = MemoryArea::new(0x1000, 0x3000, attr());
    assert!(a.is_overlap_with(&MemoryArea::new(0x2000, 0x4000, attr())));
    assert!(a.is_overlap_with(&MemoryArea::new(0x0, 0x1001, attr())));
    assert!(!a.is_overlap_with(&MemoryArea::new(0x3000, 0x4000, attr())));
    assert!(!a.is_overlap_with(&MemoryArea::new(0x0, 0x1000, attr())));
}

#[test]
fn memory_set_finds_the_area_of_an_address() {
    let s = set(7, &[(0x1000, 0x2000), (0x8000, 0x9000)]);
    assert_eq!(s.token(), 7);
    assert_eq!(s.find_area(0x1800), Some(MemoryArea::new(0x1000, 0x2000, attr())));
    assert_eq!(s.find_area(0x8000), Some(MemoryArea::new(0x8000, 0x9000, attr())));
    assert_eq!(s.find_area(0x2000), None);
    assert_eq!(s.find_area(0), None);
    assert!(!s.is_free_for(&MemoryArea::new(0x1fff, 0x2001, attr())));
    assert!(s.is_free_for(&MemoryArea::new(0x2000, 0x8000, attr())));
}

#[test]
fn fault_outside_every_area_is_unresolved() {
    let record = vec![set(1, &[(0x1000, 0x2000)])];
    let current = set(2, &[(0x4000, 0x5000)]);
    let mut asked = false;
    // The active table belongs to the current process, which declares nothing at 0x1800.
    let resolved = page_fault_handler(0x1800, 2, &record, &current, |_, _, _| {
        asked = true;
        true
    });
    assert!(!resolved);
    assert!(!asked);
    assert_eq!(resolve_page_fault(0x1800, 2, &record, &current), None);
}

#[test]
fn fault_in_the_current_process_goes_to_the_swap_handler() {
    let record: Vec<MemorySet> = Vec::new();
    let current = set(2, &[(0x4000, 0x5000)]);
    let mut seen = None;
    let resolved = page_fault_handler(0x4abc, 2, &record, &current, |token, addr, of_process| {
        seen = Some((token, addr, of_process));
        true
    });
    assert!(resolved);
    assert_eq!(seen, Some((2, 0x4abc, true)));
    assert_eq!(
        resolve_page_fault(0x4abc, 2, &record, &current),
        Some(FaultTarget::CurrentProcess)
    );
}

#[test]
fn recorded_memory_set_of_the_active_table_comes_first() {
    let record = vec![set(5, &[(0x1000, 0x2000)]), set(9, &[(0x6000, 0x7000)]), set(9, &[])];
    let current = set(2, &[(0x6000, 0x7000)]);
    let mut seen = None;
    let resolved = page_fault_handler(0x6010, 9, &record, &current, |token, addr, of_process| {
        seen = Some((token, addr, of_process));
        false
    });
    // The handler's verdict is the result.
    assert!(!resolved);
    assert_eq!(seen, Some((9, 0x6010, false)));
    assert_eq!(resolve_page_fault(0x6010, 9, &record, &current), Some(FaultTarget::Recorded(1)));
    // The recorded set decides, though the current process declares the address.
    assert_eq!(resolve_page_fault(0x6010, 5, &record, &current), None);
}

#[test]
fn frame_allocator_falls_back_to_swapping_out() {
    let mut frames = FrameAllocator::new(4, 0x8000_0000);
    frames.insert(0, 4);
    let mut swaps = 0;
    for frame in 0..4 {
        let got = alloc_frame(&mut frames, || {
            swaps += 1;
            None
        });
        assert_eq!(got, Some(0x8000_0000 + frame * PAGE_SIZE));
    }
    assert_eq!(swaps, 0);
    assert!(!frames.any());
    // The fifth frame comes from the swap-out path.
    let fifth = alloc_frame(&mut frames, || {
        swaps += 1;
        Some(0x8000_2000)
    });
    assert_eq!(fifth, Some(0x8000_2000));
    assert_eq!(swaps, 1);
    // It fails only when there is no victim either.
    let sixth = alloc_frame(&mut frames, || None);
    assert_eq!(sixth, None);
}

#[test]
fn frame_address_is_offset_plus_frame_times_page_size() {
    let mut frames = FrameAllocator::new(16, 0x8000_0000);
    frames.insert(3, 5);
    assert_eq!(alloc_frame(&mut frames, || None), Some(0x8000_3000));
    assert_eq!(alloc_frame(&mut frames, || None), Some(0x8000_4000));
    assert_eq!(alloc_frame(&mut frames, || None), None);
}

#[test]
fn freed_frame_is_handed_out_again_lowest_first() {
    let mut frames = FrameAllocator::new(8, 0x1000);
    frames.insert(0, 8);
    for _ in 0..8 {
        assert!(alloc_frame(&mut frames, || None).is_some());
    }
    dealloc_frame(&mut frames, 0x1000 + 5 * PAGE_SIZE);
    dealloc_frame(&mut frames, 0x1000 + 2 * PAGE_SIZE + 17);
    assert!(frames.test(2));
    assert!(frames.test(5));
    assert!(!frames.test(3));
    assert_eq!(alloc_frame(&mut frames, || None), Some(0x1000 + 2 * PAGE_SIZE));
    assert_eq!(alloc_frame(&mut frames, || None), Some(0x1000 + 5 * PAGE_SIZE));
    assert_eq!(alloc_frame(&mut frames, || None), None);
}

#[test]
fn bitmap_takes_and_gives_back_frames() {
    let mut frames = FrameAllocator::new(4, 0);
    assert!(!frames.any());
    assert_eq!(frames.take_lowest(), None);
    frames.insert(1, 3);
    assert!(frames.any());
    assert!(!frames.test(0));
    assert!(frames.test(1));
    assert!(frames.test(2));
    assert!(!frames.test(3));
    assert!(!frames.test(4));
    assert_eq!(frames.take_lowest(), Some(1));
    assert_eq!(frames.take_lowest(), Some(2));
    assert_eq!(frames.take_lowest(), None);
    frames.give_back(1);
    assert_eq!(frames.take_lowest(), Some(1));
}

#[test]
fn usable_regions_become_free_frames() {
    let mut frames = FrameAllocator::new(16, 0);
    let regions = vec![
        MemoryRegion { start_frame_number: 0, end_frame_number: 2, usable: false },
        MemoryRegion { start_frame_number: 2, end_frame_number: 4, usable: true },
        MemoryRegion { start_frame_number: 100, end_frame_number: 200, usable: false },
        MemoryRegion { start_frame_number: 8, end_frame_number: 9, usable: true },
    ];
    init_frame_allocator(&mut frames, &regions);
    let free: Vec<usize> = (0..16).filter(|&f| frames.test(f)).collect();
    assert_eq!(free, vec![2, 3, 8]);
}

#[test]
fn kernel_stack_top_is_above_its_bottom() {
    assert_eq!(STACK_SIZE, 0x8000);
    let stack = KernelStack::at(0x8010_0000);
    assert_eq!(stack.top(), 0x8010_8000);
    assert_eq!(KernelStack::at(0).top(), 0x8000);
}

#[test]
fn allocator_tells_what_it_can_take() {
    assert!(FrameAllocator::fits(4096, 0x8000_0000));
    assert!(FrameAllocator::fits(0, usize::MAX));
    assert!(!FrameAllocator::fits(1, usize::MAX));
    assert!(!FrameAllocator::fits(usize::MAX, 0));
    let mut frames = FrameAllocator::new(4, 0x1000);
    frames.insert(0, 2);
    // Frames 0 and 1 are free; 2 and 3 are in use.
    assert!(!frames.holds_in_use(0x1000));
    assert!(!frames.holds_in_use(0x2fff));
    assert!(frames.holds_in_use(0x3000));
    assert!(frames.holds_in_use(0x4fff));
    assert!(!frames.holds_in_use(0x5000));
    assert!(!frames.holds_in_use(0xfff));
    let inside = MemoryRegion { start_frame_number: 1, end_frame_number: 4, usable: true };
    let outside = MemoryRegion { start_frame_number: 1, end_frame_number: 5, usable: true };
    let reversed = MemoryRegion { start_frame_number: 3, end_frame_number: 2, usable: true };
    let unusable = MemoryRegion { start_frame_number: 9, end_frame_number: 2, usable: false };
    assert!(frames.covers(&vec![inside, unusable]));
    assert!(frames.covers(&vec![]));
    assert!(!frames.covers(&vec![inside, outside]));
    assert!(!frames.covers(&vec![reversed]));
}
