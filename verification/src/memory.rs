//! Memory areas, page-fault resolution and the physical frame allocator.

use vstd::prelude::*;

verus! {

/// Bytes in one page and in one physical frame.
pub const PAGE_SIZE: usize = 4096;

/// Permissions of a memory area.
#[derive(Clone, Copy, Debug, PartialEq, Eq, Structural)]
pub struct MemoryAttr {
    pub user: bool,
    pub readonly: bool,
    pub execute: bool,
    pub hide: bool,
}

/// A half-open range of virtual addresses, `start_addr..end_addr`, with its permissions.
#[derive(Clone, Copy, Debug, PartialEq, Eq, Structural)]
pub struct MemoryArea {
    start_addr: usize,
    end_addr: usize,
    attr: MemoryAttr,
}

impl MemoryArea {
    pub closed spec fn start(&self) -> usize {
        self.start_addr
    }

    pub closed spec fn end(&self) -> usize {
        self.end_addr
    }

    pub closed spec fn spec_attr(&self) -> MemoryAttr {
        self.attr
    }

    /// Whether `addr` lies inside the area.
    pub open spec fn spec_contains(&self, addr: usize) -> bool {
        self.start() <= addr < self.end()
    }

    /// Whether the two areas share an address.
    pub open spec fn spec_overlaps(&self, other: &MemoryArea) -> bool {
        self.start() < other.end() && other.start() < self.end()
    }

    pub fn new(start_addr: usize, end_addr: usize, attr: MemoryAttr) -> (area: MemoryArea)
        requires
            start_addr <= end_addr,
        ensures
            area.start() == start_addr,
            area.end() == end_addr,
            area.spec_attr() == attr,
    {
        MemoryArea { start_addr, end_addr, attr }
    }

    pub fn start_addr(&self) -> (r: usize)
        ensures
            r == self.start(),
    {
        self.start_addr
    }

    pub fn end_addr(&self) -> (r: usize)
        ensures
            r == self.end(),
    {
        self.end_addr
    }

    pub fn attr(&self) -> (r: MemoryAttr)
        ensures
            r == self.spec_attr(),
    {
        self.attr
    }

    pub fn contains(&self, addr: usize) -> (r: bool)
        ensures
            r == self.spec_contains(addr),
    {
        addr >= self.start_addr && addr < self.end_addr
    }

    pub fn is_overlap_with(&self, other: &MemoryArea) -> (r: bool)
        ensures
            r == self.spec_overlaps(other),
    {
        self.start_addr < other.end_addr && other.start_addr < self.end_addr
    }
}

/// The first area of `areas` that contains `addr`, if any does.
pub open spec fn first_area_with(areas: Seq<MemoryArea>, addr: usize) -> Option<MemoryArea>
    decreases areas.len(),
{
    if areas.len() == 0 {
        None
    } else if areas[0].spec_contains(addr) {
        Some(areas[0])
    } else {
        first_area_with(areas.drop_first(), addr)
    }
}

/// An area is found exactly when some area contains the address, and what is
/// found is such an area of the sequence.
pub proof fn law_first_area_with(areas: Seq<MemoryArea>, addr: usize)
    ensures
        first_area_with(areas, addr) is Some <==> exists|i: int|
            0 <= i < areas.len() && (#[trigger] areas[i]).spec_contains(addr),
        first_area_with(areas, addr) matches Some(a) ==> a.spec_contains(addr) && areas.contains(a),
    decreases areas.len(),
{
    if areas.len() == 0 {
    } else if areas[0].spec_contains(addr) {
    } else {
        let rest = areas.drop_first();
        law_first_area_with(rest, addr);
        if first_area_with(rest, addr) is Some {
            let i = choose|i: int| 0 <= i < rest.len() && (#[trigger] rest[i]).spec_contains(addr);
            assert(areas[i + 1].spec_contains(addr));
            let a = first_area_with(rest, addr).unwrap();
            let j = choose|j: int| 0 <= j < rest.len() && rest[j] == a;
            assert(areas[j + 1] == a);
        }
        if exists|i: int| 0 <= i < areas.len() && (#[trigger] areas[i]).spec_contains(addr) {
            let i = choose|i: int| 0 <= i < areas.len() && (#[trigger] areas[i]).spec_contains(addr);
            assert(rest[i - 1].spec_contains(addr));
        }
    }
}

/// The declared memory areas of one address space, bound to the page table
/// that `token` identifies.
pub struct MemorySet {
    areas: Vec<MemoryArea>,
    page_table_token: usize,
}

impl MemorySet {
    /// The areas, in the order in which they were declared.
    pub closed spec fn areas(&self) -> Seq<MemoryArea> {
        self.areas@
    }

    /// The token of the page table that the set is bound to.
    pub closed spec fn spec_token(&self) -> usize {
        self.page_table_token
    }

    /// No two declared areas share an address.
    pub open spec fn wf(&self) -> bool {
        forall|i: int, j: int|
            #![trigger self.areas()[i], self.areas()[j]]
            0 <= i < j < self.areas().len() ==> !self.areas()[i].spec_overlaps(&self.areas()[j])
    }

    /// Whether `area` overlaps no declared area.
    pub open spec fn spec_is_free_for(&self, area: &MemoryArea) -> bool {
        forall|i: int|
            0 <= i < self.areas().len() ==> !(#[trigger] self.areas()[i]).spec_overlaps(area)
    }

    pub fn new(page_table_token: usize) -> (set: MemorySet)
        ensures
            set.wf(),
            set.areas() == Seq::<MemoryArea>::empty(),
            set.spec_token() == page_table_token,
    {
        MemorySet { areas: Vec::new(), page_table_token }
    }

    pub fn token(&self) -> (r: usize)
        ensures
            r == self.spec_token(),
    {
        self.page_table_token
    }

    pub fn is_free_for(&self, area: &MemoryArea) -> (r: bool)
        ensures
            r == self.spec_is_free_for(area),
    {
        let mut i: usize = 0;
        while i < self.areas.len()
            invariant
                i <= self.areas.len(),
                forall|k: int| 0 <= k < i ==> !(#[trigger] self.areas()[k]).spec_overlaps(area),
            decreases self.areas.len() - i,
        {
            if self.areas[i].is_overlap_with(area) {
                assert(self.areas()[i as int].spec_overlaps(area));
                return false;
            }
            i += 1;
        }
        true
    }

    /// Declares one more area.
    pub fn push(&mut self, area: MemoryArea)
        requires
            old(self).wf(),
            old(self).spec_is_free_for(&area),
        ensures
            final(self).wf(),
            final(self).areas() == old(self).areas().push(area),
            final(self).spec_token() == old(self).spec_token(),
    {
        self.areas.push(area);
        proof {
            let after = self.areas();
            assert forall|i: int, j: int|
                #![trigger after[i], after[j]]
                0 <= i < j < after.len() implies !after[i].spec_overlaps(&after[j]) by {
                assert(after[i] == old(self).areas()[i]);
                if j < after.len() - 1 {
                    assert(after[j] == old(self).areas()[j]);
                }
            }
        }
    }

    /// The declared area that contains `addr`.
    pub fn find_area(&self, addr: usize) -> (r: Option<MemoryArea>)
        ensures
            r == first_area_with(self.areas(), addr),
    {
        let mut i: usize = 0;
        assert(self.areas().skip(0) == self.areas());
        while i < self.areas.len()
            invariant
                i <= self.areas.len(),
                first_area_with(self.areas(), addr) == first_area_with(
                    self.areas().skip(i as int),
                    addr,
                ),
            decreases self.areas.len() - i,
        {
            let area = self.areas[i];
            assert(self.areas().skip(i as int)[0] == area);
            if area.contains(addr) {
                return Some(area);
            }
            assert(self.areas().skip(i as int).drop_first() == self.areas().skip(i as int + 1));
            i += 1;
        }
        None
    }
}

/// The memory set that answers for a page fault.
#[derive(Clone, Copy, Debug, PartialEq, Eq, Structural)]
pub enum FaultTarget {
    /// The recorded memory set at this position, whose page table is the active one.
    Recorded(usize),
    /// The memory set of the process that is scheduled on the faulting core.
    CurrentProcess,
}

/// The position of the first recorded memory set that is bound to the page
/// table `active_token`.
pub open spec fn record_position(record: Seq<MemorySet>, active_token: usize) -> Option<int>
    decreases record.len(),
{
    if record.len() == 0 {
        None
    } else if record[0].spec_token() == active_token {
        Some(0)
    } else {
        match record_position(record.drop_first(), active_token) {
            Some(i) => Some(i + 1),
            None => None,
        }
    }
}

/// `record_position` is the least position with a matching token.
pub proof fn lemma_record_position(record: Seq<MemorySet>, active_token: usize)
    ensures
        match record_position(record, active_token) {
            Some(i) => 0 <= i < record.len() && record[i].spec_token() == active_token
                && forall|j: int| 0 <= j < i ==> (#[trigger] record[j]).spec_token() != active_token,
            None => forall|j: int|
                0 <= j < record.len() ==> (#[trigger] record[j]).spec_token() != active_token,
        },
    decreases record.len(),
{
    if record.len() == 0 {
    } else if record[0].spec_token() == active_token {
    } else {
        let rest = record.drop_first();
        lemma_record_position(rest, active_token);
        match record_position(rest, active_token) {
            Some(i) => {
                assert forall|j: int| 0 <= j < i + 1 implies (#[trigger] record[j]).spec_token()
                    != active_token by {
                    if j > 0 {
                        assert(rest[j - 1].spec_token() != active_token);
                    }
                }
            },
            None => {
                assert forall|j: int| 0 <= j < record.len() implies (#[trigger] record[j]).spec_token()
                    != active_token by {
                    if j > 0 {
                        assert(rest[j - 1].spec_token() != active_token);
                    }
                }
            },
        }
    }
}

/// Which memory set answers for a fault while `active_token` is the live page
/// table: the first recorded set bound to it, else the current process's set.
pub open spec fn fault_target(record: Seq<MemorySet>, active_token: usize) -> FaultTarget {
    match record_position(record, active_token) {
        Some(i) => FaultTarget::Recorded(i as usize),
        None => FaultTarget::CurrentProcess,
    }
}

/// The memory set that `target` stands for.
pub open spec fn target_set(
    record: Seq<MemorySet>,
    current: MemorySet,
    target: FaultTarget,
) -> MemorySet {
    match target {
        FaultTarget::Recorded(i) => record[i as int],
        FaultTarget::CurrentProcess => current,
    }
}

/// The outcome of resolving a fault at `addr`: `None` where the answering
/// memory set declares no area that contains `addr`, else that set.
pub open spec fn resolve(
    addr: usize,
    active_token: usize,
    record: Seq<MemorySet>,
    current: MemorySet,
) -> Option<FaultTarget> {
    let target = fault_target(record, active_token);
    if first_area_with(target_set(record, current, target).areas(), addr) is Some {
        Some(target)
    } else {
        None
    }
}

/// Finds the memory set that answers for a fault at `addr` and checks that it
/// declares an area there.
pub fn resolve_page_fault(
    addr: usize,
    active_token: usize,
    record: &Vec<MemorySet>,
    current: &MemorySet,
) -> (r: Option<FaultTarget>)
    ensures
        r == resolve(addr, active_token, record@, *current),
{
    let mut i: usize = 0;
    let mut found: Option<usize> = None;
    while i < record.len()
        invariant_except_break
            i <= record.len(),
            found is None,
            forall|j: int| 0 <= j < i ==> (#[trigger] record@[j]).spec_token() != active_token,
        ensures
            match found {
                Some(k) => k < record.len() && record@[k as int].spec_token() == active_token
                    && forall|j: int|
                    0 <= j < k ==> (#[trigger] record@[j]).spec_token() != active_token,
                None => forall|j: int|
                    0 <= j < record.len() ==> (#[trigger] record@[j]).spec_token() != active_token,
            },
        decreases record.len() - i,
    {
        if record[i].token() == active_token {
            found = Some(i);
            break;
        }
        i += 1;
    }
    proof {
        lemma_record_position(record@, active_token);
    }
    match found {
        Some(k) => {
            assert(record_position(record@, active_token) == Some(k as int)) by {
                let p = record_position(record@, active_token);
                assert(p is Some);
                if p.unwrap() < k {
                    assert(record@[p.unwrap()].spec_token() != active_token);
                }
            }
            if record[k].find_area(addr).is_some() {
                Some(FaultTarget::Recorded(k))
            } else {
                None
            }
        },
        None => {
            assert(record_position(record@, active_token) is None) by {
                let p = record_position(record@, active_token);
                if p is Some {
                    assert(record@[p.unwrap()].spec_token() != active_token);
                }
            }
            if current.find_area(addr).is_some() {
                Some(FaultTarget::CurrentProcess)
            } else {
                None
            }
        },
    }
}

/// Handles a page fault at `addr` taken while the page table `active_token` is live.
///
/// A fault outside every declared area of the answering memory set is
/// unrecoverable and `swap_handler` is not consulted. Otherwise the fault is
/// handed to `swap_handler` with the token of the answering set's page table,
/// the address, and whether that set is the current process's own (so that the
/// live table can be used) rather than a recorded one (whose table has to be
/// edited from outside); its verdict is the result.
pub fn page_fault_handler<F: FnOnce(usize, usize, bool) -> bool>(
    addr: usize,
    active_token: usize,
    record: &Vec<MemorySet>,
    current: &MemorySet,
    swap_handler: F,
) -> (resolved: bool)
    requires
        forall|token: usize, of_process: bool| call_requires(swap_handler, (token, addr, of_process)),
    ensures
        match resolve(addr, active_token, record@, *current) {
            None => !resolved,
            Some(target) => call_ensures(
                swap_handler,
                (
                    target_set(record@, *current, target).spec_token(),
                    addr,
                    target == FaultTarget::CurrentProcess,
                ),
                resolved,
            ),
        },
{
    match resolve_page_fault(addr, active_token, record, current) {
        None => false,
        Some(FaultTarget::Recorded(k)) => {
            proof {
                lemma_record_position(record@, active_token);
            }
            swap_handler(record[k].token(), addr, false)
        },
        Some(FaultTarget::CurrentProcess) => swap_handler(current.token(), addr, true),
    }
}


/// One range of physical frames as the boot loader reports it.
#[derive(Clone, Copy, Debug, PartialEq, Eq, Structural)]
pub struct MemoryRegion {
    /// The first frame of the region.
    pub start_frame_number: usize,
    /// The frame behind the last frame of the region.
    pub end_frame_number: usize,
    /// Whether the kernel may hand the region's frames out.
    pub usable: bool,
}

impl MemoryRegion {
    pub open spec fn holds(&self, frame: int) -> bool {
        self.start_frame_number <= frame < self.end_frame_number
    }
}

/// Whether some usable region among the first `n` holds `frame`.
pub open spec fn in_usable_region(regions: Seq<MemoryRegion>, n: int, frame: int) -> bool {
    exists|i: int| 0 <= i < n && (#[trigger] regions[i]).usable && regions[i].holds(frame)
}

/// A bitmap over the physical frames `0..capacity`: a frame is free, or it is
/// in use (handed out, or never made available).
pub struct FrameAllocator {
    used: Vec<bool>,
    memory_offset: usize,
}

impl FrameAllocator {
    /// The number of frames that the bitmap covers.
    pub closed spec fn capacity(&self) -> nat {
        self.used@.len()
    }

    /// The physical address of frame 0.
    pub closed spec fn offset(&self) -> nat {
        self.memory_offset as nat
    }

    /// Whether `frame` can be handed out.
    pub closed spec fn is_free(&self, frame: int) -> bool {
        0 <= frame < self.used@.len() && !self.used@[frame]
    }

    /// The address of every frame fits in a machine word.
    pub open spec fn wf(&self) -> bool {
        self.capacity() * PAGE_SIZE + self.offset() <= usize::MAX
    }

    /// The physical address at which `frame` starts.
    pub open spec fn address_of(&self, frame: int) -> int {
        frame * PAGE_SIZE + self.offset()
    }

    /// The frame that holds the physical address `target`.
    pub open spec fn frame_of(&self, target: int) -> int {
        (target - self.offset()) / (PAGE_SIZE as int)
    }

    /// Whether `frame` is free and no lower frame is.
    pub open spec fn is_lowest_free(&self, frame: int) -> bool {
        self.is_free(frame) && forall|j: int| 0 <= j < frame ==> !self.is_free(j)
    }

    /// The lowest free frame, where there is one.
    pub open spec fn lowest_free(&self) -> int {
        choose|frame: int| self.is_lowest_free(frame)
    }

    pub open spec fn none_free(&self) -> bool {
        forall|j: int| !self.is_free(j)
    }

    /// Whether `self` differs from `before` in `frame` only, which is now
    /// free or not as `free` says.
    pub open spec fn changed_at(&self, before: &FrameAllocator, frame: int, free: bool) -> bool {
        &&& self.capacity() == before.capacity()
        &&& self.offset() == before.offset()
        &&& self.is_free(frame) == free
        &&& forall|j: int| j != frame ==> self.is_free(j) == before.is_free(j)
    }

    /// Whether `self` is `before` in every respect.
    pub open spec fn same_as(&self, before: &FrameAllocator) -> bool {
        &&& self.capacity() == before.capacity()
        &&& self.offset() == before.offset()
        &&& forall|j: int| self.is_free(j) == before.is_free(j)
    }

    /// Whether the addresses of `capacity` frames from `memory_offset` on fit
    /// in a machine word.
    pub fn fits(capacity: usize, memory_offset: usize) -> (r: bool)
        ensures
            r == (capacity * PAGE_SIZE + memory_offset <= usize::MAX),
    {
        match capacity.checked_mul(PAGE_SIZE) {
            Some(bytes) => bytes.checked_add(memory_offset).is_some(),
            None => false,
        }
    }

    /// Whether `target` is an address in a frame of the bitmap that is in use.
    pub open spec fn spec_holds_in_use(&self, target: usize) -> bool {
        &&& self.offset() <= target
        &&& self.frame_of(target as int) < self.capacity()
        &&& !self.is_free(self.frame_of(target as int))
    }

    /// Whether `target` is an address in a frame of the bitmap that is in use.
    pub fn holds_in_use(&self, target: usize) -> (r: bool)
        ensures
            r == self.spec_holds_in_use(target),
    {
        if target < self.memory_offset {
            return false;
        }
        let frame = (target - self.memory_offset) / PAGE_SIZE;
        frame < self.used.len() && self.used[frame]
    }

    /// Whether every usable region of `regions` lies in the bitmap.
    pub open spec fn spec_covers(&self, regions: Seq<MemoryRegion>) -> bool {
        forall|i: int|
            0 <= i < regions.len() && (#[trigger] regions[i]).usable ==> regions[i].start_frame_number
                <= regions[i].end_frame_number <= self.capacity()
    }

    /// Whether every usable region of `regions` lies in the bitmap.
    pub fn covers(&self, regions: &Vec<MemoryRegion>) -> (r: bool)
        ensures
            r == self.spec_covers(regions@),
    {
        let mut i: usize = 0;
        while i < regions.len()
            invariant
                i <= regions@.len(),
                forall|k: int|
                    0 <= k < i && (#[trigger] regions@[k]).usable ==> regions@[k].start_frame_number
                        <= regions@[k].end_frame_number <= self.capacity(),
            decreases regions.len() - i,
        {
            let region = regions[i];
            if region.usable && !(region.start_frame_number <= region.end_frame_number
                && region.end_frame_number <= self.used.len()) {
                assert(regions@[i as int].usable);
                return false;
            }
            i += 1;
        }
        true
    }

    /// An allocator over `capacity` frames from the physical address
    /// `memory_offset` on, none of them available yet.
    pub fn new(capacity: usize, memory_offset: usize) -> (allocator: Self)
        requires
            capacity * PAGE_SIZE + memory_offset <= usize::MAX,
        ensures
            allocator.wf(),
            allocator.capacity() == capacity,
            allocator.offset() == memory_offset,
            allocator.none_free(),
    {
        let mut used: Vec<bool> = Vec::new();
        let mut i: usize = 0;
        while i < capacity
            invariant
                i <= capacity,
                used@.len() == i,
                forall|k: int| 0 <= k < i ==> used@[k],
            decreases capacity - i,
        {
            used.push(true);
            i += 1;
        }
        FrameAllocator { used, memory_offset }
    }

    /// Makes the frames `start..end` available.
    pub fn insert(&mut self, start: usize, end: usize)
        requires
            start <= end <= old(self).capacity(),
        ensures
            final(self).capacity() == old(self).capacity(),
            final(self).offset() == old(self).offset(),
            forall|j: int| final(self).is_free(j) == (old(self).is_free(j) || start <= j < end),
    {
        let mut i: usize = start;
        while i < end
            invariant
                start <= i <= end <= self.used@.len(),
                self.used@.len() == old(self).used@.len(),
                self.memory_offset == old(self).memory_offset,
                forall|j: int| self.is_free(j) == (old(self).is_free(j) || start <= j < i),
            decreases end - i,
        {
            self.used[i] = false;
            i += 1;
        }
    }

    /// Whether any frame is free.
    pub fn any(&self) -> (r: bool)
        ensures
            r == !self.none_free(),
    {
        let mut i: usize = 0;
        while i < self.used.len()
            invariant
                i <= self.used@.len(),
                forall|j: int| 0 <= j < i ==> !self.is_free(j),
            decreases self.used.len() - i,
        {
            if !self.used[i] {
                assert(self.is_free(i as int));
                return true;
            }
            i += 1;
        }
        false
    }

    /// Whether `frame` is free.
    pub fn test(&self, frame: usize) -> (r: bool)
        ensures
            r == self.is_free(frame as int),
    {
        frame < self.used.len() && !self.used[frame]
    }

    /// Takes the lowest free frame.
    pub fn take_lowest(&mut self) -> (r: Option<usize>)
        ensures
            match r {
                Some(frame) => old(self).is_lowest_free(frame as int) && final(self).changed_at(
                    old(self),
                    frame as int,
                    false,
                ),
                None => old(self).none_free() && final(self).same_as(old(self)),
            },
    {
        let mut i: usize = 0;
        while i < self.used.len()
            invariant
                i <= self.used@.len(),
                self.used@ == old(self).used@,
                self.memory_offset == old(self).memory_offset,
                forall|j: int| 0 <= j < i ==> old(self).used@[j],
            decreases self.used.len() - i,
        {
            if !self.used[i] {
                self.used[i] = true;
                assert(old(self).is_free(i as int));
                assert forall|j: int| j != i implies self.is_free(j) == old(self).is_free(j) by {
                    if 0 <= j < self.used@.len() {
                        assert(self.used@[j] == old(self).used@[j]);
                    }
                }
                return Some(i);
            }
            i += 1;
        }
        assert forall|j: int| !old(self).is_free(j) by {
            if 0 <= j < old(self).used@.len() {
                assert(old(self).used@[j]);
            }
        }
        None
    }

    /// Gives the frame `frame`, which is in use, back.
    pub fn give_back(&mut self, frame: usize)
        requires
            frame < old(self).capacity(),
            !old(self).is_free(frame as int),
        ensures
            final(self).changed_at(old(self), frame as int, true),
    {
        self.used[frame] = false;
    }
}

/// Hands out the address of a free physical frame: that of the lowest free
/// frame of the bitmap, or, when the bitmap has none, what `swap_out` frees
/// by evicting a page. `None` only when that fails too.
pub fn alloc_frame<F: FnOnce() -> Option<usize>>(allocator: &mut FrameAllocator, swap_out: F) -> (r:
    Option<usize>)
    requires
        old(allocator).wf(),
        call_requires(swap_out, ()),
    ensures
        final(allocator).wf(),
        old(allocator).none_free() ==> final(allocator).same_as(old(allocator)) && call_ensures(
            swap_out,
            (),
            r,
        ),
        !old(allocator).none_free() ==> old(allocator).is_lowest_free(old(allocator).lowest_free())
            && r == Some(old(allocator).address_of(old(allocator).lowest_free()) as usize)
            && final(allocator).changed_at(old(allocator), old(allocator).lowest_free(), false),
{
    match allocator.take_lowest() {
        Some(frame) => {
            proof {
                let lowest = old(allocator).lowest_free();
                assert(old(allocator).is_lowest_free(frame as int));
                assert(old(allocator).is_lowest_free(lowest));
                if lowest < frame {
                    assert(!old(allocator).is_free(lowest));
                }
                if frame < lowest {
                    assert(!old(allocator).is_free(frame as int));
                }
            }
            assert(frame * PAGE_SIZE + allocator.memory_offset <= allocator.used@.len() * PAGE_SIZE
                + allocator.memory_offset) by (nonlinear_arith)
                requires
                    frame < allocator.used@.len(),
            ;
            Some(frame * PAGE_SIZE + allocator.memory_offset)
        },
        None => swap_out(),
    }
}

/// Gives back the frame that holds the physical address `target`.
pub fn dealloc_frame(allocator: &mut FrameAllocator, target: usize)
    requires
        old(allocator).wf(),
        old(allocator).spec_holds_in_use(target),
    ensures
        final(allocator).wf(),
        final(allocator).changed_at(old(allocator), old(allocator).frame_of(target as int), true),
{
    allocator.give_back((target - allocator.memory_offset) / PAGE_SIZE);
}

/// Makes the frames of every usable region available.
pub fn init_frame_allocator(allocator: &mut FrameAllocator, regions: &Vec<MemoryRegion>)
    requires
        old(allocator).spec_covers(regions@),
    ensures
        final(allocator).capacity() == old(allocator).capacity(),
        final(allocator).offset() == old(allocator).offset(),
        forall|j: int|
            final(allocator).is_free(j) == (old(allocator).is_free(j) || in_usable_region(
                regions@,
                regions@.len() as int,
                j,
            )),
{
    let mut i: usize = 0;
    while i < regions.len()
        invariant
            i <= regions@.len(),
            allocator.capacity() == old(allocator).capacity(),
            allocator.offset() == old(allocator).offset(),
            forall|k: int|
                0 <= k < regions@.len() && (#[trigger] regions@[k]).usable
                    ==> regions@[k].start_frame_number <= regions@[k].end_frame_number <= old(
                    allocator,
                ).capacity(),
            forall|j: int|
                allocator.is_free(j) == (old(allocator).is_free(j) || in_usable_region(
                    regions@,
                    i as int,
                    j,
                )),
        decreases regions.len() - i,
    {
        let region = regions[i];
        if region.usable {
            allocator.insert(region.start_frame_number, region.end_frame_number);
        }
        proof {
            assert forall|j: int|
                allocator.is_free(j) == (old(allocator).is_free(j) || in_usable_region(
                    regions@,
                    i as int + 1,
                    j,
                )) by {
                if in_usable_region(regions@, i as int + 1, j) {
                    let k = choose|k: int|
                        0 <= k < i + 1 && (#[trigger] regions@[k]).usable && regions@[k].holds(j);
                    if k < i {
                        assert(in_usable_region(regions@, i as int, j));
                    }
                }
                if in_usable_region(regions@, i as int, j) {
                    let k = choose|k: int|
                        0 <= k < i && (#[trigger] regions@[k]).usable && regions@[k].holds(j);
                    assert(regions@[k].usable && regions@[k].holds(j));
                }
                if region.usable && region.holds(j) {
                    assert(regions@[i as int].usable && regions@[i as int].holds(j));
                }
            }
        }
        i += 1;
    }
}

/// Bytes of a kernel stack.
pub const STACK_SIZE: usize = 0x8000;

/// The stack on which a process runs in the kernel.
pub struct KernelStack(usize);

impl KernelStack {
    /// The lowest address of the stack.
    pub closed spec fn bottom(&self) -> usize {
        self.0
    }

    /// The stack in the `STACK_SIZE` bytes from `bottom` on.
    pub fn at(bottom: usize) -> (stack: Self)
        requires
            bottom + STACK_SIZE <= usize::MAX,
        ensures
            stack.bottom() == bottom,
            stack.wf(),
    {
        KernelStack(bottom)
    }

    /// The stack ends below the top of the address space.
    pub open spec fn wf(&self) -> bool {
        self.bottom() + STACK_SIZE <= usize::MAX
    }

    /// The address behind the highest byte of the stack, where it starts to grow.
    pub fn top(&self) -> (top: usize)
        requires
            self.wf(),
        ensures
            top == self.bottom() + STACK_SIZE,
    {
        self.0 + STACK_SIZE
    }
}

} // verus!
