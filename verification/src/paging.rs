//! Page-table entries of the two-level, 32-bit page table, and the addresses
//! under which a table that maps itself shows its entries.

use vstd::prelude::*;
use crate::memory::PAGE_SIZE;

verus! {

/// The bit of an entry that says the entry is valid.
pub const VALID: u32 = 0x001;

pub const READABLE: u32 = 0x002;

pub const WRITABLE: u32 = 0x004;

pub const EXECUTABLE: u32 = 0x008;

pub const USER: u32 = 0x010;

pub const GLOBAL: u32 = 0x020;

pub const ACCESSED: u32 = 0x040;

pub const DIRTY: u32 = 0x080;

/// The first bit that is left to software: the page is shared and writable.
pub const RESERVED1: u32 = 0x100;

/// The second bit that is left to software: the page is shared and read-only.
pub const RESERVED2: u32 = 0x200;

/// The bits of an entry below the frame number.
pub const FLAG_BITS: u32 = 10;

/// What a page-table entry says.
pub struct EntryView {
    pub valid: bool,
    pub readable: bool,
    pub writable: bool,
    pub executable: bool,
    pub user: bool,
    pub global: bool,
    pub accessed: bool,
    pub dirty: bool,
    pub writable_shared: bool,
    pub readonly_shared: bool,
    /// The number of the physical frame that the entry points to.
    pub frame: nat,
}

/// Whether `bits` has the flag `mask`.
pub open spec fn has_flag(bits: u32, mask: u32) -> bool {
    bits & mask != 0
}

/// What the entry with these bits says.
pub open spec fn entry_view(bits: u32) -> EntryView {
    EntryView {
        valid: has_flag(bits, VALID),
        readable: has_flag(bits, READABLE),
        writable: has_flag(bits, WRITABLE),
        executable: has_flag(bits, EXECUTABLE),
        user: has_flag(bits, USER),
        global: has_flag(bits, GLOBAL),
        accessed: has_flag(bits, ACCESSED),
        dirty: has_flag(bits, DIRTY),
        writable_shared: has_flag(bits, RESERVED1),
        readonly_shared: has_flag(bits, RESERVED2),
        frame: (bits >> FLAG_BITS) as nat,
    }
}

/// Whether `mask` is one flag.
pub open spec fn is_flag(mask: u32) -> bool {
    mask == VALID || mask == READABLE || mask == WRITABLE || mask == EXECUTABLE || mask == USER
        || mask == GLOBAL || mask == ACCESSED || mask == DIRTY || mask == RESERVED1 || mask
        == RESERVED2
}

/// Setting one flag sets that flag and leaves the others and the frame alone.
pub proof fn lemma_set_flag(bits: u32, mask: u32, other: u32)
    requires
        is_flag(mask),
        is_flag(other),
    ensures
        has_flag(bits | mask, other) == (other == mask || has_flag(bits, other)),
        (bits | mask) >> FLAG_BITS == bits >> FLAG_BITS,
{
    assert((bits | mask) & other != 0 <==> (other == mask || bits & other != 0)) by (bit_vector)
        requires
            mask == 0x001u32 || mask == 0x002u32 || mask == 0x004u32 || mask == 0x008u32 || mask
                == 0x010u32 || mask == 0x020u32 || mask == 0x040u32 || mask == 0x080u32 || mask
                == 0x100u32 || mask == 0x200u32,
            other == 0x001u32 || other == 0x002u32 || other == 0x004u32 || other == 0x008u32
                || other == 0x010u32 || other == 0x020u32 || other == 0x040u32 || other == 0x080u32
                || other == 0x100u32 || other == 0x200u32,
    ;
    assert((bits | mask) >> 10u32 == bits >> 10u32) by (bit_vector)
        requires
            mask == 0x001u32 || mask == 0x002u32 || mask == 0x004u32 || mask == 0x008u32 || mask
                == 0x010u32 || mask == 0x020u32 || mask == 0x040u32 || mask == 0x080u32 || mask
                == 0x100u32 || mask == 0x200u32,
    ;
}

/// Clearing one flag clears that flag and leaves the others and the frame alone.
pub proof fn lemma_clear_flag(bits: u32, mask: u32, other: u32)
    requires
        is_flag(mask),
        is_flag(other),
    ensures
        has_flag(bits & !mask, other) == (other != mask && has_flag(bits, other)),
        (bits & !mask) >> FLAG_BITS == bits >> FLAG_BITS,
{
    assert((bits & !mask) & other != 0 <==> (other != mask && bits & other != 0)) by (bit_vector)
        requires
            mask == 0x001u32 || mask == 0x002u32 || mask == 0x004u32 || mask == 0x008u32 || mask
                == 0x010u32 || mask == 0x020u32 || mask == 0x040u32 || mask == 0x080u32 || mask
                == 0x100u32 || mask == 0x200u32,
            other == 0x001u32 || other == 0x002u32 || other == 0x004u32 || other == 0x008u32
                || other == 0x010u32 || other == 0x020u32 || other == 0x040u32 || other == 0x080u32
                || other == 0x100u32 || other == 0x200u32,
    ;
    assert((bits & !mask) >> 10u32 == bits >> 10u32) by (bit_vector)
        requires
            mask == 0x001u32 || mask == 0x002u32 || mask == 0x004u32 || mask == 0x008u32 || mask
                == 0x010u32 || mask == 0x020u32 || mask == 0x040u32 || mask == 0x080u32 || mask
                == 0x100u32 || mask == 0x200u32,
    ;
}

/// What `view` says after the flag `mask` was given the value `value`.
pub open spec fn with_flag(view: EntryView, mask: u32, value: bool) -> EntryView {
    EntryView {
        valid: if mask == VALID { value } else { view.valid },
        readable: if mask == READABLE { value } else { view.readable },
        writable: if mask == WRITABLE { value } else { view.writable },
        executable: if mask == EXECUTABLE { value } else { view.executable },
        user: if mask == USER { value } else { view.user },
        global: if mask == GLOBAL { value } else { view.global },
        accessed: if mask == ACCESSED { value } else { view.accessed },
        dirty: if mask == DIRTY { value } else { view.dirty },
        writable_shared: if mask == RESERVED1 { value } else { view.writable_shared },
        readonly_shared: if mask == RESERVED2 { value } else { view.readonly_shared },
        frame: view.frame,
    }
}

/// One entry of a page table.
#[derive(Clone, Copy, Debug, PartialEq, Eq)]
pub struct PageEntry(u32);

impl PageEntry {
    /// The bits of the entry.
    pub closed spec fn bits(&self) -> u32 {
        self.0
    }

    /// What the entry says.
    pub open spec fn view(&self) -> EntryView {
        entry_view(self.bits())
    }

    pub fn from_bits(bits: u32) -> (entry: PageEntry)
        ensures
            entry.bits() == bits,
    {
        PageEntry(bits)
    }

    pub fn as_bits(&self) -> (bits: u32)
        ensures
            bits == self.bits(),
    {
        self.0
    }

    /// Gives the flag `mask` the value `value`.
    fn set_flag(&mut self, mask: u32, value: bool)
        requires
            is_flag(mask),
        ensures
            final(self)@ == with_flag(old(self)@, mask, value),
    {
        proof {
            lemma_set_flag(self.0, mask, VALID);
            lemma_set_flag(self.0, mask, READABLE);
            lemma_set_flag(self.0, mask, WRITABLE);
            lemma_set_flag(self.0, mask, EXECUTABLE);
            lemma_set_flag(self.0, mask, USER);
            lemma_set_flag(self.0, mask, GLOBAL);
            lemma_set_flag(self.0, mask, ACCESSED);
            lemma_set_flag(self.0, mask, DIRTY);
            lemma_set_flag(self.0, mask, RESERVED1);
            lemma_set_flag(self.0, mask, RESERVED2);
            lemma_clear_flag(self.0, mask, VALID);
            lemma_clear_flag(self.0, mask, READABLE);
            lemma_clear_flag(self.0, mask, WRITABLE);
            lemma_clear_flag(self.0, mask, EXECUTABLE);
            lemma_clear_flag(self.0, mask, USER);
            lemma_clear_flag(self.0, mask, GLOBAL);
            lemma_clear_flag(self.0, mask, ACCESSED);
            lemma_clear_flag(self.0, mask, DIRTY);
            lemma_clear_flag(self.0, mask, RESERVED1);
            lemma_clear_flag(self.0, mask, RESERVED2);
        }
        if value {
            self.0 = self.0 | mask;
        } else {
            self.0 = self.0 & !mask;
        }
    }

    pub fn accessed(&self) -> (r: bool)
        ensures
            r == self@.accessed,
    {
        self.0 & ACCESSED != 0
    }

    pub fn dirty(&self) -> (r: bool)
        ensures
            r == self@.dirty,
    {
        self.0 & DIRTY != 0
    }

    pub fn writable(&self) -> (r: bool)
        ensures
            r == self@.writable,
    {
        self.0 & WRITABLE != 0
    }

    /// Whether the entry is valid and readable.
    pub fn present(&self) -> (r: bool)
        ensures
            r == (self@.valid && self@.readable),
    {
        self.0 & VALID != 0 && self.0 & READABLE != 0
    }

    pub fn user(&self) -> (r: bool)
        ensures
            r == self@.user,
    {
        self.0 & USER != 0
    }

    pub fn execute(&self) -> (r: bool)
        ensures
            r == self@.executable,
    {
        self.0 & EXECUTABLE != 0
    }

    /// Whether the page is marked as shared and writable.
    pub fn writable_shared(&self) -> (r: bool)
        ensures
            r == self@.writable_shared,
    {
        self.0 & RESERVED1 != 0
    }

    /// Whether the page is marked as shared and read-only.
    pub fn readonly_shared(&self) -> (r: bool)
        ensures
            r == self@.readonly_shared,
    {
        self.0 & RESERVED2 != 0
    }

    pub fn clear_accessed(&mut self)
        ensures
            final(self)@ == with_flag(old(self)@, ACCESSED, false),
    {
        self.set_flag(ACCESSED, false);
    }

    pub fn clear_dirty(&mut self)
        ensures
            final(self)@ == with_flag(old(self)@, DIRTY, false),
    {
        self.set_flag(DIRTY, false);
    }

    pub fn set_writable(&mut self, value: bool)
        ensures
            final(self)@ == with_flag(old(self)@, WRITABLE, value),
    {
        self.set_flag(WRITABLE, value);
    }

    /// Makes the entry valid and readable, or neither.
    pub fn set_present(&mut self, value: bool)
        ensures
            final(self)@ == with_flag(with_flag(old(self)@, VALID, value), READABLE, value),
    {
        self.set_flag(VALID, value);
        self.set_flag(READABLE, value);
    }

    pub fn set_user(&mut self, value: bool)
        ensures
            final(self)@ == with_flag(old(self)@, USER, value),
    {
        self.set_flag(USER, value);
    }

    pub fn set_execute(&mut self, value: bool)
        ensures
            final(self)@ == with_flag(old(self)@, EXECUTABLE, value),
    {
        self.set_flag(EXECUTABLE, value);
    }

    /// Marks the page as shared: as writable if `writable`, else as read-only.
    pub fn set_shared(&mut self, writable: bool)
        ensures
            final(self)@ == with_flag(with_flag(old(self)@, RESERVED1, writable), RESERVED2, !writable),
    {
        self.set_flag(RESERVED1, writable);
        self.set_flag(RESERVED2, !writable);
    }

    /// Marks the page as not shared.
    pub fn clear_shared(&mut self)
        ensures
            final(self)@ == with_flag(with_flag(old(self)@, RESERVED1, false), RESERVED2, false),
    {
        self.set_flag(RESERVED1, false);
        self.set_flag(RESERVED2, false);
    }

    /// The physical address of the frame that the entry points to.
    pub fn target(&self) -> (addr: usize)
        requires
            self@.frame * PAGE_SIZE <= usize::MAX,
        ensures
            addr == self@.frame * PAGE_SIZE,
    {
        let frame = (self.0 >> FLAG_BITS) as usize;
        frame * PAGE_SIZE
    }

    /// Points the entry to the frame that holds the physical address
    /// `target`, and keeps its flags.
    pub fn set_target(&mut self, target: usize)
        requires
            target <= u32::MAX,
        ensures
            final(self)@ == (EntryView { frame: (target / PAGE_SIZE) as nat, ..old(self)@ }),
    {
        let frame = (target / PAGE_SIZE) as u32;
        let bits = self.0;
        assert(frame < 0x10_0000);
        assert({
            let new = (frame << 10u32) | (bits & 0x3ffu32);
            &&& new >> 10u32 == frame
            &&& (new & 0x001u32 != 0) == (bits & 0x001u32 != 0)
            &&& (new & 0x002u32 != 0) == (bits & 0x002u32 != 0)
            &&& (new & 0x004u32 != 0) == (bits & 0x004u32 != 0)
            &&& (new & 0x008u32 != 0) == (bits & 0x008u32 != 0)
            &&& (new & 0x010u32 != 0) == (bits & 0x010u32 != 0)
            &&& (new & 0x020u32 != 0) == (bits & 0x020u32 != 0)
            &&& (new & 0x040u32 != 0) == (bits & 0x040u32 != 0)
            &&& (new & 0x080u32 != 0) == (bits & 0x080u32 != 0)
            &&& (new & 0x100u32 != 0) == (bits & 0x100u32 != 0)
            &&& (new & 0x200u32 != 0) == (bits & 0x200u32 != 0)
        }) by (bit_vector)
            requires
                frame < 0x10_0000u32,
        ;
        self.0 = (frame << FLAG_BITS) | (bits & 0x3ff);
    }
}

/// A page table that is not the live one, known by the frame of its root.
#[derive(Debug)]
pub struct InactivePageTable0 {
    p2_frame: usize,
}

/// The bit of a token that says that paging is on.
pub const PAGING_ON: usize = 0x8000_0000;

impl InactivePageTable0 {
    /// The number of the frame of the root table.
    pub closed spec fn root_frame(&self) -> usize {
        self.p2_frame
    }

    pub fn new(p2_frame: usize) -> (table: Self)
        ensures
            table.root_frame() == p2_frame,
    {
        InactivePageTable0 { p2_frame }
    }

    /// What the address-translation register holds while the table is the
    /// live one: the number of the root frame, with paging on.
    pub fn token(&self) -> (token: usize)
        ensures
            token == self.root_frame() | PAGING_ON,
            self.root_frame() < PAGING_ON ==> token == self.root_frame() + PAGING_ON,
    {
        let frame = self.p2_frame;
        assert(frame < 0x8000_0000usize ==> frame | 0x8000_0000usize == frame + 0x8000_0000usize)
            by (bit_vector);
        frame | PAGING_ON
    }

    /// What to load into the root register to make the table the live one,
    /// while the frame `live_frame` is in the register: the table's root
    /// frame, or nothing if that is the live one already.
    pub fn activate(&self, live_frame: usize) -> (load: Option<usize>)
        ensures
            load == if live_frame != self.root_frame() {
                Some(self.root_frame())
            } else {
                None
            },
            loaded(live_frame, load) == self.root_frame(),
    {
        if live_frame != self.p2_frame {
            Some(self.p2_frame)
        } else {
            None
        }
    }

    /// What to load into the root register before and after work that is to
    /// run in this table, while the frame `live_frame` is in the register:
    /// first the table's root frame, then the frame that was live, or nothing
    /// both times if the table is the live one already.
    pub fn with(&self, live_frame: usize) -> (plan: (Option<usize>, Option<usize>))
        ensures
            plan.0 == if live_frame != self.root_frame() {
                Some(self.root_frame())
            } else {
                None
            },
            plan.1 == if live_frame != self.root_frame() {
                Some(live_frame)
            } else {
                None
            },
            loaded(live_frame, plan.0) == self.root_frame(),
            loaded(loaded(live_frame, plan.0), plan.1) == live_frame,
    {
        if live_frame != self.p2_frame {
            (Some(self.p2_frame), Some(live_frame))
        } else {
            (None, None)
        }
    }
}

/// The frame in the root register after `load` was carried out on `root`.
pub open spec fn loaded(root: usize, load: Option<usize>) -> usize {
    match load {
        Some(frame) => frame,
        None => root,
    }
}

/// Entries in one table, and bytes in one entry.
pub const ENTRY_COUNT: usize = 1024;

pub const ENTRY_SIZE: usize = 4;

/// The virtual address at which, in a root table whose entry
/// `recursive_index` points to the table itself, the second-level entry for
/// `addr` shows: the window of the recursive entry, at four bytes for each
/// page below `addr`.
pub fn entry_address(addr: usize, recursive_index: usize) -> (entry: usize)
    requires
        addr <= u32::MAX,
        recursive_index < ENTRY_COUNT,
    ensures
        entry == recursive_index * (ENTRY_COUNT * PAGE_SIZE) + (addr / PAGE_SIZE) * ENTRY_SIZE,
{
    let a = addr as u32;
    let r = recursive_index as u32;
    assert(((a >> 10u32) & 0x3f_fffcu32) | (r << 22u32) == r * 0x40_0000u32 + (a / 4096u32) * 4u32)
        by (bit_vector)
        requires
            r < 1024u32,
    ;
    assert(r * 0x40_0000 + (a / 4096) * 4 == recursive_index * (ENTRY_COUNT * PAGE_SIZE) + (addr
        / PAGE_SIZE) * ENTRY_SIZE);
    let entry = ((a >> 10) & 0x3f_fffc) | (r << 22);
    entry as usize
}

/// The virtual address at which such a root table shows itself: the last
/// page of the window of the recursive entry's own window.
pub fn root_table_address(recursive_index: usize) -> (root: usize)
    requires
        recursive_index + 1 < ENTRY_COUNT,
    ensures
        root == recursive_index * (ENTRY_COUNT * PAGE_SIZE) + (recursive_index + 1) * PAGE_SIZE,
{
    let r = recursive_index as u32;
    let next = r + 1;
    assert((((r << 10u32) | next) << 12u32) == r * 0x40_0000u32 + next * 4096u32) by (bit_vector)
        requires
            r < 1023u32,
            next == r + 1u32,
    ;
    let root = ((r << 10) | next) << 12;
    root as usize
}


/// The entry of a root table that points to the root table itself.
pub const RECURSIVE_INDEX: usize = 0x3fe;

/// The first of the two root entries that map the kernel, at 0x8000_0000.
pub const KERNEL_P2_INDEX: usize = 0x200;

/// The root entry that maps the device window, at 0x6000_0000.
pub const DEVICE_P2_INDEX: usize = 0x180;

/// The flags of an entry that points to the next table.
pub const TABLE_FLAGS: u32 = VALID;

/// The flags of a page that can be read and written: valid, readable,
/// writable, accessed and dirty.
pub const DATA_FLAGS: u32 = 0x0c7;

/// The flags of a page of the kernel while the first table is set up: as for
/// data, and executable.
pub const KERNEL_FLAGS: u32 = 0x0cf;

/// The flags of the kernel's entries in the table of a process: valid,
/// global, accessed and dirty.
pub const SHARED_KERNEL_FLAGS: u32 = 0x0e1;

/// The flags of the recursive entry while another table is edited through
/// it: valid, accessed and dirty.
pub const EDIT_FLAGS: u32 = 0x0c1;

/// The named sets of flags hold the flags that their names say.
pub proof fn law_flag_sets()
    ensures
        DATA_FLAGS == VALID | READABLE | WRITABLE | ACCESSED | DIRTY,
        KERNEL_FLAGS == DATA_FLAGS | EXECUTABLE,
        SHARED_KERNEL_FLAGS == VALID | GLOBAL | ACCESSED | DIRTY,
        EDIT_FLAGS == VALID | ACCESSED | DIRTY,
{
    assert(0x0c7u32 == 0x001u32 | 0x002u32 | 0x004u32 | 0x040u32 | 0x080u32) by (bit_vector);
    assert(0x0cfu32 == 0x0c7u32 | 0x008u32) by (bit_vector);
    assert(0x0e1u32 == 0x001u32 | 0x020u32 | 0x040u32 | 0x080u32) by (bit_vector);
    assert(0x0c1u32 == 0x001u32 | 0x040u32 | 0x080u32) by (bit_vector);
}

/// The highest frame number that an entry can hold.
pub const MAX_FRAME: usize = 0x3f_ffff;

/// The bits of the entry that points to `frame` with `flags`.
pub open spec fn entry_bits(frame: usize, flags: u32) -> u32 {
    (frame * 1024 + flags) as u32
}

/// The number of the frame that the entry with these bits points to.
pub open spec fn frame_of_bits(bits: u32) -> usize {
    (bits / 1024) as usize
}

/// The entry that points to `frame` with `flags`.
pub fn make_entry(frame: usize, flags: u32) -> (bits: u32)
    requires
        frame <= MAX_FRAME,
        flags < 1024,
    ensures
        bits == entry_bits(frame, flags),
        frame_of_bits(bits) == frame,
        bits % 1024 == flags,
{
    let f = frame as u32;
    assert((f << 10u32) | flags == f * 1024u32 + flags) by (bit_vector)
        requires
            f <= 0x3f_ffffu32,
            flags < 1024u32,
    ;
    (f << FLAG_BITS) | flags
}

/// The empty table.
pub open spec fn empty_table() -> Seq<u32> {
    Seq::new(ENTRY_COUNT as nat, |i: int| 0u32)
}

/// Clears every entry of `table`.
pub fn zero(table: &mut [u32])
    ensures
        final(table)@ == Seq::new(old(table)@.len(), |i: int| 0u32),
{
    let mut i: usize = 0;
    while i < table.len()
        invariant
            i <= table@.len(),
            table@.len() == old(table)@.len(),
            forall|k: int| 0 <= k < i ==> table@[k] == 0,
        decreases table.len() - i,
    {
        table[i] = 0;
        i += 1;
    }
    assert(table@ =~= Seq::new(old(table)@.len(), |i: int| 0u32));
}

/// Points entry `index` of `table` to `frame` as the table itself.
pub fn set_recursive(table: &mut [u32], index: usize, frame: usize)
    requires
        index < old(table)@.len(),
        frame <= MAX_FRAME,
    ensures
        final(table)@ == old(table)@.update(index as int, entry_bits(frame, TABLE_FLAGS)),
{
    table[index] = make_entry(frame, TABLE_FLAGS);
}

/// Maps the four megabytes of entry `index` of a root table to themselves.
pub fn map_identity(table: &mut [u32], index: usize, flags: u32)
    requires
        index < old(table)@.len(),
        index < ENTRY_COUNT,
        flags < 1024,
    ensures
        final(table)@ == old(table)@.update(index as int, entry_bits((index * ENTRY_COUNT) as usize, flags)),
{
    table[index] = make_entry(index * ENTRY_COUNT, flags);
}

/// The root table with which the kernel starts, in the frame `frame`: it
/// maps itself, the device window and the kernel, and nothing else.
pub open spec fn initial_root_table(frame: usize) -> Seq<u32> {
    empty_table().update(RECURSIVE_INDEX as int, entry_bits(frame, TABLE_FLAGS)).update(
        DEVICE_P2_INDEX as int,
        entry_bits((DEVICE_P2_INDEX * ENTRY_COUNT) as usize, DATA_FLAGS),
    ).update(
        KERNEL_P2_INDEX as int,
        entry_bits((KERNEL_P2_INDEX * ENTRY_COUNT) as usize, KERNEL_FLAGS),
    ).update(
        KERNEL_P2_INDEX as int + 1,
        entry_bits(((KERNEL_P2_INDEX + 1) * ENTRY_COUNT) as usize, KERNEL_FLAGS),
    )
}

/// Fills the frame `frame`, seen as `p2`, with the root table with which the
/// kernel starts.
pub fn setup_page_table(p2: &mut [u32], frame: usize)
    requires
        old(p2)@.len() == ENTRY_COUNT,
        frame <= MAX_FRAME,
    ensures
        final(p2)@ == initial_root_table(frame),
{
    zero(p2);
    set_recursive(p2, RECURSIVE_INDEX, frame);
    map_identity(p2, DEVICE_P2_INDEX, DATA_FLAGS);
    map_identity(p2, KERNEL_P2_INDEX, KERNEL_FLAGS);
    map_identity(p2, KERNEL_P2_INDEX + 1, KERNEL_FLAGS);
    assert(p2@ =~= initial_root_table(frame));
}

/// The root table of a new address space in the frame `frame`: it maps
/// itself and nothing else.
pub open spec fn bare_root_table(frame: usize) -> Seq<u32> {
    empty_table().update(RECURSIVE_INDEX as int, entry_bits(frame, TABLE_FLAGS))
}

/// Fills the frame `frame`, seen as `table`, with a bare root table.
pub fn new_bare(table: &mut [u32], frame: usize)
    requires
        old(table)@.len() == ENTRY_COUNT,
        frame <= MAX_FRAME,
    ensures
        final(table)@ == bare_root_table(frame),
{
    zero(table);
    set_recursive(table, RECURSIVE_INDEX, frame);
    assert(table@ =~= bare_root_table(frame));
}

/// Opens the table in the frame `frame` for editing: puts it in the place
/// of the recursive entry of the live root table `p2_table`, and hands out
/// the entry that was there.
pub fn begin_edit(p2_table: &mut [u32], frame: usize) -> (backup: u32)
    requires
        old(p2_table)@.len() == ENTRY_COUNT,
        frame <= MAX_FRAME,
    ensures
        backup == old(p2_table)@[RECURSIVE_INDEX as int],
        final(p2_table)@ == old(p2_table)@.update(
            RECURSIVE_INDEX as int,
            entry_bits(frame, EDIT_FLAGS),
        ),
{
    let backup = p2_table[RECURSIVE_INDEX];
    p2_table[RECURSIVE_INDEX] = make_entry(frame, EDIT_FLAGS);
    backup
}

/// Ends the editing: puts the recursive entry of the live root table back.
pub fn end_edit(p2_table: &mut [u32], backup: u32)
    requires
        old(p2_table)@.len() == ENTRY_COUNT,
    ensures
        final(p2_table)@ == old(p2_table)@.update(RECURSIVE_INDEX as int, backup),
{
    p2_table[RECURSIVE_INDEX] = backup;
}

/// Editing leaves the live root table as it was: whatever is done to the
/// other entries in between, the recursive entry is the old one again, and
/// untouched entries stay.
pub proof fn law_edit_restores(before: Seq<u32>, frame: usize, during: Seq<u32>)
    requires
        before.len() == ENTRY_COUNT,
        during.len() == ENTRY_COUNT,
    ensures
        during.update(RECURSIVE_INDEX as int, before[RECURSIVE_INDEX as int])[RECURSIVE_INDEX as int]
            == before[RECURSIVE_INDEX as int],
        during == before.update(RECURSIVE_INDEX as int, entry_bits(frame, EDIT_FLAGS))
            ==> during.update(RECURSIVE_INDEX as int, before[RECURSIVE_INDEX as int]) == before,
{
    if during == before.update(RECURSIVE_INDEX as int, entry_bits(frame, EDIT_FLAGS)) {
        assert(during.update(RECURSIVE_INDEX as int, before[RECURSIVE_INDEX as int]) =~= before);
    }
}

/// The root table `table` with the kernel of the live table mapped in: the
/// device entry `e0` as it is, and the frames of the kernel entries `e1` and
/// `e2` as global pages.
pub open spec fn with_kernel(table: Seq<u32>, e0: u32, e1: u32, e2: u32) -> Seq<u32> {
    table.update(DEVICE_P2_INDEX as int, e0).update(
        KERNEL_P2_INDEX as int,
        entry_bits(frame_of_bits(e1), SHARED_KERNEL_FLAGS),
    ).update(KERNEL_P2_INDEX as int + 1, entry_bits(frame_of_bits(e2), SHARED_KERNEL_FLAGS))
}

/// Maps the kernel into the root table `table`, from the entries `e0`, `e1`
/// and `e2` that map it in the live table.
pub fn map_kernel(table: &mut [u32], e0: u32, e1: u32, e2: u32)
    requires
        old(table)@.len() == ENTRY_COUNT,
        e1 != 0,
    ensures
        final(table)@ == with_kernel(old(table)@, e0, e1, e2),
{
    let f1 = (e1 >> FLAG_BITS) as usize;
    let f2 = (e2 >> FLAG_BITS) as usize;
    assert(e1 >> 10u32 == e1 / 1024u32 && e1 >> 10u32 <= 0x3f_ffffu32) by (bit_vector);
    assert(e2 >> 10u32 == e2 / 1024u32 && e2 >> 10u32 <= 0x3f_ffffu32) by (bit_vector);
    table[DEVICE_P2_INDEX] = e0;
    table[KERNEL_P2_INDEX] = make_entry(f1, SHARED_KERNEL_FLAGS);
    table[KERNEL_P2_INDEX + 1] = make_entry(f2, SHARED_KERNEL_FLAGS);
    assert(table@ =~= with_kernel(old(table)@, e0, e1, e2));
}

/// The entry that maps a page to the frame that holds the physical address
/// `target`, for reading and writing.
pub fn data_entry(target: usize) -> (entry: PageEntry)
    requires
        target <= u32::MAX,
    ensures
        entry.bits() == entry_bits((target / PAGE_SIZE) as usize, DATA_FLAGS),
{
    PageEntry(make_entry(target / PAGE_SIZE, DATA_FLAGS))
}

} // verus!
