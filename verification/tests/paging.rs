use kernel_core::paging::{
    begin_edit, data_entry, end_edit, entry_address, make_entry, map_identity, map_kernel, new_bare,
    root_table_address, set_recursive, setup_page_table, zero, InactivePageTable0, PageEntry,
    ACCESSED, DATA_FLAGS, DEVICE_P2_INDEX, DIRTY, EDIT_FLAGS, ENTRY_COUNT, EXECUTABLE, GLOBAL,
    KERNEL_FLAGS, KERNEL_P2_INDEX, READABLE, RECURSIVE_INDEX, RESERVED1, RESERVED2,
    SHARED_KERNEL_FLAGS, TABLE_FLAGS, USER, VALID, WRITABLE,
};

#[test]
fn flags_are_the_low_ten_bits() {
    assert_eq!(
        [VALID, READABLE, WRITABLE, EXECUTABLE, USER, GLOBAL, ACCESSED, DIRTY, RESERVED1, RESERVED2],
        [1, 2, 4, 8, 16, 32, 64, 128, 256, 512]
    );
}

#[test]
fn entry_reads_its_flags() {
    let e = PageEntry::from_bits(VALID | READABLE | DIRTY | USER);
    assert!(e.present());
    assert!(e.dirty());
    assert!(e.user());
    assert!(!e.accessed());
    assert!(!e.writable());
    assert!(!e.execute());
    assert!(!e.writable_shared());
    assert!(!e.readonly_shared());
    // Valid alone is not present.
    assert!(!PageEntry::from_bits(VALID).present());
    assert!(!PageEntry::from_bits(READABLE).present());
}

#[test]
fn setting_a_flag_leaves_the_rest() {
    let mut e = PageEntry::from_bits((0x1234 << 10) | VALID | READABLE | ACCESSED | DIRTY);
    e.set_writable(true);
    assert_eq!(e.as_bits(), (0x1234 << 10) | VALID | READABLE | WRITABLE | ACCESSED | DIRTY);
    e.clear_accessed();
    assert_eq!(e.as_bits(), (0x1234 << 10) | VALID | READABLE | WRITABLE | DIRTY);
    e.clear_dirty();
    e.clear_dirty();
    assert_eq!(e.as_bits(), (0x1234 << 10) | VALID | READABLE | WRITABLE);
    e.set_writable(false);
    e.set_user(true);
    e.set_execute(true);
    assert_eq!(e.as_bits(), (0x1234 << 10) | VALID | READABLE | USER | EXECUTABLE);
    e.set_user(false);
    e.set_execute(false);
    e.set_present(false);
    assert_eq!(e.as_bits(), 0x1234 << 10);
    e.set_present(true);
    assert_eq!(e.as_bits(), (0x1234 << 10) | VALID | READABLE);
}

#[test]
fn share_marks_exclude_each_other() {
    let mut e = PageEntry::from_bits(VALID | READABLE);
    e.set_shared(true);
    assert!(e.writable_shared());
    assert!(!e.readonly_shared());
    e.set_shared(false);
    assert!(!e.writable_shared());
    assert!(e.readonly_shared());
    assert_eq!(e.as_bits(), VALID | READABLE | RESERVED2);
    e.clear_shared();
    assert_eq!(e.as_bits(), VALID | READABLE);
}

#[test]
fn target_is_the_frame_address() {
    let mut e = PageEntry::from_bits(VALID | READABLE | WRITABLE);
    assert_eq!(e.target(), 0);
    e.set_target(0x8020_3abc);
    assert_eq!(e.target(), 0x8020_3000);
    assert_eq!(e.as_bits(), (0x80203 << 10) | VALID | READABLE | WRITABLE);
    e.set_target(0xffff_ffff);
    assert_eq!(e.target(), 0xffff_f000);
    e.set_target(0);
    assert_eq!(e.as_bits(), VALID | READABLE | WRITABLE);
}

#[test]
fn token_is_the_root_frame_with_paging_on() {
    let table = InactivePageTable0::new(0x80abc);
    assert_eq!(table.token(), 0x8008_0abc);
    assert_eq!(table.activate(0x80abd), Some(0x80abc));
    assert_eq!(table.activate(0x80abc), None);
    assert_eq!(table.with(0x80abd), (Some(0x80abc), Some(0x80abd)));
    assert_eq!(table.with(0x80abc), (None, None));
    assert_eq!(InactivePageTable0::new(0).token(), 0x8000_0000);
}

#[test]
fn recursive_window_addresses() {
    // With the recursive entry at 0x3fe, entries show from 0xff80_0000 on.
    assert_eq!(entry_address(0, 0x3fe), 0xff80_0000);
    assert_eq!(entry_address(0x1000, 0x3fe), 0xff80_0004);
    assert_eq!(entry_address(0x1fff, 0x3fe), 0xff80_0004);
    assert_eq!(entry_address(0x8000_0000, 0x3fe), 0xffa0_0000);
    assert_eq!(entry_address(0xffff_ffff, 0x3fe), 0xffbf_fffc);
    assert_eq!(entry_address(0x40_0000, 0), 0x1000);
    assert_eq!(root_table_address(0x3fe), 0xffbf_f000);
    assert_eq!(root_table_address(0), 0x1000);
}

#[test]
fn flag_sets() {
    assert_eq!(TABLE_FLAGS, VALID);
    assert_eq!(DATA_FLAGS, VALID | READABLE | WRITABLE | ACCESSED | DIRTY);
    assert_eq!(KERNEL_FLAGS, DATA_FLAGS | EXECUTABLE);
    assert_eq!(SHARED_KERNEL_FLAGS, VALID | GLOBAL | ACCESSED | DIRTY);
    assert_eq!(EDIT_FLAGS, VALID | ACCESSED | DIRTY);
    assert_eq!((RECURSIVE_INDEX, KERNEL_P2_INDEX, DEVICE_P2_INDEX), (0x3fe, 0x200, 0x180));
    assert_eq!(KERNEL_P2_INDEX << 22, 0x8000_0000);
    assert_eq!(DEVICE_P2_INDEX << 22, 0x6000_0000);
}

#[test]
fn entry_holds_frame_above_flags() {
    assert_eq!(make_entry(0, 0), 0);
    assert_eq!(make_entry(1, VALID), 0x401);
    assert_eq!(make_entry(0x80203, DATA_FLAGS), (0x80203 << 10) | 0xc7);
    assert_eq!(make_entry(0x3f_ffff, 0x3ff), u32::MAX);
    assert_eq!(data_entry(0x8020_3abc).as_bits(), (0x80203 << 10) | 0xc7);
    assert_eq!(data_entry(0x8020_3abc).target(), 0x8020_3000);
}

#[test]
fn first_root_table_maps_itself_devices_and_kernel() {
    let mut table = vec![0xffff_ffffu32; ENTRY_COUNT];
    setup_page_table(&mut table, 0x80123);
    for (i, &entry) in table.iter().enumerate() {
        let want = match i {
            0x3fe => (0x80123 << 10) | 0x01,
            0x180 => (0x60000 << 10) | 0xc7,
            0x200 => (0x80000 << 10) | 0xcf,
            0x201 => (0x80400 << 10) | 0xcf,
            _ => 0,
        };
        assert_eq!(entry, want, "entry {:#x}", i);
    }
}

#[test]
fn bare_root_table_maps_only_itself() {
    let mut table = vec![7u32; ENTRY_COUNT];
    new_bare(&mut table, 0x80456);
    for (i, &entry) in table.iter().enumerate() {
        let want = if i == RECURSIVE_INDEX { (0x80456 << 10) | 1 } else { 0 };
        assert_eq!(entry, want, "entry {:#x}", i);
    }
}

#[test]
fn table_helpers_touch_one_entry() {
    let mut table = vec![5u32; 8];
    set_recursive(&mut table, 6, 9);
    assert_eq!(table, vec![5, 5, 5, 5, 5, 5, (9 << 10) | 1, 5]);
    map_identity(&mut table, 3, DATA_FLAGS);
    assert_eq!(table[3], (3 << 20) | 0xc7);
    zero(&mut table);
    assert_eq!(table, vec![0; 8]);
    let mut none: Vec<u32> = Vec::new();
    zero(&mut none);
    assert!(none.is_empty());
}

#[test]
fn editing_swaps_the_recursive_entry_and_puts_it_back() {
    let mut root = vec![0u32; ENTRY_COUNT];
    setup_page_table(&mut root, 0x80123);
    let before = root.clone();
    let backup = begin_edit(&mut root, 0x80456);
    assert_eq!(backup, (0x80123 << 10) | 1);
    assert_eq!(root[RECURSIVE_INDEX], (0x80456 << 10) | 0xc1);
    assert_eq!(root[KERNEL_P2_INDEX], before[KERNEL_P2_INDEX]);
    end_edit(&mut root, backup);
    assert_eq!(root, before);
}

#[test]
fn kernel_is_mapped_into_a_new_table_as_global() {
    let mut root = vec![0u32; ENTRY_COUNT];
    setup_page_table(&mut root, 0x80123);
    let mut table = vec![0u32; ENTRY_COUNT];
    new_bare(&mut table, 0x80456);
    map_kernel(
        &mut table,
        root[DEVICE_P2_INDEX],
        root[KERNEL_P2_INDEX],
        root[KERNEL_P2_INDEX + 1],
    );
    assert_eq!(table[DEVICE_P2_INDEX], (0x60000 << 10) | 0xc7);
    assert_eq!(table[KERNEL_P2_INDEX], (0x80000 << 10) | 0xe1);
    assert_eq!(table[KERNEL_P2_INDEX + 1], (0x80400 << 10) | 0xe1);
    assert_eq!(table[RECURSIVE_INDEX], (0x80456 << 10) | 1);
    assert_eq!(table.iter().filter(|&&e| e != 0).count(), 4);
}
