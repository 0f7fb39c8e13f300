use bochscpu::cpu::{CpuStates, RunState};
use bochscpu::mem::{
    phy_mask, phy_read, phy_read_slice, phy_read_u64, phy_write, AfterFault, GuestMemory,
    Translation,
};

const PAGE: usize = 0x1000;

#[test]
fn phy_mask_drops_high_bits() {
    assert_eq!(phy_mask(0xfff0_0000_1234_5678), 0x0000_0000_1234_5678);
    assert_eq!(phy_mask(0x000f_ffff_ffff_ffff), 0x000f_ffff_ffff_ffff);
    assert_eq!(phy_mask(0x0010_0000_0000_0000), 0);
}

#[test]
fn insert_then_resolve_every_offset() {
    let mut mem = GuestMemory::new(4 * PAGE);
    mem.page_insert(0x7000, 2 * PAGE);
    for o in [0u64, 1, 0x345, 0xfff] {
        assert_eq!(mem.resolve_hva_checked(0x7000 + o), Some(2 * PAGE + o as usize));
        assert_eq!(mem.resolve_hva(0x7000 + o), 2 * PAGE + o as usize);
    }
    assert_eq!(mem.resolve_hva_checked(0x8000), None);
    assert_eq!(mem.resolve_hva_checked(0x6fff), None);
}

#[test]
fn insert_masks_the_key_to_its_page() {
    let mut mem = GuestMemory::new(2 * PAGE);
    mem.page_insert(0x5123, PAGE);
    assert_eq!(mem.lookup(0x5000), Some(PAGE));
    assert_eq!(mem.resolve_hva_checked(0x5010), Some(PAGE + 0x10));
}

#[test]
fn insert_replaces_the_earlier_mapping() {
    let mut mem = GuestMemory::new(3 * PAGE);
    mem.page_insert(0x5000, PAGE);
    mem.page_insert(0x5000, 2 * PAGE);
    assert_eq!(mem.resolve_hva_checked(0x5004), Some(2 * PAGE + 4));
}

#[test]
fn remove_then_resolve_is_none() {
    let mut mem = GuestMemory::new(2 * PAGE);
    mem.page_insert(0x3000, PAGE);
    mem.page_insert(0x4000, 0);
    mem.page_remove(0x3abc);
    assert_eq!(mem.resolve_hva_checked(0x3000), None);
    assert_eq!(mem.resolve_hva_checked(0x3fff), None);
    assert_eq!(mem.resolve_hva_checked(0x4001), Some(1));
}

#[test]
fn remove_of_unmapped_page_changes_nothing() {
    let mut mem = GuestMemory::new(PAGE);
    mem.page_insert(0x1000, 0);
    mem.page_remove(0x9000);
    assert_eq!(mem.resolve_hva_checked(0x1000), Some(0));
}

#[test]
fn new_memory_is_zeroed_and_unmapped() {
    let mem = GuestMemory::new(3 * PAGE);
    assert_eq!(mem.host_len(), 3 * PAGE);
    assert_eq!(mem.host_byte(2 * PAGE + 17), 0);
    assert_eq!(mem.lookup(0), None);
}

#[test]
fn physical_write_then_reads() {
    let mut mem = GuestMemory::new(2 * PAGE);
    mem.page_insert(0x9000, PAGE);
    phy_write(&mut mem, 0x9010, &[1, 2, 3, 4, 5, 6, 7, 8]);
    assert_eq!(mem.host_byte(PAGE + 0x10), 1);
    assert_eq!(mem.host_byte(PAGE + 0x17), 8);
    assert_eq!(phy_read_u64(&mem, 0x9010), 0x0807_0605_0403_0201);

    let mut buf = vec![0xaa];
    phy_read(&mem, 0x9012, &mut buf, 3);
    assert_eq!(buf, vec![0xaa, 3, 4, 5]);

    let mut slice = [0u8; 4];
    phy_read_slice(&mem, 0x9014, &mut slice);
    assert_eq!(slice, [5, 6, 7, 8]);
}

#[test]
fn physical_access_masks_high_bits() {
    let mut mem = GuestMemory::new(PAGE);
    mem.page_insert(0x2000, 0);
    phy_write(&mut mem, 0xfff0_0000_0000_2008, &[0x42]);
    assert_eq!(mem.host_byte(8), 0x42);
    assert_eq!(phy_read_u64(&mem, 0x0100_0000_0000_2008), 0x42);
}

#[test]
fn host_write_fills_the_arena() {
    let mut mem = GuestMemory::new(PAGE);
    mem.host_write(100, &[9, 8, 7]);
    assert_eq!(mem.host_byte(100), 9);
    assert_eq!(mem.host_byte(102), 7);
    assert_eq!(mem.host_byte(103), 0);
}

#[test]
fn translation_of_present_page_resolves() {
    let mut mem = GuestMemory::new(2 * PAGE);
    mem.page_insert(0x4000, PAGE);
    assert_eq!(mem.guest_phy_translate(0x4321), Translation::Resolved(PAGE + 0x321));
    assert_eq!(mem.phy_translate(0xff00_0000_0000_4321), Translation::Resolved(PAGE + 0x321));
}

#[test]
fn fault_path_resolves_after_handler_maps_page() {
    let mut mem = GuestMemory::new(2 * PAGE);
    let states = CpuStates::new();
    let gpa = 0xfff0_0000_0005_0123u64;
    let mut faults = Vec::new();
    let hva = match mem.guest_phy_translate(gpa) {
        Translation::Resolved(h) => h,
        Translation::Fault(masked) => {
            faults.push(masked);
            mem.page_insert(masked, PAGE);
            match mem.guest_phy_after_fault(&states, 0, gpa) {
                AfterFault::Resolved(h) => h,
                AfterFault::Bail => panic!("cancelled"),
            }
        }
    };
    assert_eq!(faults, vec![0x0000_0000_0005_0000]);
    assert_eq!(hva, PAGE + 0x123);
}

#[test]
fn fault_path_bails_when_handler_cancels() {
    let mut mem = GuestMemory::new(2 * PAGE);
    let mut states = CpuStates::new();
    let gpa = 0x6abcu64;
    match mem.guest_phy_translate(gpa) {
        Translation::Fault(masked) => {
            assert_eq!(masked, 0x6000);
            states.set_run_state(3, RunState::Stop);
            assert_eq!(mem.guest_phy_after_fault(&states, 3, gpa), AfterFault::Bail);
            mem.page_insert(masked, 0);
            assert_eq!(mem.guest_phy_after_fault(&states, 3, gpa), AfterFault::Bail);
        }
        Translation::Resolved(_) => panic!("page should be absent"),
    }
}

#[test]
fn emulator_translation_after_fault() {
    let mut mem = GuestMemory::new(2 * PAGE);
    assert_eq!(mem.phy_translate(0x8008), Translation::Fault(0x8000));
    mem.page_insert(0x8000, PAGE);
    assert_eq!(mem.phy_after_fault(0x8008), PAGE + 8);
}
