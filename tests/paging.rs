use bochscpu::mem::{phy_read, phy_write, GuestMemory};
use bochscpu::virt::{
    base_flags, chunked, pd_index, pdpt_index, pml4_index, pt_index, pte_flags, virt_read,
    virt_read_checked, virt_read_slice, virt_read_slice_checked, virt_read_u16, virt_read_u32,
    virt_read_u64, virt_read_u8, virt_translate, virt_translate_checked, virt_write,
    virt_missing, virt_write_checked, walk_missing, VirtMemError,
};

const PAGE: usize = 0x1000;
const CR3: u64 = 0x1000;
const PDPT: u64 = 0x2000;
const PD: u64 = 0x3000;
const PT: u64 = 0x4000;
const GVA: u64 = 0x0000_1000_2000_3000;

fn put(mem: &mut GuestMemory, gpa: u64, v: u64) {
    phy_write(mem, gpa, &v.to_le_bytes());
}

/// Page tables at 0x1000..0x5000 (host pages 0..4) mapping `GVA` to
/// 0xAAAA_B000 (host page 4).
fn four_level() -> GuestMemory {
    let mut mem = GuestMemory::new(8 * PAGE);
    mem.page_insert(CR3, 0);
    mem.page_insert(PDPT, PAGE);
    mem.page_insert(PD, 2 * PAGE);
    mem.page_insert(PT, 3 * PAGE);
    mem.page_insert(0xAAAA_B000, 4 * PAGE);
    put(&mut mem, CR3 + pml4_index(GVA) * 8, PDPT | 3);
    put(&mut mem, PDPT + pdpt_index(GVA) * 8, PD | 3);
    put(&mut mem, PD + pd_index(GVA) * 8, PT | 3);
    put(&mut mem, PT + pt_index(GVA) * 8, 0xAAAA_B000 | 3);
    mem
}

#[test]
fn indices_of_an_address() {
    assert_eq!(pml4_index(GVA), 32);
    assert_eq!(pdpt_index(GVA), 0);
    assert_eq!(pd_index(GVA), 256);
    assert_eq!(pt_index(GVA), 3);
    assert_eq!(pml4_index(0xffff_ffff_ffff_ffff), 0x1ff);
}

#[test]
fn entry_splitting() {
    assert_eq!(base_flags(0x8000_0000_1234_5fe3), (0x1234_5000, 0x1e3));
    assert_eq!(pte_flags(0xfff0_0000_1234_5fe3), (0x1234_5000, 0xfe3));
}

#[test]
fn four_level_round_trip() {
    let mem = four_level();
    assert_eq!(virt_translate_checked(&mem, CR3, GVA), Ok(0xAAAA_B000));
    assert_eq!(virt_translate_checked(&mem, CR3, GVA + 0x345), Ok(0xAAAA_B345));
    assert_eq!(virt_translate(&mem, CR3, GVA + 0xfff), 0xAAAA_BFFF);
}

#[test]
fn cr3_flag_bits_are_ignored() {
    let mem = four_level();
    assert_eq!(virt_translate_checked(&mem, CR3 | 0x18, GVA + 1), Ok(0xAAAA_B001));
}

#[test]
fn huge_page_needs_no_pd_or_pt() {
    let mut mem = GuestMemory::new(2 * PAGE);
    mem.page_insert(CR3, 0);
    mem.page_insert(PDPT, PAGE);
    put(&mut mem, CR3 + pml4_index(GVA) * 8, PDPT | 1);
    put(&mut mem, PDPT + pdpt_index(GVA) * 8, 0x1_4000_0000 | 0x81);
    for gva in [GVA, GVA + 0x1234, (GVA & !0x3fff_ffff) + 0x3fff_ffff] {
        assert_eq!(virt_translate_checked(&mem, CR3, gva), Ok(0x1_4000_0000 + (gva & 0x3fff_ffff)));
    }
}

#[test]
fn large_page_needs_no_pt() {
    let mut mem = GuestMemory::new(3 * PAGE);
    mem.page_insert(CR3, 0);
    mem.page_insert(PDPT, PAGE);
    mem.page_insert(PD, 2 * PAGE);
    put(&mut mem, CR3 + pml4_index(GVA) * 8, PDPT | 1);
    put(&mut mem, PDPT + pdpt_index(GVA) * 8, PD | 1);
    put(&mut mem, PD + pd_index(GVA) * 8, 0x60_0000 | 0x81);
    assert_eq!(virt_translate_checked(&mem, CR3, GVA + 0x1_0042), Ok(0x60_0000 + 0x1_3042));
}

#[test]
fn pml4e_not_present() {
    let mut mem = four_level();
    put(&mut mem, CR3 + pml4_index(GVA) * 8, PDPT);
    assert_eq!(virt_translate_checked(&mem, CR3, GVA), Err(VirtMemError::Pml4eNotPresent));
}

#[test]
fn empty_pml4_fails_everywhere() {
    let mut mem = GuestMemory::new(PAGE);
    mem.page_insert(CR3, 0);
    assert_eq!(virt_translate_checked(&mem, CR3, 0), Err(VirtMemError::Pml4eNotPresent));
    assert_eq!(virt_translate_checked(&mem, CR3, GVA), Err(VirtMemError::Pml4eNotPresent));
}

#[test]
fn pdpte_not_present() {
    let mut mem = four_level();
    put(&mut mem, PDPT + pdpt_index(GVA) * 8, 0);
    assert_eq!(virt_translate_checked(&mem, CR3, GVA), Err(VirtMemError::PdpteNotPresent));
}

#[test]
fn pde_not_present() {
    let mut mem = four_level();
    put(&mut mem, PD + pd_index(GVA) * 8, PT);
    assert_eq!(virt_translate_checked(&mem, CR3, GVA), Err(VirtMemError::PdeNotPresent));
}

#[test]
fn pte_not_present() {
    let mut mem = four_level();
    put(&mut mem, PT + pt_index(GVA) * 8, 0xAAAA_B000);
    assert_eq!(virt_translate_checked(&mem, CR3, GVA), Err(VirtMemError::PteNotPresent));
}

#[test]
fn chunks_split_at_page_boundaries() {
    assert_eq!(chunked(0x1ffd, 6), vec![(0x1ffd, 3), (0x2000, 3)]);
    assert_eq!(chunked(0x1000, 0x1000), vec![(0x1000, 0x1000)]);
    assert_eq!(chunked(0x1800, 0x2000), vec![(0x1800, 0x800), (0x2000, 0x1000), (0x3000, 0x800)]);
    assert_eq!(chunked(0x1234, 0), vec![]);
}

/// Two consecutive virtual pages at `GVA` and `GVA + 0x1000` backed by
/// host pages 4 and 6, which are not adjacent.
fn two_pages() -> GuestMemory {
    let mut mem = four_level();
    mem.page_insert(0xCCCC_C000, 6 * PAGE);
    put(&mut mem, PT + pt_index(GVA + 0x1000) * 8, 0xCCCC_C000 | 1);
    mem.host_write(4 * PAGE + 0xffd, &[1, 2, 3]);
    mem.host_write(6 * PAGE, &[4, 5, 6]);
    mem
}

#[test]
fn read_across_page_boundary_matches_two_reads() {
    let mem = two_pages();
    let start = GVA + 0x1000 - 3;
    let mut joined = Vec::new();
    virt_read(&mem, CR3, start, &mut joined, 6);

    let mut separate = Vec::new();
    phy_read(&mem, virt_translate(&mem, CR3, start), &mut separate, 3);
    phy_read(&mem, virt_translate(&mem, CR3, start + 3), &mut separate, 3);

    assert_eq!(joined, separate);
    assert_eq!(joined, vec![1, 2, 3, 4, 5, 6]);
}

#[test]
fn typed_reads_across_page_boundary() {
    let mem = two_pages();
    let start = GVA + 0x1000 - 3;
    assert_eq!(virt_read_u8(&mem, CR3, start), 1);
    assert_eq!(virt_read_u16(&mem, CR3, start + 2), 0x0403);
    assert_eq!(virt_read_u32(&mem, CR3, start + 1), 0x0504_0302);
    assert_eq!(virt_read_u64(&mem, CR3, start - 2), 0x0605_0403_0201_0000);
}

#[test]
fn slice_read_across_page_boundary() {
    let mem = two_pages();
    let mut buf = [0u8; 6];
    virt_read_slice(&mem, CR3, GVA + 0x1000 - 3, &mut buf);
    assert_eq!(buf, [1, 2, 3, 4, 5, 6]);
    let mut buf2 = [0u8; 6];
    assert_eq!(virt_read_slice_checked(&mem, CR3, GVA + 0x1000 - 3, &mut buf2), Ok(()));
    assert_eq!(buf2, buf);
}

#[test]
fn failed_read_leaves_buffer_unchanged() {
    let mem = four_level();
    let mut buf = vec![7, 7];
    let r = virt_read_checked(&mem, CR3, GVA + 0x1000 - 2, &mut buf, 4);
    assert_eq!(r, Err(VirtMemError::PteNotPresent));
    assert_eq!(buf, vec![7, 7]);
}

#[test]
fn checked_read_appends() {
    let mem = two_pages();
    let mut buf = vec![9];
    assert_eq!(virt_read_checked(&mem, CR3, GVA + 0xffe, &mut buf, 3), Ok(()));
    assert_eq!(buf, vec![9, 2, 3, 4]);
}

#[test]
fn write_across_page_boundary() {
    let mut mem = two_pages();
    virt_write(&mut mem, CR3, GVA + 0xffe, &[0x10, 0x20, 0x30, 0x40]);
    assert_eq!(mem.host_byte(4 * PAGE + 0xffe), 0x10);
    assert_eq!(mem.host_byte(4 * PAGE + 0xfff), 0x20);
    assert_eq!(mem.host_byte(6 * PAGE), 0x30);
    assert_eq!(mem.host_byte(6 * PAGE + 1), 0x40);
}

#[test]
fn failed_write_stops_at_the_first_bad_page() {
    let mut mem = four_level();
    let r = virt_write_checked(&mut mem, CR3, GVA + 0xffe, &[0x10, 0x20, 0x30]);
    assert_eq!(r, Err(VirtMemError::PteNotPresent));
    assert_eq!(mem.host_byte(4 * PAGE + 0xffe), 0x10);
    assert_eq!(mem.host_byte(4 * PAGE + 0xfff), 0x20);
}

#[test]
fn walk_missing_names_the_first_absent_table_page() {
    let mut mem = four_level();
    assert_eq!(walk_missing(&mem, CR3, GVA), None);
    mem.page_remove(PD);
    assert_eq!(walk_missing(&mem, CR3, GVA + 0x10), Some(PD));
    mem.page_remove(CR3);
    assert_eq!(walk_missing(&mem, CR3, GVA), Some(CR3));
    mem.page_insert(CR3, 0);
    mem.page_insert(PD, 2 * PAGE);
    mem.page_remove(PT);
    assert_eq!(walk_missing(&mem, CR3, GVA), Some(PT));
}

#[test]
fn walk_missing_stops_at_a_non_present_entry() {
    let mut mem = four_level();
    put(&mut mem, PDPT + pdpt_index(GVA) * 8, PD);
    mem.page_remove(PD);
    assert_eq!(walk_missing(&mem, CR3, GVA), None);
    assert_eq!(virt_translate_checked(&mem, CR3, GVA), Err(VirtMemError::PdpteNotPresent));
}

#[test]
fn virt_missing_names_table_pages_then_frames() {
    let mut mem = two_pages();
    let start = GVA + 0x1000 - 3;
    assert_eq!(virt_missing(&mem, CR3, start, 6), None);
    mem.page_remove(0xCCCC_C000);
    assert_eq!(virt_missing(&mem, CR3, start, 6), Some(0xCCCC_C000));
    assert_eq!(virt_missing(&mem, CR3, start, 3), None);
    mem.page_remove(PT);
    assert_eq!(virt_missing(&mem, CR3, start, 6), Some(PT));
}

#[test]
fn virt_missing_ignores_pages_after_a_failure() {
    let mem = four_level();
    assert_eq!(virt_missing(&mem, CR3, GVA + 0xffe, 0x1010), None);
}
