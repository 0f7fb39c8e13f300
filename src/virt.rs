//! x86-64 four-level page-table walk and page-chunked virtual reads and
//! writes.
//!
//! The walk reads each level's entry from guest physical memory, fails with
//! the level whose present bit (bit 0) is clear, and stops early on a 1 GiB
//! PDPT entry or a 2 MiB PD entry (bit 7). No other paging attribute is
//! checked.

use vstd::prelude::*;

use crate::bytes::{le_u16, le_u32, le_u64, u16_from_le, u32_from_le, u64_from_le};
use crate::mem::{
    lemma_page_base_idempotent, lemma_page_join, lemma_page_split, page_base, offset_in_page, phy_mask, phy_read_at,
    phy_read_u64, phy_write, spec_phy_mask, GuestMemory, MemView, PAGE_MASK,
};
use crate::{Address, PhyAddress};

verus! {

/// Which paging-structure entry was not present.
#[derive(Copy, Clone, Debug, Eq, PartialEq, Hash, Structural)]
pub enum VirtMemError {
    Pml4eNotPresent,
    PdpteNotPresent,
    PdeNotPresent,
    PteNotPresent,
}

/// Physical-address bits of a paging entry that point at a 4 KiB frame.
pub const FRAME_MASK: u64 = 0x000f_ffff_ffff_f000;

pub const HUGE_BASE_MASK: u64 = 0xffff_ffff_c000_0000;

pub const HUGE_OFFSET_MASK: u64 = 0x3fff_ffff;

pub const LARGE_BASE_MASK: u64 = 0xffff_ffff_ffe0_0000;

pub const LARGE_OFFSET_MASK: u64 = 0x1f_ffff;

pub open spec fn spec_pml4_index(gva: u64) -> u64 {
    (gva >> 39u64) & 0x1ffu64
}

pub open spec fn spec_pdpt_index(gva: u64) -> u64 {
    (gva >> 30u64) & 0x1ffu64
}

pub open spec fn spec_pd_index(gva: u64) -> u64 {
    (gva >> 21u64) & 0x1ffu64
}

pub open spec fn spec_pt_index(gva: u64) -> u64 {
    (gva >> 12u64) & 0x1ffu64
}

/// Base address of the structure or frame that an entry points at.
pub open spec fn entry_base(e: u64) -> u64 {
    spec_phy_mask(e) & PAGE_MASK
}

pub open spec fn present(e: u64) -> bool {
    e & 1u64 != 0
}

pub open spec fn page_size_bit(e: u64) -> bool {
    e & 0x80u64 != 0
}

/// Address of entry `idx` of the table that `e` points at.
pub open spec fn entry_addr(e: u64, idx: u64) -> u64 {
    (entry_base(e) + idx * 8) as u64
}

/// The paging entry stored at guest physical address `a`.
pub open spec fn entry(mem: MemView, a: u64) -> u64 {
    le_u64(mem.phy_bytes(a, 8), 0)
}

pub open spec fn pml4e(mem: MemView, cr3: u64, gva: u64) -> u64 {
    entry(mem, entry_addr(cr3, spec_pml4_index(gva)))
}

pub open spec fn pdpte(mem: MemView, cr3: u64, gva: u64) -> u64 {
    entry(mem, entry_addr(pml4e(mem, cr3, gva), spec_pdpt_index(gva)))
}

pub open spec fn pde(mem: MemView, cr3: u64, gva: u64) -> u64 {
    entry(mem, entry_addr(pdpte(mem, cr3, gva), spec_pd_index(gva)))
}

pub open spec fn pte(mem: MemView, cr3: u64, gva: u64) -> u64 {
    entry(mem, entry_addr(pde(mem, cr3, gva), spec_pt_index(gva)))
}

/// Every entry that the walk of `gva` reads lies in a mapped page.
pub open spec fn walk_ok(mem: MemView, cr3: u64, gva: u64) -> bool {
    &&& mem.mapped(entry_addr(cr3, spec_pml4_index(gva)))
    &&& present(pml4e(mem, cr3, gva)) ==> {
        &&& mem.mapped(entry_addr(pml4e(mem, cr3, gva), spec_pdpt_index(gva)))
        &&& present(pdpte(mem, cr3, gva)) && !page_size_bit(pdpte(mem, cr3, gva)) ==> {
            &&& mem.mapped(entry_addr(pdpte(mem, cr3, gva), spec_pd_index(gva)))
            &&& present(pde(mem, cr3, gva)) && !page_size_bit(pde(mem, cr3, gva)) ==> mem.mapped(
                entry_addr(pde(mem, cr3, gva), spec_pt_index(gva)),
            )
        }
    }
}

/// The guest physical address that `gva` translates to under `cr3`, or the
/// level whose entry is not present.
pub open spec fn translate_spec(mem: MemView, cr3: u64, gva: u64) -> Result<u64, VirtMemError> {
    let l4 = pml4e(mem, cr3, gva);
    let l3 = pdpte(mem, cr3, gva);
    let l2 = pde(mem, cr3, gva);
    let l1 = pte(mem, cr3, gva);
    if !present(l4) {
        Err(VirtMemError::Pml4eNotPresent)
    } else if !present(l3) {
        Err(VirtMemError::PdpteNotPresent)
    } else if page_size_bit(l3) {
        Ok(((entry_base(l3) & HUGE_BASE_MASK) + (gva & HUGE_OFFSET_MASK)) as u64)
    } else if !present(l2) {
        Err(VirtMemError::PdeNotPresent)
    } else if page_size_bit(l2) {
        Ok(((entry_base(l2) & LARGE_BASE_MASK) + (gva & LARGE_OFFSET_MASK)) as u64)
    } else if !present(l1) {
        Err(VirtMemError::PteNotPresent)
    } else {
        Ok((entry_base(l1) + offset_in_page(gva)) as u64)
    }
}

/// The walk of `gva` can run, and if it succeeds its frame is mapped.
pub open spec fn virt_ready(mem: MemView, cr3: u64, gva: u64) -> bool {
    &&& walk_ok(mem, cr3, gva)
    &&& translate_spec(mem, cr3, gva) is Ok ==> mem.mapped(translate_spec(mem, cr3, gva)->Ok_0)
}

/// Every address of `[gva, gva + i)` translates.
pub open spec fn all_ok_before(mem: MemView, cr3: u64, gva: u64, i: int) -> bool {
    forall|j: int| 0 <= j < i ==> #[trigger] translate_spec(mem, cr3, (gva + j) as u64) is Ok
}

/// Each address of `[gva, gva + n)` that the access reaches, the walk having
/// succeeded before it, can be walked and is backed.
pub open spec fn virt_readable(mem: MemView, cr3: u64, gva: u64, n: int) -> bool {
    forall|i: int|
        0 <= i < n && all_ok_before(mem, cr3, gva, i) ==> #[trigger] virt_ready(
            mem,
            cr3,
            (gva + i) as u64,
        )
}

/// The guest byte seen at virtual address `gva`.
pub open spec fn virt_byte(mem: MemView, cr3: u64, gva: u64) -> u8 {
    mem.host[mem.host_addr(translate_spec(mem, cr3, gva)->Ok_0)]
}

/// Length of the piece of `[base, base + remaining)` that stays in the
/// page of `base`.
pub open spec fn chunk_len(base: u64, remaining: nat) -> nat {
    if offset_in_page(base) + remaining > 4096 {
        (4096 - offset_in_page(base)) as nat
    } else {
        remaining
    }
}

/// `[start, start + sz)` cut at page boundaries, as (start, length) pairs.
pub open spec fn chunks_spec(start: u64, sz: nat) -> Seq<(u64, usize)>
    decreases sz,
{
    if sz == 0 {
        seq![]
    } else {
        let c = chunk_len(start, sz);
        if c == 0 || c > sz {
            seq![]
        } else {
            seq![(start, c as usize)] + chunks_spec((start + c) as u64, (sz - c) as nat)
        }
    }
}

proof fn lemma_chunk_len(base: u64, remaining: nat)
    requires
        remaining > 0,
    ensures
        0 < chunk_len(base, remaining) <= remaining,
        offset_in_page(base) + chunk_len(base, remaining) <= 4096,
{
    lemma_page_split(base);
}

/// Indices, offsets and the resulting frame address of an address and of a
/// later address in the same 4 KiB page.
proof fn lemma_same_page_bits(a: u64, k: u64)
    requires
        (a & 0xfffu64) + k < 4096,
    ensures
        a + k <= u64::MAX,
        spec_pml4_index((a + k) as u64) == spec_pml4_index(a),
        spec_pdpt_index((a + k) as u64) == spec_pdpt_index(a),
        spec_pd_index((a + k) as u64) == spec_pd_index(a),
        spec_pt_index((a + k) as u64) == spec_pt_index(a),
        offset_in_page((a + k) as u64) == offset_in_page(a) + k,
        ((a + k) as u64) & HUGE_OFFSET_MASK == (a & HUGE_OFFSET_MASK) + k,
        ((a + k) as u64) & LARGE_OFFSET_MASK == (a & LARGE_OFFSET_MASK) + k,
{
    assert((a & 0xfffu64) + k < 4096 ==> a <= 0xffff_ffff_ffff_ffffu64 - k) by (bit_vector);
    assert((a & 0xfffu64) + k < 4096 ==> ((((a + k) as u64) >> 39u64) & 0x1ffu64 == (a >> 39u64)
        & 0x1ffu64 && (((a + k) as u64) >> 30u64) & 0x1ffu64 == (a >> 30u64) & 0x1ffu64 && (((a
        + k) as u64) >> 21u64) & 0x1ffu64 == (a >> 21u64) & 0x1ffu64 && (((a + k) as u64)
        >> 12u64) & 0x1ffu64 == (a >> 12u64) & 0x1ffu64)) by (bit_vector);
    assert((a & 0xfffu64) + k < 4096 ==> (((a + k) as u64) & 0xfffu64 == (a & 0xfffu64) + k
        && ((a + k) as u64) & 0x3fff_ffffu64 == (a & 0x3fff_ffffu64) + k && ((a + k) as u64)
        & 0x1f_ffffu64 == (a & 0x1f_ffffu64) + k)) by (bit_vector);
}

/// Entry addresses stay below the physical limit and inside their table's
/// page, with room for the whole entry.
proof fn lemma_entry_addr(e: u64, idx: u64)
    requires
        idx < 512,
    ensures
        entry_base(e) + idx * 8 <= 0x000f_ffff_ffff_ffff,
        spec_phy_mask(entry_addr(e, idx)) == entry_addr(e, idx),
        offset_in_page(entry_addr(e, idx)) + 8 <= 4096,
{
    assert(idx < 512 ==> ((e & 0x000f_ffff_ffff_ffffu64) & 0xffff_ffff_ffff_f000u64) + idx * 8
        <= 0x000f_ffff_ffff_ffffu64) by (bit_vector);
    let a = entry_addr(e, idx);
    assert(idx < 512 && a == (((e & 0x000f_ffff_ffff_ffffu64) & 0xffff_ffff_ffff_f000u64) + idx
        * 8) as u64 ==> a & 0x000f_ffff_ffff_ffffu64 == a && (a & 0xfffu64) + 8 <= 4096)
        by (bit_vector);
}

proof fn lemma_indices(gva: u64)
    ensures
        spec_pml4_index(gva) < 512,
        spec_pdpt_index(gva) < 512,
        spec_pd_index(gva) < 512,
        spec_pt_index(gva) < 512,
{
    assert((gva >> 39u64) & 0x1ffu64 < 512 && (gva >> 30u64) & 0x1ffu64 < 512 && (gva >> 21u64)
        & 0x1ffu64 < 512 && (gva >> 12u64) & 0x1ffu64 < 512) by (bit_vector);
}

/// A successful translation lands below the physical limit, at the same
/// in-page offset as the virtual address.
proof fn lemma_translate_result(mem: MemView, cr3: u64, gva: u64)
    requires
        translate_spec(mem, cr3, gva) is Ok,
    ensures
        spec_phy_mask(translate_spec(mem, cr3, gva)->Ok_0) == translate_spec(mem, cr3, gva)->Ok_0,
        offset_in_page(translate_spec(mem, cr3, gva)->Ok_0) == offset_in_page(gva),
{
    let l3 = pdpte(mem, cr3, gva);
    let l2 = pde(mem, cr3, gva);
    let l1 = pte(mem, cr3, gva);
    assert(((((l3 & 0x000f_ffff_ffff_ffffu64) & 0xffff_ffff_ffff_f000u64)
        & 0xffff_ffff_c000_0000u64) + (gva & 0x3fff_ffffu64)) as u64 & 0x000f_ffff_ffff_ffffu64
        == ((((l3 & 0x000f_ffff_ffff_ffffu64) & 0xffff_ffff_ffff_f000u64)
        & 0xffff_ffff_c000_0000u64) + (gva & 0x3fff_ffffu64)) as u64 && ((((l3
        & 0x000f_ffff_ffff_ffffu64) & 0xffff_ffff_ffff_f000u64) & 0xffff_ffff_c000_0000u64) + (gva
        & 0x3fff_ffffu64)) as u64 & 0xfffu64 == gva & 0xfffu64) by (bit_vector);
    assert(((((l2 & 0x000f_ffff_ffff_ffffu64) & 0xffff_ffff_ffff_f000u64)
        & 0xffff_ffff_ffe0_0000u64) + (gva & 0x1f_ffffu64)) as u64 & 0x000f_ffff_ffff_ffffu64
        == ((((l2 & 0x000f_ffff_ffff_ffffu64) & 0xffff_ffff_ffff_f000u64)
        & 0xffff_ffff_ffe0_0000u64) + (gva & 0x1f_ffffu64)) as u64 && ((((l2
        & 0x000f_ffff_ffff_ffffu64) & 0xffff_ffff_ffff_f000u64) & 0xffff_ffff_ffe0_0000u64) + (gva
        & 0x1f_ffffu64)) as u64 & 0xfffu64 == gva & 0xfffu64) by (bit_vector);
    assert((((l1 & 0x000f_ffff_ffff_ffffu64) & 0xffff_ffff_ffff_f000u64) + (gva & 0xfffu64)) as u64
        & 0x000f_ffff_ffff_ffffu64 == (((l1 & 0x000f_ffff_ffff_ffffu64)
        & 0xffff_ffff_ffff_f000u64) + (gva & 0xfffu64)) as u64 && (((l1 & 0x000f_ffff_ffff_ffffu64)
        & 0xffff_ffff_ffff_f000u64) + (gva & 0xfffu64)) as u64 & 0xfffu64 == gva & 0xfffu64)
        by (bit_vector);
}

/// The frame parts of the three kinds of successful result stay far below
/// the top of the address space.
proof fn lemma_frame_bounds(e: u64, g: u64)
    ensures
        entry_base(e) <= FRAME_MASK,
        entry_base(e) & HUGE_BASE_MASK <= FRAME_MASK,
        entry_base(e) & LARGE_BASE_MASK <= FRAME_MASK,
        g & HUGE_OFFSET_MASK <= HUGE_OFFSET_MASK,
        g & LARGE_OFFSET_MASK <= LARGE_OFFSET_MASK,
        offset_in_page(g) < 4096,
{
    assert((e & 0x000f_ffff_ffff_ffffu64) & 0xffff_ffff_ffff_f000u64 <= 0x000f_ffff_ffff_f000u64
        && ((e & 0x000f_ffff_ffff_ffffu64) & 0xffff_ffff_ffff_f000u64) & 0xffff_ffff_c000_0000u64
        <= 0x000f_ffff_ffff_f000u64 && ((e & 0x000f_ffff_ffff_ffffu64) & 0xffff_ffff_ffff_f000u64)
        & 0xffff_ffff_ffe0_0000u64 <= 0x000f_ffff_ffff_f000u64 && g & 0x3fff_ffffu64
        <= 0x3fff_ffffu64 && g & 0x1f_ffffu64 <= 0x1f_ffffu64 && g & 0xfffu64 < 4096)
        by (bit_vector);
}

/// Two addresses in one 4 KiB page walk the same entries: the same outcome,
/// and on success frames that differ by the distance between the addresses.
pub proof fn lemma_translate_same_page(mem: MemView, cr3: u64, a: u64, k: u64)
    requires
        offset_in_page(a) + k < 4096,
    ensures
        a + k <= u64::MAX,
        walk_ok(mem, cr3, (a + k) as u64) == walk_ok(mem, cr3, a),
        virt_ready(mem, cr3, (a + k) as u64) == virt_ready(mem, cr3, a),
        translate_spec(mem, cr3, (a + k) as u64) is Ok == translate_spec(mem, cr3, a) is Ok,
        translate_spec(mem, cr3, a) is Err ==> translate_spec(mem, cr3, (a + k) as u64)
            == translate_spec(mem, cr3, a),
        translate_spec(mem, cr3, a) is Ok ==> translate_spec(mem, cr3, (a + k) as u64)->Ok_0
            == translate_spec(mem, cr3, a)->Ok_0 + k,
{
    lemma_same_page_bits(a, k);
    let b = (a + k) as u64;
    assert(pml4e(mem, cr3, b) == pml4e(mem, cr3, a));
    assert(pdpte(mem, cr3, b) == pdpte(mem, cr3, a));
    assert(pde(mem, cr3, b) == pde(mem, cr3, a));
    assert(pte(mem, cr3, b) == pte(mem, cr3, a));
    lemma_frame_bounds(pdpte(mem, cr3, a), a);
    lemma_frame_bounds(pde(mem, cr3, a), a);
    lemma_frame_bounds(pte(mem, cr3, a), a);
    if translate_spec(mem, cr3, a) is Ok {
        lemma_translate_result(mem, cr3, a);
        lemma_translate_result(mem, cr3, b);
        let ta = translate_spec(mem, cr3, a)->Ok_0;
        let tb = translate_spec(mem, cr3, b)->Ok_0;
        assert(tb == ta + k);
        lemma_page_split(ta);
        lemma_page_split(tb);
        assert(page_base(tb) == page_base(ta));
    }
}

/// Cuts `[start, start + sz)` at page boundaries.
pub fn chunked(start: Address, sz: usize) -> (r: Vec<(Address, usize)>)
    requires
        start + sz <= u64::MAX,
    ensures
        r@ == chunks_spec(start, sz as nat),
        r@.len() == 0 <==> sz == 0,
        r@.len() > 0 ==> r@[0].0 == start && r@.last().0 + r@.last().1 == start + sz,
        forall|k: int|
            0 <= k < r@.len() ==> #[trigger] r@[k].1 > 0 && offset_in_page(r@[k].0) + r@[k].1
                <= 4096,
        forall|k: int| 0 < k < r@.len() ==> offset_in_page(#[trigger] r@[k].0) == 0,
        forall|k: int| 0 <= k < r@.len() - 1 ==> #[trigger] r@[k + 1].0 == r@[k].0 + r@[k].1,
{
    let mut out: Vec<(Address, usize)> = Vec::new();
    let mut remaining: usize = sz;
    let mut base: Address = start;
    while remaining > 0
        invariant
            base + remaining <= u64::MAX,
            base + remaining == start + sz,
            out@ + chunks_spec(base, remaining as nat) == chunks_spec(start, sz as nat),
            out@.len() == 0 ==> base == start,
            out@.len() > 0 ==> out@[0].0 == start && out@.last().0 + out@.last().1 == base,
            out@.len() > 0 && remaining > 0 ==> offset_in_page(base) == 0,
            forall|k: int|
                0 <= k < out@.len() ==> #[trigger] out@[k].1 > 0 && offset_in_page(out@[k].0)
                    + out@[k].1 <= 4096,
            forall|k: int| 0 < k < out@.len() ==> offset_in_page(#[trigger] out@[k].0) == 0,
            forall|k: int| 0 <= k < out@.len() - 1 ==> #[trigger] out@[k + 1].0 == out@[k].0 + out@[k].1,
        decreases remaining,
    {
        proof {
            lemma_chunk_len(base, remaining as nat);
            lemma_page_split(base);
        }
        let off = (base & 0xfff) as usize;
        let chunk_sz: usize = if remaining > 0x1000 - off {
            0x1000 - off
        } else {
            remaining
        };
        assert(chunk_sz == chunk_len(base, remaining as nat));
        proof {
            assert(chunks_spec(base, remaining as nat) == seq![(base, chunk_sz)] + chunks_spec(
                (base + chunk_sz) as u64,
                (remaining - chunk_sz) as nat,
            ));
            assert(out@.push((base, chunk_sz)) + chunks_spec(
                (base + chunk_sz) as u64,
                (remaining - chunk_sz) as nat,
            ) =~= out@ + chunks_spec(base, remaining as nat));
            if chunk_sz < remaining {
                lemma_next_page(base, chunk_sz as u64);
            }
        }
        let ghost old_out = out@;
        out.push((base, chunk_sz));
        proof {
            assert forall|k: int| 0 <= k < out@.len() - 1 implies #[trigger] out@[k + 1].0 == out@[k].0
                + out@[k].1 by {
                if k + 1 < old_out.len() {
                    assert(out@[k] == old_out[k] && out@[k + 1] == old_out[k + 1]);
                }
            }
        }
        base = base + chunk_sz as u64;
        remaining = remaining - chunk_sz;
    }
    assert(out@ =~= out@ + chunks_spec(base, 0));
    out
}

/// The end of a piece that fills the rest of its page starts a page.
proof fn lemma_next_page(b: u64, c: u64)
    requires
        offset_in_page(b) + c == 4096,
        b + c <= u64::MAX,
    ensures
        offset_in_page((b + c) as u64) == 0,
{
    assert((b & 0xfffu64) + c == 4096 && b + c <= 0xffff_ffff_ffff_ffffu64 ==> ((b + c) as u64)
        & 0xfffu64 == 0) by (bit_vector);
}

pub fn pml4_index(gva: Address) -> (r: u64)
    ensures
        r == spec_pml4_index(gva),
{
    gva >> (12 + (9 * 3)) & 0x1ff
}

pub fn pdpt_index(gva: Address) -> (r: u64)
    ensures
        r == spec_pdpt_index(gva),
{
    gva >> (12 + (9 * 2)) & 0x1ff
}

pub fn pd_index(gva: Address) -> (r: u64)
    ensures
        r == spec_pd_index(gva),
{
    gva >> (12 + (9 * 1)) & 0x1ff
}

pub fn pt_index(gva: Address) -> (r: u64)
    ensures
        r == spec_pt_index(gva),
{
    gva >> (12 + (9 * 0)) & 0x1ff
}

/// Splits a paging entry (or CR3) into the base it points at and its low
/// flag bits.
pub fn base_flags(e: Address) -> (r: (Address, u64))
    ensures
        r.0 == entry_base(e),
        r.1 == e & 0x1ffu64,
        present(e) == (r.1 & 1u64 != 0),
        page_size_bit(e) == (r.1 & 0x80u64 != 0),
{
    assert((e & 0x1ffu64) & 1u64 == e & 1u64 && (e & 0x1ffu64) & 0x80u64 == e & 0x80u64)
        by (bit_vector);
    (phy_mask(e) & PAGE_MASK, e & 0x1ff)
}

/// Splits a page-table entry into its frame address and its flag bits.
pub fn pte_flags(e: Address) -> (r: (PhyAddress, u64))
    ensures
        r.0 == entry_base(e),
        r.1 == e & 0xfffu64,
        present(e) == (r.1 & 1u64 != 0),
{
    assert((e & 0xfffu64) & 1u64 == e & 1u64) by (bit_vector);
    (phy_mask(e) & PAGE_MASK, e & 0xfff)
}

pub fn page_offset(gva: Address) -> (r: u64)
    ensures
        r == offset_in_page(gva),
        r < 4096,
{
    proof {
        lemma_page_split(gva);
    }
    gva & 0xfff
}

/// Reads the paging entry `idx` of the table at `base`.
fn read_entry(mem: &GuestMemory, e: u64, idx: u64) -> (r: u64)
    requires
        mem@.wf(),
        idx < 512,
        mem@.mapped(entry_addr(e, idx)),
    ensures
        r == entry(mem@, entry_addr(e, idx)),
{
    proof {
        lemma_entry_addr(e, idx);
    }
    let (base, _) = base_flags(e);
    phy_read_u64(mem, base + idx * 8)
}

/// The page of the first paging entry that the walk of `gva` reads and
/// that is not mapped; `None` when every entry the walk reads is mapped.
pub open spec fn walk_missing_spec(mem: MemView, cr3: u64, gva: u64) -> Option<u64> {
    let a4 = entry_addr(cr3, spec_pml4_index(gva));
    let a3 = entry_addr(pml4e(mem, cr3, gva), spec_pdpt_index(gva));
    let a2 = entry_addr(pdpte(mem, cr3, gva), spec_pd_index(gva));
    let a1 = entry_addr(pde(mem, cr3, gva), spec_pt_index(gva));
    if !mem.mapped(a4) {
        Some(page_base(a4))
    } else if !present(pml4e(mem, cr3, gva)) {
        None
    } else if !mem.mapped(a3) {
        Some(page_base(a3))
    } else if !present(pdpte(mem, cr3, gva)) || page_size_bit(pdpte(mem, cr3, gva)) {
        None
    } else if !mem.mapped(a2) {
        Some(page_base(a2))
    } else if !present(pde(mem, cr3, gva)) || page_size_bit(pde(mem, cr3, gva)) {
        None
    } else if !mem.mapped(a1) {
        Some(page_base(a1))
    } else {
        None
    }
}

/// Whether the page holding `a` is mapped.
fn is_mapped(mem: &GuestMemory, a: u64) -> (r: bool)
    ensures
        r == mem@.mapped(a),
{
    mem.lookup(a).is_some()
}

/// Finds the first page-table page that the walk of `gva` needs and that
/// is not mapped yet, so that the fault handler can provide it before the
/// walk runs.
pub fn walk_missing(mem: &GuestMemory, cr3: PhyAddress, gva: Address) -> (r: Option<PhyAddress>)
    requires
        mem@.wf(),
    ensures
        r == walk_missing_spec(mem@, cr3, gva),
        r is None <==> walk_ok(mem@, cr3, gva),
        r matches Some(p) ==> !mem@.mapped(p) && p % 4096 == 0,
{
    proof {
        lemma_indices(gva);
        lemma_page_split(entry_addr(cr3, spec_pml4_index(gva)));
        lemma_page_split(entry_addr(pml4e(mem@, cr3, gva), spec_pdpt_index(gva)));
        lemma_page_split(entry_addr(pdpte(mem@, cr3, gva), spec_pd_index(gva)));
        lemma_page_split(entry_addr(pde(mem@, cr3, gva), spec_pt_index(gva)));
        lemma_entry_addr(cr3, spec_pml4_index(gva));
        lemma_entry_addr(pml4e(mem@, cr3, gva), spec_pdpt_index(gva));
        lemma_entry_addr(pdpte(mem@, cr3, gva), spec_pd_index(gva));
        lemma_entry_addr(pde(mem@, cr3, gva), spec_pt_index(gva));
        lemma_page_base_idempotent(entry_addr(cr3, spec_pml4_index(gva)));
        lemma_page_base_idempotent(entry_addr(pml4e(mem@, cr3, gva), spec_pdpt_index(gva)));
        lemma_page_base_idempotent(entry_addr(pdpte(mem@, cr3, gva), spec_pd_index(gva)));
        lemma_page_base_idempotent(entry_addr(pde(mem@, cr3, gva), spec_pt_index(gva)));
    }
    let (b4, _) = base_flags(cr3);
    let a4 = b4 + pml4_index(gva) * 8;
    if !is_mapped(mem, a4) {
        return Some(a4 & PAGE_MASK);
    }
    let pml4e = read_entry(mem, cr3, pml4_index(gva));
    let (b3, f4) = base_flags(pml4e);
    if f4 & 1 == 0 {
        return None;
    }
    let a3 = b3 + pdpt_index(gva) * 8;
    if !is_mapped(mem, a3) {
        return Some(a3 & PAGE_MASK);
    }
    let pdpte = read_entry(mem, pml4e, pdpt_index(gva));
    let (b2, f3) = base_flags(pdpte);
    if f3 & 1 == 0 || f3 & 0x80 != 0 {
        return None;
    }
    let a2 = b2 + pd_index(gva) * 8;
    if !is_mapped(mem, a2) {
        return Some(a2 & PAGE_MASK);
    }
    let pde = read_entry(mem, pdpte, pd_index(gva));
    let (b1, f2) = base_flags(pde);
    if f2 & 1 == 0 || f2 & 0x80 != 0 {
        return None;
    }
    let a1 = b1 + pt_index(gva) * 8;
    if !is_mapped(mem, a1) {
        return Some(a1 & PAGE_MASK);
    }
    None
}

/// Walks the page tables rooted at `cr3` for `gva`.
pub fn virt_translate_checked(mem: &GuestMemory, cr3: PhyAddress, gva: Address) -> (r: Result<
    PhyAddress,
    VirtMemError,
>)
    requires
        mem@.wf(),
        walk_ok(mem@, cr3, gva),
    ensures
        r == translate_spec(mem@, cr3, gva),
{
    proof {
        lemma_indices(gva);
    }
    let pml4e = read_entry(mem, cr3, pml4_index(gva));
    let (pdpt_base, pml4e_flags) = base_flags(pml4e);
    if pml4e_flags & 1 == 0 {
        return Err(VirtMemError::Pml4eNotPresent);
    }
    let pdpte = read_entry(mem, pml4e, pdpt_index(gva));
    let (pd_base, pdpte_flags) = base_flags(pdpte);
    if pdpte_flags & 1 == 0 {
        return Err(VirtMemError::PdpteNotPresent);
    }
    if pdpte_flags & 0x80 != 0 {
        proof {
            lemma_frame_bounds(pdpte, gva);
        }
        return Ok((pd_base & HUGE_BASE_MASK) + (gva & HUGE_OFFSET_MASK));
    }
    let pde = read_entry(mem, pdpte, pd_index(gva));
    let (pt_base, pde_flags) = base_flags(pde);
    if pde_flags & 1 == 0 {
        return Err(VirtMemError::PdeNotPresent);
    }
    if pde_flags & 0x80 != 0 {
        proof {
            lemma_frame_bounds(pde, gva);
        }
        return Ok((pt_base & LARGE_BASE_MASK) + (gva & LARGE_OFFSET_MASK));
    }
    let pte = read_entry(mem, pde, pt_index(gva));
    let (pte_paddr, pte_flags) = pte_flags(pte);
    if pte_flags & 1 == 0 {
        return Err(VirtMemError::PteNotPresent);
    }
    proof {
        lemma_frame_bounds(pte, gva);
    }
    Ok(pte_paddr + page_offset(gva))
}

/// The `n` guest bytes seen from `gva` on.
pub open spec fn virt_bytes(mem: MemView, cr3: u64, gva: u64, n: nat) -> Seq<u8> {
    Seq::new(n, |i: int| virt_byte(mem, cr3, (gva + i) as u64))
}

proof fn lemma_chunks_unfold(start: u64, sz: nat)
    requires
        sz > 0,
    ensures
        chunks_spec(start, sz) == seq![(start, chunk_len(start, sz) as usize)] + chunks_spec(
            (start + chunk_len(start, sz)) as u64,
            (sz - chunk_len(start, sz)) as nat,
        ),
        chunks_spec(start, sz).len() > 0,
{
    lemma_chunk_len(start, sz);
}

proof fn lemma_chunks_empty(start: u64, sz: nat)
    requires
        chunks_spec(start, sz).len() == 0,
    ensures
        sz == 0,
{
    if sz > 0 {
        lemma_chunks_unfold(start, sz);
    }
}

/// Within one chunk: every address translates as the chunk's start does,
/// shifted, and its byte is the one at the shifted host address.
proof fn lemma_chunk_translates(mem: MemView, cr3: u64, start: u64, sz: nat)
    requires
        mem.wf(),
        offset_in_page(start) + sz <= 4096,
        virt_ready(mem, cr3, start),
        translate_spec(mem, cr3, start) is Ok,
    ensures
        forall|k: int|
            0 <= k < sz ==> {
                &&& #[trigger] translate_spec(mem, cr3, (start + k) as u64) is Ok
                &&& translate_spec(mem, cr3, (start + k) as u64)->Ok_0 == translate_spec(
                    mem,
                    cr3,
                    start,
                )->Ok_0 + k
                &&& virt_byte(mem, cr3, (start + k) as u64) == mem.host[mem.host_addr(
                    translate_spec(mem, cr3, start)->Ok_0,
                ) + k]
            },
{
    let gpa = translate_spec(mem, cr3, start)->Ok_0;
    lemma_translate_result(mem, cr3, start);
    lemma_page_split(gpa);
    assert forall|k: int| 0 <= k < sz implies {
        &&& #[trigger] translate_spec(mem, cr3, (start + k) as u64) is Ok
        &&& translate_spec(mem, cr3, (start + k) as u64)->Ok_0 == gpa + k
        &&& virt_byte(mem, cr3, (start + k) as u64) == mem.host[mem.host_addr(gpa) + k]
    } by {
        lemma_translate_same_page(mem, cr3, start, k as u64);
        lemma_page_join(page_base(gpa), (offset_in_page(gpa) + k) as u64);
    }
}

/// If the address at `off` fails to translate and every address before it
/// can be read, the whole access of `n` bytes is readable.
proof fn lemma_ready_after_failure(mem: MemView, cr3: u64, gva: u64, off: int, n: int)
    requires
        0 <= off < n,
        virt_ready(mem, cr3, (gva + off) as u64),
        translate_spec(mem, cr3, (gva + off) as u64) is Err,
        forall|i: int|
            0 <= i < off && all_ok_before(mem, cr3, gva, i) ==> #[trigger] virt_ready(
                mem,
                cr3,
                (gva + i) as u64,
            ),
    ensures
        virt_readable(mem, cr3, gva, n),
{
    assert forall|i: int| 0 <= i < n && all_ok_before(mem, cr3, gva, i) implies #[trigger] virt_ready(
        mem,
        cr3,
        (gva + i) as u64,
    ) by {
        if i > off {
            assert(translate_spec(mem, cr3, (gva + off) as u64) is Ok);
        }
    }
}

/// A chunk whose start is ready and whose frame is mapped is readable
/// through its end.
proof fn lemma_ready_through_chunk(mem: MemView, cr3: u64, gva: u64, off: int, sz: nat)
    requires
        mem.wf(),
        0 <= off,
        gva + off + sz <= u64::MAX,
        offset_in_page((gva + off) as u64) + sz <= 4096,
        virt_ready(mem, cr3, (gva + off) as u64),
        translate_spec(mem, cr3, (gva + off) as u64) is Ok,
        all_ok_before(mem, cr3, gva, off),
        forall|i: int|
            0 <= i < off && all_ok_before(mem, cr3, gva, i) ==> #[trigger] virt_ready(
                mem,
                cr3,
                (gva + i) as u64,
            ),
    ensures
        all_ok_before(mem, cr3, gva, off + sz),
        forall|i: int|
            0 <= i < off + sz && all_ok_before(mem, cr3, gva, i) ==> #[trigger] virt_ready(
                mem,
                cr3,
                (gva + i) as u64,
            ),
{
    let start = (gva + off) as u64;
    assert forall|i: int| 0 <= i < off + sz && all_ok_before(mem, cr3, gva, i) implies #[trigger] virt_ready(
        mem,
        cr3,
        (gva + i) as u64,
    ) by {
        if i >= off {
            if i > off {
                lemma_translate_same_page(mem, cr3, start, (i - off) as u64);
            }
            assert((start + (i - off)) as u64 == (gva + i) as u64);
        }
    }
    assert forall|j: int| 0 <= j < off + sz implies #[trigger] translate_spec(
        mem,
        cr3,
        (gva + j) as u64,
    ) is Ok by {
        if j >= off {
            lemma_translate_same_page(mem, cr3, start, (j - off) as u64);
            assert((start + (j - off)) as u64 == (gva + j) as u64);
        }
    }
}

/// Finds the first page that a read of `n` bytes from `gva` needs and that
/// is not mapped yet: a page-table page of some chunk's walk, or the frame a
/// chunk translates to. `None` means the read can run as it is.
pub fn virt_missing(mem: &GuestMemory, cr3: PhyAddress, gva: Address, n: usize) -> (r: Option<
    PhyAddress,
>)
    requires
        mem@.wf(),
        gva + n <= u64::MAX,
    ensures
        r is None ==> virt_readable(mem@, cr3, gva, n as int),
        r matches Some(p) ==> !mem@.mapped(p) && p % 4096 == 0,
{
    let chunks = chunked(gva, n);
    let mut idx: usize = 0;
    let mut off: usize = 0;
    while idx < chunks.len()
        invariant
            gva + n <= u64::MAX,
            off <= n,
            idx <= chunks@.len(),
            chunks@.skip(idx as int) == chunks_spec((gva + off) as u64, (n - off) as nat),
            mem@.wf(),
            forall|i: int|
                0 <= i < off && all_ok_before(mem@, cr3, gva, i) ==> #[trigger] virt_ready(
                    mem@,
                    cr3,
                    (gva + i) as u64,
                ),
            all_ok_before(mem@, cr3, gva, off as int),
        decreases chunks@.len() - idx,
    {
        let (start, sz) = chunks[idx];
        proof {
            if n - off == 0 {
                assert(chunks@.skip(idx as int).len() > 0);
            }
            lemma_chunks_unfold((gva + off) as u64, (n - off) as nat);
            lemma_chunk_len((gva + off) as u64, (n - off) as nat);
            assert(chunks@.skip(idx as int)[0] == chunks@[idx as int]);
            assert(start == (gva + off) as u64);
            assert(sz == chunk_len(start, (n - off) as nat));
        }
        if let Some(p) = walk_missing(mem, cr3, start) {
            return Some(p);
        }
        match virt_translate_checked(mem, cr3, start) {
            Err(_) => {
                proof {
                    lemma_ready_after_failure(mem@, cr3, gva, off as int, n as int);
                }
                return None;
            },
            Ok(gpa) => {
                if mem.lookup(gpa).is_none() {
                    proof {
                        lemma_page_base_idempotent(gpa);
                        lemma_page_split(gpa);
                    }
                    return Some(gpa & PAGE_MASK);
                }
                proof {
                    lemma_ready_through_chunk(mem@, cr3, gva, off as int, sz as nat);
                    assert(chunks@.skip(idx + 1) =~= chunks@.skip(idx as int).drop_first());
                }
            },
        }
        off = off + sz;
        idx = idx + 1;
    }
    proof {
        lemma_chunks_empty((gva + off) as u64, (n - off) as nat);
    }
    None
}

/// Reads `buf.len()` bytes from `gva` on, page by page, each page's start
/// translated on its own. Stops with the error of the first address that
/// does not translate.
pub fn virt_read_slice_checked(mem: &GuestMemory, cr3: PhyAddress, gva: Address, buf: &mut [u8]) -> (r:
    Result<(), VirtMemError>)
    requires
        mem@.wf(),
        gva + old(buf)@.len() <= u64::MAX,
        virt_readable(mem@, cr3, gva, old(buf)@.len() as int),
    ensures
        final(buf)@.len() == old(buf)@.len(),
        r is Ok <==> all_ok_before(mem@, cr3, gva, old(buf)@.len() as int),
        r is Ok ==> final(buf)@ == virt_bytes(mem@, cr3, gva, old(buf)@.len()),
        r matches Err(e) ==> exists|i: int|
            0 <= i < old(buf)@.len() && all_ok_before(mem@, cr3, gva, i) && #[trigger] translate_spec(
                mem@,
                cr3,
                (gva + i) as u64,
            ) == Err::<u64, VirtMemError>(e) && (forall|j: int|
                0 <= j < i ==> final(buf)@[j] == virt_byte(mem@, cr3, (gva + j) as u64)) && (forall|
                j: int,
            |
                i <= j < old(buf)@.len() ==> final(buf)@[j] == old(buf)@[j]),
{
    let n = buf.len();
    let chunks = chunked(gva, n);
    let mut idx: usize = 0;
    let mut off: usize = 0;
    while idx < chunks.len()
        invariant
            n == old(buf)@.len(),
            buf@.len() == n,
            gva + n <= u64::MAX,
            off <= n,
            idx <= chunks@.len(),
            chunks@.skip(idx as int) == chunks_spec((gva + off) as u64, (n - off) as nat),
            mem@.wf(),
            virt_readable(mem@, cr3, gva, n as int),
            all_ok_before(mem@, cr3, gva, off as int),
            forall|i: int| 0 <= i < off ==> #[trigger] buf@[i] == virt_byte(mem@, cr3, (gva + i) as u64),
            forall|i: int| off <= i < n ==> #[trigger] buf@[i] == old(buf)@[i],
        decreases chunks@.len() - idx,
    {
        let (start, sz) = chunks[idx];
        proof {
            if n - off == 0 {
                assert(chunks@.skip(idx as int).len() > 0);
            }
            lemma_chunks_unfold((gva + off) as u64, (n - off) as nat);
            lemma_chunk_len((gva + off) as u64, (n - off) as nat);
            assert(chunks@.skip(idx as int)[0] == chunks@[idx as int]);
            assert(start == (gva + off) as u64);
            assert(sz == chunk_len(start, (n - off) as nat));
            assert(virt_ready(mem@, cr3, (gva + off) as u64));
        }
        let gpa = match virt_translate_checked(mem, cr3, start) {
            Ok(g) => g,
            Err(e) => {
                assert(translate_spec(mem@, cr3, (gva + off) as u64) == Err::<u64, VirtMemError>(e));
                return Err(e);
            },
        };
        proof {
            lemma_chunk_translates(mem@, cr3, start, sz as nat);
            lemma_translate_result(mem@, cr3, start);
            assert forall|j: int| 0 <= j < off + sz implies #[trigger] translate_spec(
                mem@,
                cr3,
                (gva + j) as u64,
            ) is Ok by {
                if j >= off {
                    assert((start + (j - off)) as u64 == (gva + j) as u64);
                }
            }
        }
        let ghost before = buf@;
        phy_read_at(mem, gpa, buf, off, sz);
        proof {
            assert forall|i: int| 0 <= i < off + sz implies #[trigger] buf@[i] == virt_byte(
                mem@,
                cr3,
                (gva + i) as u64,
            ) by {
                if i >= off {
                    assert((start + (i - off)) as u64 == (gva + i) as u64);
                    assert(buf@[i] == mem@.phy_bytes(gpa, sz as nat)[i - off]);
                }
            }
            assert(chunks@.skip(idx + 1) =~= chunks@.skip(idx as int).drop_first());
        }
        off = off + sz;
        idx = idx + 1;
    }
    proof {
        lemma_chunks_empty((gva + off) as u64, (n - off) as nat);
        assert(buf@ =~= virt_bytes(mem@, cr3, gva, n as nat));
    }
    Ok(())
}

/// `virt_read_slice_checked` where every address must translate.
pub fn virt_read_slice(mem: &GuestMemory, cr3: PhyAddress, gva: Address, buf: &mut [u8])
    requires
        mem@.wf(),
        gva + old(buf)@.len() <= u64::MAX,
        virt_readable(mem@, cr3, gva, old(buf)@.len() as int),
        all_ok_before(mem@, cr3, gva, old(buf)@.len() as int),
    ensures
        final(buf)@ == virt_bytes(mem@, cr3, gva, old(buf)@.len()),
{
    let _ = virt_read_slice_checked(mem, cr3, gva, buf);
}

/// Appends the `sz` bytes seen from `gva` on to `buf`. On a translation
/// failure `buf` is left as it was.
pub fn virt_read_checked(
    mem: &GuestMemory,
    cr3: PhyAddress,
    gva: Address,
    buf: &mut Vec<u8>,
    sz: usize,
) -> (r: Result<(), VirtMemError>)
    requires
        mem@.wf(),
        gva + sz <= u64::MAX,
        virt_readable(mem@, cr3, gva, sz as int),
    ensures
        r is Ok <==> all_ok_before(mem@, cr3, gva, sz as int),
        r is Ok ==> final(buf)@ == old(buf)@ + virt_bytes(mem@, cr3, gva, sz as nat),
        r is Err ==> final(buf)@ == old(buf)@,
        r matches Err(e) ==> exists|i: int|
            0 <= i < sz && all_ok_before(mem@, cr3, gva, i) && #[trigger] translate_spec(
                mem@,
                cr3,
                (gva + i) as u64,
            ) == Err::<u64, VirtMemError>(e),
{
    let mut tmp: Vec<u8> = Vec::new();
    let mut i: usize = 0;
    while i < sz
        invariant
            i <= sz,
            tmp@.len() == i,
        decreases sz - i,
    {
        tmp.push(0u8);
        i = i + 1;
    }
    let r = virt_read_slice_checked(mem, cr3, gva, tmp.as_mut_slice());
    if r.is_err() {
        return r;
    }
    let ghost start = buf@;
    let mut j: usize = 0;
    while j < sz
        invariant
            j <= sz,
            tmp@ == virt_bytes(mem@, cr3, gva, sz as nat),
            buf@ =~= start + tmp@.take(j as int),
        decreases sz - j,
    {
        buf.push(tmp[j]);
        j = j + 1;
    }
    assert(tmp@.take(sz as int) =~= tmp@);
    r
}

/// `virt_read_checked` where every address must translate.
pub fn virt_read(mem: &GuestMemory, cr3: PhyAddress, gva: Address, buf: &mut Vec<u8>, sz: usize)
    requires
        mem@.wf(),
        gva + sz <= u64::MAX,
        virt_readable(mem@, cr3, gva, sz as int),
        all_ok_before(mem@, cr3, gva, sz as int),
    ensures
        final(buf)@ == old(buf)@ + virt_bytes(mem@, cr3, gva, sz as nat),
{
    let _ = virt_read_checked(mem, cr3, gva, buf, sz);
}

/// Reads `sz` bytes that must all translate.
fn read_fixed(mem: &GuestMemory, cr3: PhyAddress, gva: Address, sz: usize) -> (r: Vec<u8>)
    requires
        mem@.wf(),
        gva + sz <= u64::MAX,
        virt_readable(mem@, cr3, gva, sz as int),
        all_ok_before(mem@, cr3, gva, sz as int),
    ensures
        r@ == virt_bytes(mem@, cr3, gva, sz as nat),
{
    let mut buf: Vec<u8> = Vec::new();
    virt_read(mem, cr3, gva, &mut buf, sz);
    assert(buf@ =~= virt_bytes(mem@, cr3, gva, sz as nat));
    buf
}

/// The little-endian `u64` seen at `gva`.
pub fn virt_read_u64(mem: &GuestMemory, cr3: PhyAddress, gva: Address) -> (r: u64)
    requires
        mem@.wf(),
        gva + 8 <= u64::MAX,
        virt_readable(mem@, cr3, gva, 8),
        all_ok_before(mem@, cr3, gva, 8),
    ensures
        r == le_u64(virt_bytes(mem@, cr3, gva, 8), 0),
{
    let buf = read_fixed(mem, cr3, gva, 8);
    u64_from_le(buf.as_slice(), 0)
}

/// The little-endian `u32` seen at `gva`.
pub fn virt_read_u32(mem: &GuestMemory, cr3: PhyAddress, gva: Address) -> (r: u32)
    requires
        mem@.wf(),
        gva + 4 <= u64::MAX,
        virt_readable(mem@, cr3, gva, 4),
        all_ok_before(mem@, cr3, gva, 4),
    ensures
        r == le_u32(virt_bytes(mem@, cr3, gva, 4), 0),
{
    let buf = read_fixed(mem, cr3, gva, 4);
    u32_from_le(buf.as_slice(), 0)
}

/// The little-endian `u16` seen at `gva`.
pub fn virt_read_u16(mem: &GuestMemory, cr3: PhyAddress, gva: Address) -> (r: u16)
    requires
        mem@.wf(),
        gva + 2 <= u64::MAX,
        virt_readable(mem@, cr3, gva, 2),
        all_ok_before(mem@, cr3, gva, 2),
    ensures
        r == le_u16(virt_bytes(mem@, cr3, gva, 2), 0),
{
    let buf = read_fixed(mem, cr3, gva, 2);
    u16_from_le(buf.as_slice(), 0)
}

/// The byte seen at `gva`.
pub fn virt_read_u8(mem: &GuestMemory, cr3: PhyAddress, gva: Address) -> (r: u8)
    requires
        mem@.wf(),
        gva + 1 <= u64::MAX,
        virt_readable(mem@, cr3, gva, 1),
        all_ok_before(mem@, cr3, gva, 1),
    ensures
        r == virt_byte(mem@, cr3, gva),
{
    let buf = read_fixed(mem, cr3, gva, 1);
    assert(buf@[0] == virt_byte(mem@, cr3, (gva + 0) as u64));
    buf[0]
}

/// The guest physical address of `gva`, which must translate.
pub fn virt_translate(mem: &GuestMemory, cr3: PhyAddress, gva: Address) -> (r: PhyAddress)
    requires
        mem@.wf(),
        walk_ok(mem@, cr3, gva),
        translate_spec(mem@, cr3, gva) is Ok,
    ensures
        r == translate_spec(mem@, cr3, gva)->Ok_0,
{
    match virt_translate_checked(mem, cr3, gva) {
        Ok(gpa) => gpa,
        Err(_) => 0,
    }
}

/// Memory and outcome after writing `data[off..]` chunk by chunk: each
/// chunk's start is translated in the memory as the earlier chunks left it,
/// and the first failure ends the write.
pub open spec fn write_chunks(
    mem: MemView,
    cr3: u64,
    chunks: Seq<(u64, usize)>,
    data: Seq<u8>,
    off: int,
) -> (MemView, Result<(), VirtMemError>)
    decreases chunks.len(),
{
    if chunks.len() == 0 {
        (mem, Ok(()))
    } else {
        let (start, sz) = chunks[0];
        match translate_spec(mem, cr3, start) {
            Err(e) => (mem, Err(e)),
            Ok(gpa) => write_chunks(
                mem.write(gpa, data.subrange(off, off + sz)),
                cr3,
                chunks.drop_first(),
                data,
                off + sz,
            ),
        }
    }
}

/// Each chunk that the write reaches can be walked and is backed, in the
/// memory as the earlier chunks left it.
pub open spec fn write_ready(
    mem: MemView,
    cr3: u64,
    chunks: Seq<(u64, usize)>,
    data: Seq<u8>,
    off: int,
) -> bool
    decreases chunks.len(),
{
    chunks.len() > 0 ==> {
        let (start, sz) = chunks[0];
        &&& virt_ready(mem, cr3, start)
        &&& translate_spec(mem, cr3, start) is Ok ==> write_ready(
            mem.write(translate_spec(mem, cr3, start)->Ok_0, data.subrange(off, off + sz)),
            cr3,
            chunks.drop_first(),
            data,
            off + sz,
        )
    }
}

/// Writes `buf` from `gva` on, page by page, each page's start translated
/// on its own after the earlier pages were written. Stops at the first
/// address that does not translate.
pub fn virt_write_checked(mem: &mut GuestMemory, cr3: PhyAddress, gva: Address, buf: &[u8]) -> (r:
    Result<(), VirtMemError>)
    requires
        old(mem)@.wf(),
        gva + buf@.len() <= u64::MAX,
        write_ready(old(mem)@, cr3, chunks_spec(gva, buf@.len()), buf@, 0),
    ensures
        final(mem)@.wf(),
        (final(mem)@, r) == write_chunks(old(mem)@, cr3, chunks_spec(gva, buf@.len()), buf@, 0),
{
    let n = buf.len();
    let chunks = chunked(gva, n);
    let mut idx: usize = 0;
    let mut off: usize = 0;
    assert(chunks@.skip(0) =~= chunks@);
    while idx < chunks.len()
        invariant
            n == buf@.len(),
            gva + n <= u64::MAX,
            off <= n,
            idx <= chunks@.len(),
            chunks@ == chunks_spec(gva, n as nat),
            chunks@.skip(idx as int) == chunks_spec((gva + off) as u64, (n - off) as nat),
            mem@.wf(),
            write_ready(mem@, cr3, chunks@.skip(idx as int), buf@, off as int),
            write_chunks(mem@, cr3, chunks@.skip(idx as int), buf@, off as int) == write_chunks(
                old(mem)@,
                cr3,
                chunks_spec(gva, n as nat),
                buf@,
                0,
            ),
        decreases chunks@.len() - idx,
    {
        let (start, sz) = chunks[idx];
        proof {
            if n - off == 0 {
                assert(chunks@.skip(idx as int).len() > 0);
            }
            lemma_chunks_unfold((gva + off) as u64, (n - off) as nat);
            lemma_chunk_len((gva + off) as u64, (n - off) as nat);
            assert(chunks@.skip(idx as int)[0] == chunks@[idx as int]);
            assert(chunks@.skip(idx + 1) =~= chunks@.skip(idx as int).drop_first());
        }
        let gpa = match virt_translate_checked(mem, cr3, start) {
            Ok(g) => g,
            Err(e) => {
                return Err(e);
            },
        };
        proof {
            lemma_translate_result(mem@, cr3, start);
        }
        let piece = slice_range(buf, off, off + sz);
        phy_write(mem, gpa, piece);
        off = off + sz;
        idx = idx + 1;
    }
    proof {
        lemma_chunks_empty((gva + off) as u64, (n - off) as nat);
    }
    Ok(())
}

/// `buf[lo..hi]`.
fn slice_range(buf: &[u8], lo: usize, hi: usize) -> (r: &[u8])
    requires
        lo <= hi <= buf@.len(),
    ensures
        r@ == buf@.subrange(lo as int, hi as int),
{
    &buf[lo..hi]
}

/// `virt_write_checked` where every chunk must translate.
pub fn virt_write(mem: &mut GuestMemory, cr3: PhyAddress, gva: Address, buf: &[u8])
    requires
        old(mem)@.wf(),
        gva + buf@.len() <= u64::MAX,
        write_ready(old(mem)@, cr3, chunks_spec(gva, buf@.len()), buf@, 0),
        write_chunks(old(mem)@, cr3, chunks_spec(gva, buf@.len()), buf@, 0).1 is Ok,
    ensures
        final(mem)@.wf(),
        final(mem)@ == write_chunks(old(mem)@, cr3, chunks_spec(gva, buf@.len()), buf@, 0).0,
{
    let _ = virt_write_checked(mem, cr3, gva, buf);
}

/// A present PDPT entry with the page-size bit maps a whole 1 GiB page:
/// every address in it translates to the page's base plus the low thirty
/// bits, and the walk reads no PD or PT entry.
pub proof fn lemma_huge_page(mem: MemView, cr3: u64, gva: u64)
    requires
        mem.mapped(entry_addr(cr3, spec_pml4_index(gva))),
        present(pml4e(mem, cr3, gva)),
        mem.mapped(entry_addr(pml4e(mem, cr3, gva), spec_pdpt_index(gva))),
        present(pdpte(mem, cr3, gva)),
        page_size_bit(pdpte(mem, cr3, gva)),
    ensures
        walk_ok(mem, cr3, gva),
        translate_spec(mem, cr3, gva) == Ok::<u64, VirtMemError>(
            ((entry_base(pdpte(mem, cr3, gva)) & HUGE_BASE_MASK) + (gva & HUGE_OFFSET_MASK)) as u64,
        ),
        (entry_base(pdpte(mem, cr3, gva)) & HUGE_BASE_MASK) + (gva & HUGE_OFFSET_MASK) <= u64::MAX,
{
    lemma_frame_bounds(pdpte(mem, cr3, gva), gva);
}

/// A PML4 entry without the present bit fails the walk at that level; the
/// walk reads nothing further.
pub proof fn lemma_pml4e_not_present(mem: MemView, cr3: u64, gva: u64)
    requires
        mem.mapped(entry_addr(cr3, spec_pml4_index(gva))),
        !present(pml4e(mem, cr3, gva)),
    ensures
        walk_ok(mem, cr3, gva),
        translate_spec(mem, cr3, gva) == Err::<u64, VirtMemError>(VirtMemError::Pml4eNotPresent),
{
}

/// A virtual read across one page boundary gives the bytes of the two
/// same-page physical reads, one on each side of the boundary, joined.
#[verifier::rlimit(40)]
pub proof fn lemma_read_across_boundary(mem: MemView, cr3: u64, gva: u64, a: nat, b: nat)
    requires
        mem.wf(),
        0 < a,
        offset_in_page(gva) + a == 4096,
        b <= 4096,
        gva + a + b <= u64::MAX,
        virt_ready(mem, cr3, gva),
        virt_ready(mem, cr3, (gva + a) as u64),
        translate_spec(mem, cr3, gva) is Ok,
        translate_spec(mem, cr3, (gva + a) as u64) is Ok,
    ensures
        virt_bytes(mem, cr3, gva, a + b) == mem.phy_bytes(translate_spec(mem, cr3, gva)->Ok_0, a)
            + mem.phy_bytes(translate_spec(mem, cr3, (gva + a) as u64)->Ok_0, b),
{
    let next = (gva + a) as u64;
    lemma_page_split(gva);
    assert(offset_in_page(next) == 0) by {
        lemma_page_join(page_base(gva), 0);
        lemma_page_join((page_base(gva) + 4096) as u64, 0);
        assert(next == page_base(gva) + 4096);
    }
    lemma_chunk_translates(mem, cr3, gva, a);
    lemma_chunk_translates(mem, cr3, next, b);
    let t1 = translate_spec(mem, cr3, gva)->Ok_0;
    let t2 = translate_spec(mem, cr3, next)->Ok_0;
    lemma_translate_result(mem, cr3, gva);
    lemma_translate_result(mem, cr3, next);
    lemma_page_split(t1);
    lemma_page_split(t2);
    let lhs = virt_bytes(mem, cr3, gva, a + b);
    let rhs = mem.phy_bytes(t1, a) + mem.phy_bytes(t2, b);
    assert forall|i: int| 0 <= i < a + b implies lhs[i] == rhs[i] by {
        if i < a {
            assert((gva + i) as u64 == (gva + i) as u64);
        } else {
            assert((next + (i - a)) as u64 == (gva + i) as u64);
        }
    }
    assert(lhs =~= rhs);
}

} // verus!
