//! Guest physical memory: the page map from guest page to host storage,
//! the steps of fault-driven resolution, and same-page physical reads and
//! writes.
//!
//! Host storage is one byte arena owned by `GuestMemory`; a host address is
//! an index into it. Every mapped guest page points at a page-aligned host
//! address whose whole page lies inside the arena.

use vstd::prelude::*;

use crate::bytes::{le_u64, u64_from_le};
use crate::cpu::CpuStates;
use crate::fastmap::{fastmap_contents, FastMap64};
use crate::PhyAddress;

verus! {

/// The architecturally valid bits of a guest physical address.
pub const PHY_MASK: u64 = 0x000f_ffff_ffff_ffff;

/// Clears the low twelve bits of an address.
pub const PAGE_MASK: u64 = 0xffff_ffff_ffff_f000;

/// Keeps the low twelve bits of an address.
pub const OFFSET_MASK: u64 = 0xfff;

/// The page-aligned base of `a`.
pub open spec fn page_base(a: u64) -> u64 {
    a & PAGE_MASK
}

/// The offset of `a` inside its page.
pub open spec fn offset_in_page(a: u64) -> u64 {
    a & OFFSET_MASK
}

pub open spec fn spec_phy_mask(gpa: u64) -> u64 {
    gpa & PHY_MASK
}

pub proof fn lemma_page_split(a: u64)
    ensures
        page_base(a) + offset_in_page(a) == a,
        offset_in_page(a) < 4096,
        page_base(a) % 4096 == 0,
        page_base(a) <= a,
{
    assert(((a & 0xffff_ffff_ffff_f000u64) + (a & 0xfffu64)) as u64 == a
        && (a & 0xfffu64) < 4096 && (a & 0xffff_ffff_ffff_f000u64) & 0xfffu64 == 0
        && (a & 0xffff_ffff_ffff_f000u64) <= a) by (bit_vector);
    assert((a & 0xffff_ffff_ffff_f000u64) & 0xfffu64 == 0 ==> (a & 0xffff_ffff_ffff_f000u64)
        % 4096 == 0) by (bit_vector);
}

/// A page base is its own page base.
pub proof fn lemma_page_base_idempotent(a: u64)
    ensures
        page_base(page_base(a)) == page_base(a),
{
    assert((a & 0xffff_ffff_ffff_f000u64) & 0xffff_ffff_ffff_f000u64 == a & 0xffff_ffff_ffff_f000u64)
        by (bit_vector);
}

/// An aligned page plus an in-page offset splits back into that page and
/// that offset.
pub proof fn lemma_page_join(p: u64, o: u64)
    requires
        p % 4096 == 0,
        o < 4096,
    ensures
        p + o <= u64::MAX,
        page_base((p + o) as u64) == p,
        offset_in_page((p + o) as u64) == o,
{
    assert(p % 4096 == 0 ==> p & 0xfffu64 == 0) by (bit_vector);
    assert(p & 0xfffu64 == 0 && o < 4096 ==> p <= 0xffff_ffff_ffff_f000u64
        && ((p + o) as u64) & 0xffff_ffff_ffff_f000u64 == p
        && ((p + o) as u64) & 0xfffu64 == o) by (bit_vector);
}

/// Masking the high bits keeps the offset inside the page.
pub proof fn lemma_mask_keeps_offset(a: u64)
    ensures
        offset_in_page(spec_phy_mask(a)) == offset_in_page(a),
        spec_phy_mask(a) <= PHY_MASK,
        spec_phy_mask(spec_phy_mask(a)) == spec_phy_mask(a),
{
    assert((a & 0x000f_ffff_ffff_ffffu64) & 0xfffu64 == a & 0xfffu64
        && (a & 0x000f_ffff_ffff_ffffu64) <= 0x000f_ffff_ffff_ffffu64
        && (a & 0x000f_ffff_ffff_ffffu64) & 0x000f_ffff_ffff_ffffu64 == (a
        & 0x000f_ffff_ffff_ffffu64)) by (bit_vector);
}

/// Drops the bits of a guest physical address above the architectural
/// physical-address width.
pub fn phy_mask(gpa: PhyAddress) -> (r: PhyAddress)
    ensures
        r == spec_phy_mask(gpa),
        r <= PHY_MASK,
{
    proof {
        lemma_mask_keeps_offset(gpa);
    }
    gpa & PHY_MASK
}

/// Splits an address into its page base and its offset inside the page.
fn page_off(a: PhyAddress) -> (r: (PhyAddress, usize))
    ensures
        r.0 == page_base(a),
        r.1 as u64 == offset_in_page(a),
        r.1 < 4096,
        r.0 + r.1 == a,
        r.0 % 4096 == 0,
{
    proof {
        lemma_page_split(a);
    }
    (a & PAGE_MASK, (a & OFFSET_MASK) as usize)
}

/// Where a physical translation stands before any fault handling.
#[derive(Copy, Clone, Debug, PartialEq, Eq, Structural)]
pub enum Translation {
    /// The page is present: the host address of the byte.
    Resolved(usize),
    /// The page is absent: the fault handler must be run with this page,
    /// the masked guest physical address with its in-page bits cleared.
    Fault(PhyAddress),
}

/// What a guest-attributable translation does once the fault handler ran.
#[derive(Copy, Clone, Debug, PartialEq, Eq, Structural)]
pub enum AfterFault {
    /// The host address of the byte, now that the page is present.
    Resolved(usize),
    /// The handler requested cancellation: abort the run invocation.
    Bail,
}

/// What guest memory holds: guest page base to host address, and the host
/// arena's bytes.
pub struct MemView {
    pub pages: Map<u64, usize>,
    pub host: Seq<u8>,
}

impl MemView {
    pub open spec fn after_fault_spec(&self, states: CpuStates, cpu: u32, gpa: u64) -> AfterFault {
        if states.cancel_requested(cpu) {
            AfterFault::Bail
        } else {
            AfterFault::Resolved(self.host_addr(spec_phy_mask(gpa)) as usize)
        }
    }

    pub open spec fn phy_translate_spec(&self, gpa: u64) -> Translation {
        let masked = spec_phy_mask(gpa);
        if self.mapped(masked) {
            Translation::Resolved(self.host_addr(masked) as usize)
        } else {
            Translation::Fault(page_base(masked))
        }
    }

    /// Keys are page-aligned; host pages are page-aligned and lie inside the
    /// arena.
    pub open spec fn wf(&self) -> bool {
        forall|k: u64|
            #![trigger self.pages.contains_key(k)]
            self.pages.contains_key(k) ==> {
                &&& k % 4096 == 0
                &&& self.pages[k] % 4096 == 0
                &&& self.pages[k] + 4096 <= self.host.len()
            }
    }

    /// Whether the page holding `gpa` is mapped (no masking).
    pub open spec fn mapped(&self, gpa: u64) -> bool {
        self.pages.contains_key(page_base(gpa))
    }

    /// The host address backing `gpa`, for a mapped page.
    pub open spec fn host_addr(&self, gpa: u64) -> int {
        self.pages[page_base(gpa)] + offset_in_page(gpa)
    }

    /// What `resolve_hva_checked` returns.
    pub open spec fn resolve_spec(&self, gpa: u64) -> Option<usize> {
        if self.mapped(gpa) {
            Some(self.host_addr(gpa) as usize)
        } else {
            None
        }
    }

    /// The `n` bytes starting at `gpa`, all in the page of `gpa`.
    pub open spec fn phy_bytes(&self, gpa: u64, n: nat) -> Seq<u8> {
        self.host.subrange(self.host_addr(gpa), self.host_addr(gpa) + n)
    }

    /// The memory after `data` is written at `gpa`.
    pub open spec fn write(&self, gpa: u64, data: Seq<u8>) -> MemView {
        MemView {
            pages: self.pages,
            host: self.host.take(self.host_addr(gpa)) + data + self.host.skip(
                self.host_addr(gpa) + data.len(),
            ),
        }
    }

    /// A read or write of `n` bytes at `gpa` stays in one mapped page.
    pub open spec fn phy_access_ok(&self, gpa: u64, n: nat) -> bool {
        &&& self.mapped(gpa)
        &&& offset_in_page(gpa) + n <= 4096
    }

}

/// Guest physical memory: page map plus host arena.
pub struct GuestMemory {
    pages: FastMap64,
    host: Vec<u8>,
}

impl GuestMemory {
    pub closed spec fn view(&self) -> MemView {
        MemView { pages: fastmap_contents(self.pages), host: self.host@ }
    }

    /// An empty page map over a zeroed host arena of `host_size` bytes.
    pub fn new(host_size: usize) -> (r: GuestMemory)
        ensures
            r@.wf(),
            r@.pages =~= Map::empty(),
            r@.host =~= Seq::new(host_size as nat, |_i: int| 0u8),
    {
        let mut host: Vec<u8> = Vec::with_capacity(host_size);
        let mut i: usize = 0;
        while i < host_size
            invariant
                i <= host_size,
                host@ =~= Seq::new(i as nat, |_i: int| 0u8),
            decreases host_size - i,
        {
            host.push(0u8);
            i = i + 1;
        }
        GuestMemory { pages: FastMap64::new(), host }
    }

    /// Size of the host arena in bytes.
    pub fn host_len(&self) -> (r: usize)
        ensures
            r == self@.host.len(),
    {
        self.host.len()
    }

    /// The host arena itself, for handing its storage to the emulation core.
    /// The page map is untouched.
    pub fn host_mut(&mut self) -> (r: &mut [u8])
        ensures
            r@ == old(self)@.host,
            final(self)@.host == final(r)@,
            final(self)@.pages == old(self)@.pages,
    {
        self.host.as_mut_slice()
    }

    /// Reads one byte of the host arena.
    pub fn host_byte(&self, hva: usize) -> (r: u8)
        requires
            hva < self@.host.len(),
        ensures
            r == self@.host[hva as int],
    {
        self.host[hva]
    }

    /// Writes bytes into the host arena at `hva`, whether or not a guest page
    /// maps there.
    pub fn host_write(&mut self, hva: usize, data: &[u8])
        requires
            hva + data@.len() <= old(self)@.host.len(),
        ensures
            final(self)@.pages == old(self)@.pages,
            final(self)@.host =~= old(self)@.host.take(hva as int) + data@ + old(self)@.host.skip(
                hva + data@.len(),
            ),
            final(self)@.host.len() == old(self)@.host.len(),
    {
        let hl = self.host.len();
        let mut i: usize = 0;
        while i < data.len()
            invariant
                i <= data@.len(),
                hl == self.host@.len(),
                hva + data@.len() <= self.host@.len(),
                self.pages == old(self).pages,
                self.host@.len() == old(self).host@.len(),
                forall|j: int|
                    0 <= j < self.host@.len() ==> #[trigger] self.host@[j] == if hva <= j < hva
                        + i {
                        data@[j - hva]
                    } else {
                        old(self).host@[j]
                    },
            decreases data@.len() - i,
        {
            self.host.set(hva + i, data[i]);
            i = i + 1;
        }
    }

    /// Maps the page holding `gpa` to the host page at `hva`; the key is
    /// page-aligned first. A page already mapped there is replaced.
    pub fn page_insert(&mut self, gpa: PhyAddress, hva: usize)
        requires
            old(self)@.wf(),
            hva % 4096 == 0,
            hva + 4096 <= old(self)@.host.len(),
        ensures
            final(self)@.wf(),
            final(self)@.pages == old(self)@.pages.insert(page_base(gpa), hva),
            final(self)@.host == old(self)@.host,
    {
        let (page, _) = page_off(gpa);
        self.pages.insert(page, hva);
        proof {
            assert forall|k: u64| #[trigger] self@.pages.contains_key(k) implies {
                &&& k % 4096 == 0
                &&& self@.pages[k] % 4096 == 0
                &&& self@.pages[k] + 4096 <= self@.host.len()
            } by {
                if k != page {
                    assert(old(self)@.pages.contains_key(k));
                }
            }
        }
    }

    /// Unmaps the page holding `gpa`, if it was mapped.
    pub fn page_remove(&mut self, gpa: PhyAddress)
        requires
            old(self)@.wf(),
        ensures
            final(self)@.wf(),
            final(self)@.pages == old(self)@.pages.remove(page_base(gpa)),
            final(self)@.host == old(self)@.host,
    {
        let (page, _) = page_off(gpa);
        self.pages.remove(page);
        proof {
            assert forall|k: u64| #[trigger] self@.pages.contains_key(k) implies {
                &&& k % 4096 == 0
                &&& self@.pages[k] % 4096 == 0
                &&& self@.pages[k] + 4096 <= self@.host.len()
            } by {
                assert(old(self)@.pages.contains_key(k));
            }
        }
    }

    /// The host page mapped at the page holding `gpa`, if any.
    pub fn lookup(&self, gpa: PhyAddress) -> (r: Option<usize>)
        ensures
            r == (if self@.mapped(gpa) {
                Some(self@.pages[page_base(gpa)])
            } else {
                None
            }),
    {
        let (page, _) = page_off(gpa);
        self.pages.get(page)
    }

    /// The host address of `gpa`, or `None` when its page is not mapped.
    pub fn resolve_hva_checked(&self, gpa: PhyAddress) -> (r: Option<usize>)
        requires
            self@.wf(),
        ensures
            r == self@.resolve_spec(gpa),
    {
        let (page, off) = page_off(gpa);
        match self.pages.get(page) {
            Some(h) => Some(h + off),
            None => None,
        }
    }

    /// The host address of `gpa`, whose page must be mapped.
    pub fn resolve_hva(&self, gpa: PhyAddress) -> (r: usize)
        requires
            self@.wf(),
            self@.mapped(gpa),
        ensures
            r == self@.host_addr(gpa),
    {
        let (page, off) = page_off(gpa);
        match self.pages.get(page) {
            Some(h) => h + off,
            None => 0,
        }
    }

    /// First step of a guest-attributable translation: mask `gpa` to the
    /// valid range and resolve it, or ask for the fault handler to run with
    /// the masked address's page.
    pub fn guest_phy_translate(&self, gpa: PhyAddress) -> (r: Translation)
        requires
            self@.wf(),
        ensures
            r == self@.phy_translate_spec(gpa),
    {
        let masked = phy_mask(gpa);
        match self.resolve_hva_checked(masked) {
            Some(h) => Translation::Resolved(h),
            None => Translation::Fault(masked & PAGE_MASK),
        }
    }

    /// Second step, once the fault handler returned: abort if it requested
    /// cancellation of `cpu`, otherwise resolve the now-present page.
    pub fn guest_phy_after_fault(&self, states: &CpuStates, cpu: u32, gpa: PhyAddress) -> (r:
        AfterFault)
        requires
            self@.wf(),
            states.wf(),
            (cpu as int) < states.len(),
            states.cancel_requested(cpu) || self@.mapped(spec_phy_mask(gpa)),
        ensures
            r == self@.after_fault_spec(*states, cpu, gpa),
    {
        if states.cancel_requested_exec(cpu) {
            return AfterFault::Bail;
        }
        let masked = phy_mask(gpa);
        AfterFault::Resolved(self.resolve_hva(masked))
    }

    /// First step of an emulator-internal translation; such lookups have no
    /// CPU and cannot be cancelled.
    pub fn phy_translate(&self, gpa: PhyAddress) -> (r: Translation)
        requires
            self@.wf(),
        ensures
            r == self@.phy_translate_spec(gpa),
    {
        self.guest_phy_translate(gpa)
    }

    /// Second step of an emulator-internal translation: the fault handler
    /// must have provisioned the page.
    pub fn phy_after_fault(&self, gpa: PhyAddress) -> (r: usize)
        requires
            self@.wf(),
            self@.mapped(spec_phy_mask(gpa)),
        ensures
            r == self@.host_addr(spec_phy_mask(gpa)),
    {
        self.resolve_hva(phy_mask(gpa))
    }
}

/// Copies the `n` host bytes from `hva` into `buf` at `at`.
fn copy_from_host(mem: &GuestMemory, hva: usize, buf: &mut [u8], at: usize, n: usize)
    requires
        hva + n <= mem@.host.len(),
        at + n <= old(buf)@.len(),
    ensures
        final(buf)@ =~= old(buf)@.take(at as int) + mem@.host.subrange(hva as int, hva + n)
            + old(buf)@.skip(at + n),
{
    let hl = mem.host.len();
    let bl = buf.len();
    let mut i: usize = 0;
    while i < n
        invariant
            i <= n,
            hl == mem@.host.len(),
            bl == buf@.len(),
            hva + n <= mem@.host.len(),
            at + n <= buf@.len(),
            buf@.len() == old(buf)@.len(),
            forall|j: int|
                0 <= j < buf@.len() ==> #[trigger] buf@[j] == if at <= j < at + i {
                    mem@.host[hva + (j - at)]
                } else {
                    old(buf)@[j]
                },
        decreases n - i,
    {
        let b = mem.host[hva + i];
        buf[at + i] = b;
        i = i + 1;
    }
}

/// Reads `buf.len()` bytes at `gpa`, which must stay inside one mapped
/// page. The address is masked to the valid physical range first.
pub fn phy_read_slice(mem: &GuestMemory, gpa: PhyAddress, buf: &mut [u8])
    requires
        mem@.wf(),
        mem@.phy_access_ok(spec_phy_mask(gpa), old(buf)@.len()),
    ensures
        final(buf)@ == mem@.phy_bytes(spec_phy_mask(gpa), old(buf)@.len()),
{
    let masked = phy_mask(gpa);
    let hva = mem.resolve_hva(masked);
    let n = buf.len();
    proof {
        lemma_page_split(masked);
    }
    copy_from_host(mem, hva, buf, 0, n);
    assert(buf@ =~= mem@.phy_bytes(masked, n as nat));
}

/// Appends the `sz` bytes at `gpa`, which must stay inside one mapped page,
/// to `buf`.
pub fn phy_read(mem: &GuestMemory, gpa: PhyAddress, buf: &mut Vec<u8>, sz: usize)
    requires
        mem@.wf(),
        mem@.phy_access_ok(spec_phy_mask(gpa), sz as nat),
    ensures
        final(buf)@ == old(buf)@ + mem@.phy_bytes(spec_phy_mask(gpa), sz as nat),
{
    let masked = phy_mask(gpa);
    let hva = mem.resolve_hva(masked);
    proof {
        lemma_page_split(masked);
    }
    let hl = mem.host.len();
    let mut i: usize = 0;
    while i < sz
        invariant
            i <= sz,
            hl == mem@.host.len(),
            hva == mem@.host_addr(masked),
            hva + sz <= mem@.host.len(),
            buf@ =~= old(buf)@ + mem@.host.subrange(hva as int, hva + i),
        decreases sz - i,
    {
        buf.push(mem.host[hva + i]);
        i = i + 1;
    }
}

/// The little-endian `u64` at `gpa`, whose eight bytes must stay inside
/// one mapped page.
pub fn phy_read_u64(mem: &GuestMemory, gpa: PhyAddress) -> (r: u64)
    requires
        mem@.wf(),
        mem@.phy_access_ok(spec_phy_mask(gpa), 8),
    ensures
        r == le_u64(mem@.phy_bytes(spec_phy_mask(gpa), 8), 0),
{
    let mut buf: Vec<u8> = Vec::new();
    phy_read(mem, gpa, &mut buf, 8);
    assert(buf@ =~= mem@.phy_bytes(spec_phy_mask(gpa), 8));
    u64_from_le(buf.as_slice(), 0)
}

/// Writes `data` at `gpa`, which must stay inside one mapped page.
pub fn phy_write(mem: &mut GuestMemory, gpa: PhyAddress, data: &[u8])
    requires
        old(mem)@.wf(),
        old(mem)@.phy_access_ok(spec_phy_mask(gpa), data@.len()),
    ensures
        final(mem)@.wf(),
        final(mem)@ == old(mem)@.write(spec_phy_mask(gpa), data@),
{
    let masked = phy_mask(gpa);
    let hva = mem.resolve_hva(masked);
    proof {
        lemma_page_split(masked);
    }
    mem.host_write(hva, data);
    assert(mem@.host =~= old(mem)@.write(masked, data@).host);
}

/// Reads the `n` bytes at `gpa`, which must stay inside one mapped page,
/// into `buf` at `at`.
pub fn phy_read_at(mem: &GuestMemory, gpa: PhyAddress, buf: &mut [u8], at: usize, n: usize)
    requires
        mem@.wf(),
        mem@.phy_access_ok(spec_phy_mask(gpa), n as nat),
        at + n <= old(buf)@.len(),
    ensures
        final(buf)@ =~= old(buf)@.take(at as int) + mem@.phy_bytes(spec_phy_mask(gpa), n as nat)
            + old(buf)@.skip(at + n),
{
    let masked = phy_mask(gpa);
    let hva = mem.resolve_hva(masked);
    proof {
        lemma_page_split(masked);
    }
    copy_from_host(mem, hva, buf, at, n);
}

/// After a page is mapped at page-aligned `p`, every address of that page
/// resolves to the same offset in the host page.
pub proof fn lemma_insert_then_resolve(m: MemView, p: u64, h: usize, o: u64)
    requires
        p % 4096 == 0,
        o < 4096,
    ensures
        (MemView { pages: m.pages.insert(page_base(p), h), host: m.host }).resolve_spec(
            (p + o) as u64,
        ) == Some((h + o) as usize),
{
    lemma_page_join(p, o);
    lemma_page_join(p, 0);
    assert(page_base((p + 0) as u64) == p);
    assert((p + 0) as u64 == p);
}

/// After the page holding `p` is unmapped, no address of that page
/// resolves.
pub proof fn lemma_remove_then_resolve(m: MemView, p: u64, o: u64)
    requires
        p % 4096 == 0,
        o < 4096,
    ensures
        (MemView { pages: m.pages.remove(page_base(p)), host: m.host }).resolve_spec(p) is None,
        (MemView { pages: m.pages.remove(page_base(p)), host: m.host }).resolve_spec(
            (p + o) as u64,
        ) is None,
{
    lemma_page_join(p, o);
    lemma_page_join(p, 0);
    assert((p + 0) as u64 == p);
}

/// The fault path: a guest translation of an unmapped page asks for the
/// fault handler with the masked address; once the handler has mapped that
/// page, the translation resolves to it unless the CPU's cancellation was
/// requested, in which case the run is abandoned.
pub proof fn lemma_fault_path(m: MemView, states: CpuStates, cpu: u32, gpa: u64, h: usize)
    requires
        !m.mapped(spec_phy_mask(gpa)),
    ensures
        m.phy_translate_spec(gpa) == Translation::Fault(page_base(spec_phy_mask(gpa))),
        ({
            let m2 = MemView {
                pages: m.pages.insert(page_base(spec_phy_mask(gpa)), h),
                host: m.host,
            };
            &&& m2.mapped(spec_phy_mask(gpa))
            &&& !states.cancel_requested(cpu) ==> m2.after_fault_spec(states, cpu, gpa)
                == AfterFault::Resolved((h + offset_in_page(gpa)) as usize)
            &&& states.cancel_requested(cpu) ==> m2.after_fault_spec(states, cpu, gpa)
                == AfterFault::Bail
        }),
{
    lemma_mask_keeps_offset(gpa);
}

} // verus!
