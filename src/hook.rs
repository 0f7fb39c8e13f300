//! Fan-out of architectural events to registered observers.
//!
//! Observers are registered for one run invocation and handed back when it
//! ends. Each event goes to every observer, in registration order, then the
//! originating CPU's kill flag is consulted: once it is raised, the event
//! reports that the run must be abandoned and no further event of that CPU
//! reaches any observer. Port I/O events carry no CPU id: they never report
//! cancellation, but reach no observer once the running CPU's kill flag is
//! raised.

use vstd::prelude::*;

use crate::cpu::CpuStates;
use crate::{Address, PhyAddress, NUM_CPUS};

verus! {

/// Where a reset came from.
#[derive(Copy, Clone, Debug, PartialEq, Eq, Hash, Structural)]
pub enum ResetSource {
    Software,
    Hardware,
}

impl ResetSource {
    /// The core's code for this value.
    pub open spec fn code(self) -> u32 {
        match self {
            ResetSource::Software => 10,
            ResetSource::Hardware => 11,
        }
    }

    /// Decodes the core's code; `None` for a code the protocol does not
    /// define.
    pub fn from_code(code: u32) -> (r: Option<ResetSource>)
        ensures
            r is None <==> !(10 <= code <= 11),
            r matches Some(v) ==> v.code() == code,
    {
        match code {
            10 => Some(ResetSource::Software),
            11 => Some(ResetSource::Hardware),
            _ => None,
        }
    }
}

/// Kind of an unconditional or far branch.
#[derive(Copy, Clone, Debug, PartialEq, Eq, Hash, Structural)]
pub enum Branch {
    Jmp,
    JmpIndirect,
    Call,
    CallIndirect,
    Ret,
    Iret,
    Int,
    Syscall,
    Sysret,
    Sysenter,
    Sysexit,
}

impl Branch {
    /// The core's code for this value.
    pub open spec fn code(self) -> u32 {
        match self {
            Branch::Jmp => 10,
            Branch::JmpIndirect => 11,
            Branch::Call => 12,
            Branch::CallIndirect => 13,
            Branch::Ret => 14,
            Branch::Iret => 15,
            Branch::Int => 16,
            Branch::Syscall => 17,
            Branch::Sysret => 18,
            Branch::Sysenter => 19,
            Branch::Sysexit => 20,
        }
    }

    /// Decodes the core's code; `None` for a code the protocol does not
    /// define.
    pub fn from_code(code: u32) -> (r: Option<Branch>)
        ensures
            r is None <==> !(10 <= code <= 20),
            r matches Some(v) ==> v.code() == code,
    {
        match code {
            10 => Some(Branch::Jmp),
            11 => Some(Branch::JmpIndirect),
            12 => Some(Branch::Call),
            13 => Some(Branch::CallIndirect),
            14 => Some(Branch::Ret),
            15 => Some(Branch::Iret),
            16 => Some(Branch::Int),
            17 => Some(Branch::Syscall),
            18 => Some(Branch::Sysret),
            19 => Some(Branch::Sysenter),
            20 => Some(Branch::Sysexit),
            _ => None,
        }
    }
}

/// Operation that flushes or reloads the TLB.
#[derive(Copy, Clone, Debug, PartialEq, Eq, Hash, Structural)]
pub enum TlbCntrl {
    MovCr0,
    MovCr3,
    MovCr4,
    TaskSwitch,
    ContextSwitch,
    InvLpg,
    InvEpt,
    InvVpid,
    InvPcid,
}

impl TlbCntrl {
    /// The core's code for this value.
    pub open spec fn code(self) -> u32 {
        match self {
            TlbCntrl::MovCr0 => 10,
            TlbCntrl::MovCr3 => 11,
            TlbCntrl::MovCr4 => 12,
            TlbCntrl::TaskSwitch => 13,
            TlbCntrl::ContextSwitch => 14,
            TlbCntrl::InvLpg => 15,
            TlbCntrl::InvEpt => 16,
            TlbCntrl::InvVpid => 17,
            TlbCntrl::InvPcid => 18,
        }
    }

    /// Decodes the core's code; `None` for a code the protocol does not
    /// define.
    pub fn from_code(code: u32) -> (r: Option<TlbCntrl>)
        ensures
            r is None <==> !(10 <= code <= 18),
            r matches Some(v) ==> v.code() == code,
    {
        match code {
            10 => Some(TlbCntrl::MovCr0),
            11 => Some(TlbCntrl::MovCr3),
            12 => Some(TlbCntrl::MovCr4),
            13 => Some(TlbCntrl::TaskSwitch),
            14 => Some(TlbCntrl::ContextSwitch),
            15 => Some(TlbCntrl::InvLpg),
            16 => Some(TlbCntrl::InvEpt),
            17 => Some(TlbCntrl::InvVpid),
            18 => Some(TlbCntrl::InvPcid),
            _ => None,
        }
    }
}

/// Cache control instruction.
#[derive(Copy, Clone, Debug, PartialEq, Eq, Hash, Structural)]
pub enum CacheCntrl {
    Invd,
    Wbind,
}

impl CacheCntrl {
    /// The core's code for this value.
    pub open spec fn code(self) -> u32 {
        match self {
            CacheCntrl::Invd => 10,
            CacheCntrl::Wbind => 11,
        }
    }

    /// Decodes the core's code; `None` for a code the protocol does not
    /// define.
    pub fn from_code(code: u32) -> (r: Option<CacheCntrl>)
        ensures
            r is None <==> !(10 <= code <= 11),
            r matches Some(v) ==> v.code() == code,
    {
        match code {
            10 => Some(CacheCntrl::Invd),
            11 => Some(CacheCntrl::Wbind),
            _ => None,
        }
    }
}

/// Prefetch locality hint.
#[derive(Copy, Clone, Debug, PartialEq, Eq, Hash, Structural)]
pub enum PrefetchHint {
    Nta,
    T0,
    T1,
    T2,
}

impl PrefetchHint {
    /// The core's code for this value.
    pub open spec fn code(self) -> u32 {
        match self {
            PrefetchHint::Nta => 0,
            PrefetchHint::T0 => 1,
            PrefetchHint::T1 => 2,
            PrefetchHint::T2 => 3,
        }
    }

    /// Decodes the core's code; `None` for a code the protocol does not
    /// define.
    pub fn from_code(code: u32) -> (r: Option<PrefetchHint>)
        ensures
            r is None <==> !(0 <= code <= 3),
            r matches Some(v) ==> v.code() == code,
    {
        match code {
            0 => Some(PrefetchHint::Nta),
            1 => Some(PrefetchHint::T0),
            2 => Some(PrefetchHint::T1),
            3 => Some(PrefetchHint::T2),
            _ => None,
        }
    }
}

/// Direction of a memory access.
#[derive(Copy, Clone, Debug, PartialEq, Eq, Hash, Structural)]
pub enum MemAccess {
    Read,
    Write,
    Execute,
    RW,
}

impl MemAccess {
    /// The core's code for this value.
    pub open spec fn code(self) -> u32 {
        match self {
            MemAccess::Read => 0,
            MemAccess::Write => 1,
            MemAccess::Execute => 2,
            MemAccess::RW => 3,
        }
    }

    /// Decodes the core's code; `None` for a code the protocol does not
    /// define.
    pub fn from_code(code: u32) -> (r: Option<MemAccess>)
        ensures
            r is None <==> !(0 <= code <= 3),
            r matches Some(v) ==> v.code() == code,
    {
        match code {
            0 => Some(MemAccess::Read),
            1 => Some(MemAccess::Write),
            2 => Some(MemAccess::Execute),
            3 => Some(MemAccess::RW),
            _ => None,
        }
    }
}

/// Memory type of an access.
#[derive(Copy, Clone, Debug, PartialEq, Eq, Hash, Structural)]
pub enum MemType {
    Uc,
    Wc,
    Reserved2,
    Reserved3,
    Wt,
    Wp,
    Wb,
    UcWeak,
    Invalid,
}

impl MemType {
    /// The core's code for this value.
    pub open spec fn code(self) -> u32 {
        match self {
            MemType::Uc => 0,
            MemType::Wc => 1,
            MemType::Reserved2 => 2,
            MemType::Reserved3 => 3,
            MemType::Wt => 4,
            MemType::Wp => 5,
            MemType::Wb => 6,
            MemType::UcWeak => 7,
            MemType::Invalid => 8,
        }
    }

    /// Decodes the core's code; `None` for a code the protocol does not
    /// define.
    pub fn from_code(code: u32) -> (r: Option<MemType>)
        ensures
            r is None <==> !(0 <= code <= 8),
            r matches Some(v) ==> v.code() == code,
    {
        match code {
            0 => Some(MemType::Uc),
            1 => Some(MemType::Wc),
            2 => Some(MemType::Reserved2),
            3 => Some(MemType::Reserved3),
            4 => Some(MemType::Wt),
            5 => Some(MemType::Wp),
            6 => Some(MemType::Wb),
            7 => Some(MemType::UcWeak),
            8 => Some(MemType::Invalid),
            _ => None,
        }
    }
}

/// One architectural event of a CPU, with its payload.
#[derive(Debug, PartialEq, Eq)]
#[allow(inconsistent_fields)]
pub enum Event {
    Reset(ResetSource),
    Hlt,
    Mwait { addr: PhyAddress, len: usize, flags: u32 },
    CnearBranchTaken { branch_pc: Address, new_pc: Address },
    CnearBranchNotTaken { pc: Address, new_pc: Address },
    UcnearBranch { what: Branch, branch_pc: Address, new_pc: Address },
    FarBranch { what: Branch, branch_pc: (u16, Address), new_pc: (u16, Address) },
    Opcode { ins: usize, opcode: Vec<u8>, is_32: bool, is_64: bool },
    Interrupt { vector: u32 },
    Exception { vector: u32, error_code: u32 },
    HwInterrupt { vector: u32, pc: (u16, Address) },
    TlbCntrl { what: TlbCntrl, new_cr: Option<PhyAddress> },
    CacheCntrl { what: CacheCntrl },
    PrefetchHint { what: PrefetchHint, seg: u32, off: Address },
    Clflush { vaddr: Address, paddr: PhyAddress },
    BeforeExecution { ins: usize },
    AfterExecution { ins: usize },
    RepeatIteration { ins: usize },
    LinAccess { vaddr: Address, paddr: Address, len: usize, memty: MemType, rw: MemAccess },
    PhyAccess { paddr: PhyAddress, len: usize, memty: MemType, rw: MemAccess },
    Cpuid,
    Wrmsr { msr: u32, val: u64 },
    Vmexit { reason: u32, qualification: u64 },
}

/// A port I/O event; the core gives it no CPU id.
#[derive(Copy, Clone, Debug, PartialEq, Eq, Structural)]
pub enum PortEvent {
    Inp { addr: u16, len: usize },
    Inp2 { addr: u16, len: usize, val: u32 },
    Outp { addr: u16, len: usize, val: u32 },
}

/// What an observer was told: an event of a CPU, or a port I/O event.
#[derive(Debug, PartialEq, Eq)]
#[allow(inconsistent_fields)]
pub enum Observed {
    Cpu { id: u32, event: Event },
    Port { event: PortEvent },
}

/// `after` is `before` with the opcode event of CPU `id` appended: its
/// instruction, bytes and mode flags as given.
pub open spec fn saw_opcode(
    before: Seq<Observed>,
    after: Seq<Observed>,
    id: u32,
    ins: usize,
    bytes: Seq<u8>,
    is_32: bool,
    is_64: bool,
) -> bool {
    &&& after.len() == before.len() + 1
    &&& after.take(before.len() as int) == before
    &&& match after.last() {
        Observed::Cpu { id: i, event: Event::Opcode { ins: a, opcode: o, is_32: b, is_64: c } } => {
            i == id && a == ins && o@ == bytes && b == is_32 && c == is_64
        },
        _ => false,
    }
}

/// `after` is `before` with `ev` of CPU `id` appended (an opcode event's
/// bytes compared by value).
pub open spec fn saw(before: Seq<Observed>, after: Seq<Observed>, id: u32, ev: Event) -> bool {
    match ev {
        Event::Opcode { ins, opcode, is_32, is_64 } => saw_opcode(
            before,
            after,
            id,
            ins,
            opcode@,
            is_32,
            is_64,
        ),
        _ => after == before.push(Observed::Cpu { id, event: ev }),
    }
}

/// An observer of architectural events, with one method per event. Each
/// method unless implemented hands its event to `note`; `seen` is what the
/// observer has been told, oldest first, and every method appends its own
/// event to it. An observer may change the run state of any CPU through
/// `ctl` (to request cancellation, say) but may not lower a raised kill flag.
///
/// An observer must not start a nested run of the CPU that is reporting
/// the event; nothing here checks that.
pub trait Hooks {
    /// What this observer has been told. An observer proved against this
    /// trait defines it as its own record. The default, which records
    /// nothing, only lets observers written outside the proof compile; such
    /// an observer does not meet these contracts and nothing checks it.
    open spec fn seen(&self) -> Seq<Observed> {
        Seq::empty()
    }

    /// Receives every event whose own method is not implemented.
    fn note(&mut self, ctl: &mut CpuStates, what: &Observed)
        requires
            old(ctl).wf(),
        ensures
            hook_step(*old(ctl), *final(ctl)),
            final(self).seen() == old(self).seen().push(*what),
    ;

    fn reset(&mut self, ctl: &mut CpuStates, id: u32, ty: ResetSource)
        requires
            old(ctl).wf(),
        ensures
            hook_step(*old(ctl), *final(ctl)),
            saw(old(self).seen(), final(self).seen(), id, Event::Reset(ty)),
    {
        self.note(ctl, &Observed::Cpu { id, event: Event::Reset(ty) });
    }

    fn hlt(&mut self, ctl: &mut CpuStates, id: u32)
        requires
            old(ctl).wf(),
        ensures
            hook_step(*old(ctl), *final(ctl)),
            saw(old(self).seen(), final(self).seen(), id, Event::Hlt),
    {
        self.note(ctl, &Observed::Cpu { id, event: Event::Hlt });
    }

    fn mwait(&mut self, ctl: &mut CpuStates, id: u32, addr: PhyAddress, len: usize, flags: u32)
        requires
            old(ctl).wf(),
        ensures
            hook_step(*old(ctl), *final(ctl)),
            saw(old(self).seen(), final(self).seen(), id, Event::Mwait { addr, len, flags }),
    {
        self.note(ctl, &Observed::Cpu { id, event: Event::Mwait { addr, len, flags } });
    }

    fn cnear_branch_taken(&mut self, ctl: &mut CpuStates, id: u32, branch_pc: Address, new_pc: Address)
        requires
            old(ctl).wf(),
        ensures
            hook_step(*old(ctl), *final(ctl)),
            saw(old(self).seen(), final(self).seen(), id, Event::CnearBranchTaken { branch_pc, new_pc }),
    {
        self.note(ctl, &Observed::Cpu { id, event: Event::CnearBranchTaken { branch_pc, new_pc } });
    }

    fn cnear_branch_not_taken(&mut self, ctl: &mut CpuStates, id: u32, pc: Address, new_pc: Address)
        requires
            old(ctl).wf(),
        ensures
            hook_step(*old(ctl), *final(ctl)),
            saw(old(self).seen(), final(self).seen(), id, Event::CnearBranchNotTaken { pc, new_pc }),
    {
        self.note(ctl, &Observed::Cpu { id, event: Event::CnearBranchNotTaken { pc, new_pc } });
    }

    fn ucnear_branch(&mut self, ctl: &mut CpuStates, id: u32, what: Branch, branch_pc: Address, new_pc: Address)
        requires
            old(ctl).wf(),
        ensures
            hook_step(*old(ctl), *final(ctl)),
            saw(old(self).seen(), final(self).seen(), id, Event::UcnearBranch { what, branch_pc, new_pc }),
    {
        self.note(ctl, &Observed::Cpu { id, event: Event::UcnearBranch { what, branch_pc, new_pc } });
    }

    fn far_branch(&mut self, ctl: &mut CpuStates, id: u32, what: Branch, branch_pc: (u16, Address), new_pc: (u16, Address))
        requires
            old(ctl).wf(),
        ensures
            hook_step(*old(ctl), *final(ctl)),
            saw(old(self).seen(), final(self).seen(), id, Event::FarBranch { what, branch_pc, new_pc }),
    {
        self.note(ctl, &Observed::Cpu { id, event: Event::FarBranch { what, branch_pc, new_pc } });
    }

    fn opcode(&mut self, ctl: &mut CpuStates, id: u32, ins: usize, opcode: &[u8], is_32: bool, is_64: bool)
        requires
            old(ctl).wf(),
        ensures
            hook_step(*old(ctl), *final(ctl)),
            saw_opcode(old(self).seen(), final(self).seen(), id, ins, opcode@, is_32, is_64),
    {
        let ghost before = self.seen();
        let bytes = vstd::slice::slice_to_vec(opcode);
        self.note(ctl, &Observed::Cpu { id, event: Event::Opcode { ins, opcode: bytes, is_32, is_64 } });
        assert(self.seen().take(before.len() as int) =~= before);
    }

    fn interrupt(&mut self, ctl: &mut CpuStates, id: u32, vector: u32)
        requires
            old(ctl).wf(),
        ensures
            hook_step(*old(ctl), *final(ctl)),
            saw(old(self).seen(), final(self).seen(), id, Event::Interrupt { vector }),
    {
        self.note(ctl, &Observed::Cpu { id, event: Event::Interrupt { vector } });
    }

    fn exception(&mut self, ctl: &mut CpuStates, id: u32, vector: u32, error_code: u32)
        requires
            old(ctl).wf(),
        ensures
            hook_step(*old(ctl), *final(ctl)),
            saw(old(self).seen(), final(self).seen(), id, Event::Exception { vector, error_code }),
    {
        self.note(ctl, &Observed::Cpu { id, event: Event::Exception { vector, error_code } });
    }

    fn hw_interrupt(&mut self, ctl: &mut CpuStates, id: u32, vector: u32, pc: (u16, Address))
        requires
            old(ctl).wf(),
        ensures
            hook_step(*old(ctl), *final(ctl)),
            saw(old(self).seen(), final(self).seen(), id, Event::HwInterrupt { vector, pc }),
    {
        self.note(ctl, &Observed::Cpu { id, event: Event::HwInterrupt { vector, pc } });
    }

    fn tlb_cntrl(&mut self, ctl: &mut CpuStates, id: u32, what: TlbCntrl, new_cr: Option<PhyAddress>)
        requires
            old(ctl).wf(),
        ensures
            hook_step(*old(ctl), *final(ctl)),
            saw(old(self).seen(), final(self).seen(), id, Event::TlbCntrl { what, new_cr }),
    {
        self.note(ctl, &Observed::Cpu { id, event: Event::TlbCntrl { what, new_cr } });
    }

    fn cache_cntrl(&mut self, ctl: &mut CpuStates, id: u32, what: CacheCntrl)
        requires
            old(ctl).wf(),
        ensures
            hook_step(*old(ctl), *final(ctl)),
            saw(old(self).seen(), final(self).seen(), id, Event::CacheCntrl { what }),
    {
        self.note(ctl, &Observed::Cpu { id, event: Event::CacheCntrl { what } });
    }

    fn prefetch_hint(&mut self, ctl: &mut CpuStates, id: u32, what: PrefetchHint, seg: u32, off: Address)
        requires
            old(ctl).wf(),
        ensures
            hook_step(*old(ctl), *final(ctl)),
            saw(old(self).seen(), final(self).seen(), id, Event::PrefetchHint { what, seg, off }),
    {
        self.note(ctl, &Observed::Cpu { id, event: Event::PrefetchHint { what, seg, off } });
    }

    fn clflush(&mut self, ctl: &mut CpuStates, id: u32, vaddr: Address, paddr: PhyAddress)
        requires
            old(ctl).wf(),
        ensures
            hook_step(*old(ctl), *final(ctl)),
            saw(old(self).seen(), final(self).seen(), id, Event::Clflush { vaddr, paddr }),
    {
        self.note(ctl, &Observed::Cpu { id, event: Event::Clflush { vaddr, paddr } });
    }

    fn before_execution(&mut self, ctl: &mut CpuStates, id: u32, ins: usize)
        requires
            old(ctl).wf(),
        ensures
            hook_step(*old(ctl), *final(ctl)),
            saw(old(self).seen(), final(self).seen(), id, Event::BeforeExecution { ins }),
    {
        self.note(ctl, &Observed::Cpu { id, event: Event::BeforeExecution { ins } });
    }

    fn after_execution(&mut self, ctl: &mut CpuStates, id: u32, ins: usize)
        requires
            old(ctl).wf(),
        ensures
            hook_step(*old(ctl), *final(ctl)),
            saw(old(self).seen(), final(self).seen(), id, Event::AfterExecution { ins }),
    {
        self.note(ctl, &Observed::Cpu { id, event: Event::AfterExecution { ins } });
    }

    fn repeat_iteration(&mut self, ctl: &mut CpuStates, id: u32, ins: usize)
        requires
            old(ctl).wf(),
        ensures
            hook_step(*old(ctl), *final(ctl)),
            saw(old(self).seen(), final(self).seen(), id, Event::RepeatIteration { ins }),
    {
        self.note(ctl, &Observed::Cpu { id, event: Event::RepeatIteration { ins } });
    }

    fn lin_access(&mut self, ctl: &mut CpuStates, id: u32, vaddr: Address, paddr: Address, len: usize, memty: MemType, rw: MemAccess)
        requires
            old(ctl).wf(),
        ensures
            hook_step(*old(ctl), *final(ctl)),
            saw(old(self).seen(), final(self).seen(), id, Event::LinAccess { vaddr, paddr, len, memty, rw }),
    {
        self.note(ctl, &Observed::Cpu { id, event: Event::LinAccess { vaddr, paddr, len, memty, rw } });
    }

    fn phy_access(&mut self, ctl: &mut CpuStates, id: u32, paddr: PhyAddress, len: usize, memty: MemType, rw: MemAccess)
        requires
            old(ctl).wf(),
        ensures
            hook_step(*old(ctl), *final(ctl)),
            saw(old(self).seen(), final(self).seen(), id, Event::PhyAccess { paddr, len, memty, rw }),
    {
        self.note(ctl, &Observed::Cpu { id, event: Event::PhyAccess { paddr, len, memty, rw } });
    }

    fn cpuid(&mut self, ctl: &mut CpuStates, id: u32)
        requires
            old(ctl).wf(),
        ensures
            hook_step(*old(ctl), *final(ctl)),
            saw(old(self).seen(), final(self).seen(), id, Event::Cpuid),
    {
        self.note(ctl, &Observed::Cpu { id, event: Event::Cpuid });
    }

    fn wrmsr(&mut self, ctl: &mut CpuStates, id: u32, msr: u32, val: u64)
        requires
            old(ctl).wf(),
        ensures
            hook_step(*old(ctl), *final(ctl)),
            saw(old(self).seen(), final(self).seen(), id, Event::Wrmsr { msr, val }),
    {
        self.note(ctl, &Observed::Cpu { id, event: Event::Wrmsr { msr, val } });
    }

    fn vmexit(&mut self, ctl: &mut CpuStates, id: u32, reason: u32, qualification: u64)
        requires
            old(ctl).wf(),
        ensures
            hook_step(*old(ctl), *final(ctl)),
            saw(old(self).seen(), final(self).seen(), id, Event::Vmexit { reason, qualification }),
    {
        self.note(ctl, &Observed::Cpu { id, event: Event::Vmexit { reason, qualification } });
    }

    fn inp(&mut self, ctl: &mut CpuStates, addr: u16, len: usize)
        requires
            old(ctl).wf(),
        ensures
            hook_step(*old(ctl), *final(ctl)),
            final(self).seen() == old(self).seen().push(Observed::Port { event: PortEvent::Inp { addr, len } }),
    {
        self.note(ctl, &Observed::Port { event: PortEvent::Inp { addr, len } });
    }

    fn inp2(&mut self, ctl: &mut CpuStates, addr: u16, len: usize, val: u32)
        requires
            old(ctl).wf(),
        ensures
            hook_step(*old(ctl), *final(ctl)),
            final(self).seen() == old(self).seen().push(Observed::Port { event: PortEvent::Inp2 { addr, len, val } }),
    {
        self.note(ctl, &Observed::Port { event: PortEvent::Inp2 { addr, len, val } });
    }

    fn outp(&mut self, ctl: &mut CpuStates, addr: u16, len: usize, val: u32)
        requires
            old(ctl).wf(),
        ensures
            hook_step(*old(ctl), *final(ctl)),
            final(self).seen() == old(self).seen().push(Observed::Port { event: PortEvent::Outp { addr, len, val } }),
    {
        self.note(ctl, &Observed::Port { event: PortEvent::Outp { addr, len, val } });
    }
}

/// Whether a TLB control of kind `what` loads a new control-register
/// value: moves to CR0, CR3 or CR4, and task switches.
pub open spec fn loads_cr(what: TlbCntrl) -> bool {
    match what {
        TlbCntrl::MovCr0 | TlbCntrl::MovCr3 | TlbCntrl::MovCr4 | TlbCntrl::TaskSwitch => true,
        _ => false,
    }
}

/// The TLB control event of kind `what`; it carries `new_cr` only for the
/// kinds that load a control register.
pub fn tlb_cntrl_event(what: TlbCntrl, new_cr: PhyAddress) -> (r: Event)
    ensures
        r == (Event::TlbCntrl {
            what,
            new_cr: if loads_cr(what) {
                Some(new_cr)
            } else {
                None
            },
        }),
{
    let carried = match what {
        TlbCntrl::MovCr0 | TlbCntrl::MovCr3 | TlbCntrl::MovCr4 | TlbCntrl::TaskSwitch => Some(
            new_cr,
        ),
        _ => None,
    };
    Event::TlbCntrl { what, new_cr: carried }
}

/// What an observer may do to the run-state table: keep it well formed and
/// never lower a raised kill flag.
pub open spec fn hook_step(before: CpuStates, after: CpuStates) -> bool {
    &&& after.wf()
    &&& forall|c: u32| #[trigger] before.cancel_requested(c) ==> after.cancel_requested(c)
}

/// What the caller of a dispatch point must do next.
#[derive(Copy, Clone, Debug, PartialEq, Eq, Structural)]
pub enum Dispatch {
    /// Let the core go on.
    Continue,
    /// Cancellation was requested: abandon the run invocation now.
    Bail,
}

/// Whether dispatching `event` of CPU `id` reaches the observers: not once
/// the CPU's kill flag is raised, and not for a hardware reset, which the
/// core raises while the CPU is still half built.
pub open spec fn delivers(ctl: CpuStates, id: u32, event: Event) -> bool {
    &&& !ctl.cancel_requested(id)
    &&& !(event matches Event::Reset(ResetSource::Hardware))
}

/// Whether a port event raised while CPU `running` executes reaches the
/// observers: not once that CPU's kill flag is raised.
pub open spec fn delivers_port(ctl: CpuStates, running: u32) -> bool {
    !ctl.cancel_requested(running)
}

fn deliver<H: Hooks>(h: &mut H, ctl: &mut CpuStates, id: u32, ev: &Event)
    requires
        old(ctl).wf(),
    ensures
        hook_step(*old(ctl), *final(ctl)),
        saw(old(h).seen(), final(h).seen(), id, *ev),
{
    match ev {
        Event::Reset(ty) => h.reset(ctl, id, *ty),
        Event::Hlt => h.hlt(ctl, id),
        Event::Mwait { addr, len, flags } => h.mwait(ctl, id, *addr, *len, *flags),
        Event::CnearBranchTaken { branch_pc, new_pc } => h.cnear_branch_taken(ctl, id, *branch_pc, *new_pc),
        Event::CnearBranchNotTaken { pc, new_pc } => h.cnear_branch_not_taken(ctl, id, *pc, *new_pc),
        Event::UcnearBranch { what, branch_pc, new_pc } => h.ucnear_branch(ctl, id, *what, *branch_pc, *new_pc),
        Event::FarBranch { what, branch_pc, new_pc } => h.far_branch(ctl, id, *what, *branch_pc, *new_pc),
        Event::Opcode { ins, opcode, is_32, is_64 } => h.opcode(ctl, id, *ins, opcode.as_slice(), *is_32, *is_64),
        Event::Interrupt { vector } => h.interrupt(ctl, id, *vector),
        Event::Exception { vector, error_code } => h.exception(ctl, id, *vector, *error_code),
        Event::HwInterrupt { vector, pc } => h.hw_interrupt(ctl, id, *vector, *pc),
        Event::TlbCntrl { what, new_cr } => h.tlb_cntrl(ctl, id, *what, *new_cr),
        Event::CacheCntrl { what } => h.cache_cntrl(ctl, id, *what),
        Event::PrefetchHint { what, seg, off } => h.prefetch_hint(ctl, id, *what, *seg, *off),
        Event::Clflush { vaddr, paddr } => h.clflush(ctl, id, *vaddr, *paddr),
        Event::BeforeExecution { ins } => h.before_execution(ctl, id, *ins),
        Event::AfterExecution { ins } => h.after_execution(ctl, id, *ins),
        Event::RepeatIteration { ins } => h.repeat_iteration(ctl, id, *ins),
        Event::LinAccess { vaddr, paddr, len, memty, rw } => h.lin_access(ctl, id, *vaddr, *paddr, *len, *memty, *rw),
        Event::PhyAccess { paddr, len, memty, rw } => h.phy_access(ctl, id, *paddr, *len, *memty, *rw),
        Event::Cpuid => h.cpuid(ctl, id),
        Event::Wrmsr { msr, val } => h.wrmsr(ctl, id, *msr, *val),
        Event::Vmexit { reason, qualification } => h.vmexit(ctl, id, *reason, *qualification),
    }
}

fn deliver_port<H: Hooks>(h: &mut H, ctl: &mut CpuStates, ev: &PortEvent)
    requires
        old(ctl).wf(),
    ensures
        hook_step(*old(ctl), *final(ctl)),
        final(h).seen() == old(h).seen().push(Observed::Port { event: *ev }),
{
    match ev {
        PortEvent::Inp { addr, len } => h.inp(ctl, *addr, *len),
        PortEvent::Inp2 { addr, len, val } => h.inp2(ctl, *addr, *len, *val),
        PortEvent::Outp { addr, len, val } => h.outp(ctl, *addr, *len, *val),
    }
}

/// `n` calls handing `what` to observers `0, 1, ..., n - 1`, in that order.
pub open spec fn fan_out(n: int, what: Observed) -> Seq<(int, Observed)> {
    Seq::new(n as nat, |k: int| (k, what))
}

/// The observers of one run invocation.
pub struct HookRegistry<H: Hooks> {
    observers: Vec<H>,
    /// Every observer call made, in order: the observer's index and what it
    /// was handed. Only `call_one` and `call_one_port`, which make the call,
    /// extend it.
    calls: Ghost<Seq<(int, Observed)>>,
}

impl<H: Hooks> HookRegistry<H> {
    /// The registered observers, in registration order.
    pub closed spec fn observers(&self) -> Seq<H> {
        self.observers@
    }

    /// The number of registered observers.
    pub open spec fn len(&self) -> int {
        self.observers().len() as int
    }

    /// Every observer call made so far, oldest first.
    pub closed spec fn calls(&self) -> Seq<(int, Observed)> {
        self.calls@
    }

    pub fn new() -> (r: HookRegistry<H>)
        ensures
            r.observers() == Seq::<H>::empty(),
            r.calls() == Seq::<(int, Observed)>::empty(),
    {
        HookRegistry { observers: Vec::new(), calls: Ghost(Seq::empty()) }
    }

    pub fn count(&self) -> (r: usize)
        ensures
            r == self.len(),
    {
        self.observers.len()
    }

    /// Adds `h` after the observers already registered.
    pub fn register(&mut self, h: H)
        ensures
            final(self).observers() == old(self).observers().push(h),
            final(self).calls() == old(self).calls(),
    {
        self.observers.push(h);
    }

    /// Removes every observer and hands them back in registration order.
    pub fn clear(&mut self) -> (r: Vec<H>)
        ensures
            final(self).observers() == Seq::<H>::empty(),
            r@ == old(self).observers(),
            final(self).calls() == old(self).calls(),
    {
        let mut out: Vec<H> = Vec::new();
        std::mem::swap(&mut out, &mut self.observers);
        assert(self.observers@ =~= Seq::<H>::empty());
        out
    }

    /// Hands `ev` of CPU `id` to observer `i` and records that call.
    fn call_one(&mut self, i: usize, ctl: &mut CpuStates, id: u32, ev: &Event)
        requires
            i < old(self).len(),
            old(ctl).wf(),
        ensures
            hook_step(*old(ctl), *final(ctl)),
            final(self).len() == old(self).len(),
            saw(old(self).observers()[i as int].seen(), final(self).observers()[i as int].seen(), id, *ev),
            forall|j: int| 0 <= j < old(self).len() && j != i ==> #[trigger] final(self).observers()[j]
                == old(self).observers()[j],
            final(self).calls() == old(self).calls().push((i as int, Observed::Cpu { id, event: *ev })),
    {
        deliver(&mut self.observers[i], ctl, id, ev);
        proof {
            self.calls@ = self.calls@.push((i as int, Observed::Cpu { id, event: *ev }));
        }
    }

    /// Hands port event `ev` to observer `i` and records that call.
    fn call_one_port(&mut self, i: usize, ctl: &mut CpuStates, ev: &PortEvent)
        requires
            i < old(self).len(),
            old(ctl).wf(),
        ensures
            hook_step(*old(ctl), *final(ctl)),
            final(self).len() == old(self).len(),
            final(self).observers()[i as int].seen() == old(self).observers()[i as int].seen().push(
                Observed::Port { event: *ev },
            ),
            forall|j: int| 0 <= j < old(self).len() && j != i ==> #[trigger] final(self).observers()[j]
                == old(self).observers()[j],
            final(self).calls() == old(self).calls().push((i as int, Observed::Port { event: *ev })),
    {
        deliver_port(&mut self.observers[i], ctl, ev);
        proof {
            self.calls@ = self.calls@.push((i as int, Observed::Port { event: *ev }));
        }
    }

    /// A dispatch point for an event of CPU `id`: unless `delivers` says
    /// otherwise, hands `ev` to every observer, one after the other in
    /// registration order, each once; then reports `Bail` exactly when the
    /// CPU's kill flag is raised.
    pub fn fire(&mut self, ctl: &mut CpuStates, id: u32, ev: &Event) -> (r: Dispatch)
        requires
            old(ctl).wf(),
            (id as int) < NUM_CPUS,
        ensures
            hook_step(*old(ctl), *final(ctl)),
            final(self).len() == old(self).len(),
            delivers(*old(ctl), id, *ev) ==> forall|i: int|
                0 <= i < old(self).len() ==> #[trigger] saw(
                    old(self).observers()[i].seen(),
                    final(self).observers()[i].seen(),
                    id,
                    *ev,
                ),
            delivers(*old(ctl), id, *ev) ==> final(self).calls() == old(self).calls() + fan_out(
                old(self).len(),
                Observed::Cpu { id, event: *ev },
            ),
            !delivers(*old(ctl), id, *ev) ==> final(self).observers() == old(self).observers()
                && *final(ctl) == *old(ctl) && final(self).calls() == old(self).calls(),
            r == (if final(ctl).cancel_requested(id) {
                Dispatch::Bail
            } else {
                Dispatch::Continue
            }),
    {
        if ctl.cancel_requested_exec(id) {
            return Dispatch::Bail;
        }
        if let Event::Reset(ResetSource::Hardware) = ev {
            return Dispatch::Continue;
        }
        let ghost start_ctl = *ctl;
        let ghost start = self.observers@;
        let ghost start_calls = self.calls@;
        let n = self.observers.len();
        let mut i: usize = 0;
        while i < n
            invariant
                i <= n,
                n == start.len(),
                self.observers@.len() == n,
                ctl.wf(),
                hook_step(start_ctl, *ctl),
                forall|j: int| 0 <= j < i ==> #[trigger] saw(start[j].seen(), self.observers@[j].seen(), id, *ev),
                forall|j: int| i <= j < n ==> #[trigger] self.observers@[j] == start[j],
                self.calls@ == start_calls + fan_out(i as int, Observed::Cpu { id, event: *ev }),
            decreases n - i,
        {
            let ghost before = *ctl;
            let ghost before_obs = self.observers@;
            self.call_one(i, ctl, id, ev);
            proof {
                assert forall|j: int| 0 <= j < i implies #[trigger] saw(start[j].seen(), self.observers@[j].seen(), id, *ev) by {
                    assert(self.observers()[j] == before_obs[j]);
                }
                assert forall|j: int| i + 1 <= j < n implies #[trigger] self.observers@[j] == start[j] by {
                    assert(self.observers()[j] == before_obs[j]);
                }
                assert(self.calls@ =~= start_calls + fan_out(i + 1, Observed::Cpu { id, event: *ev }));
                assert forall|c: u32| #[trigger] start_ctl.cancel_requested(c) implies ctl.cancel_requested(c) by {
                    assert(before.cancel_requested(c));
                }
            }
            i = i + 1;
        }
        if ctl.cancel_requested_exec(id) {
            Dispatch::Bail
        } else {
            Dispatch::Continue
        }
    }

    /// A dispatch point for a port I/O event, raised while CPU `running`
    /// executes. The core gives such an event no CPU id, so it cannot report
    /// cancellation; it reaches no observer once `running`'s kill flag is
    /// raised, and otherwise goes to every observer, in registration order,
    /// each once.
    pub fn fire_port(&mut self, ctl: &mut CpuStates, running: u32, ev: PortEvent)
        requires
            old(ctl).wf(),
            (running as int) < NUM_CPUS,
        ensures
            hook_step(*old(ctl), *final(ctl)),
            final(self).len() == old(self).len(),
            delivers_port(*old(ctl), running) ==> forall|i: int|
                0 <= i < old(self).len() ==> #[trigger] final(self).observers()[i].seen() == old(
                    self,
                ).observers()[i].seen().push(Observed::Port { event: ev }),
            delivers_port(*old(ctl), running) ==> final(self).calls() == old(self).calls() + fan_out(
                old(self).len(),
                Observed::Port { event: ev },
            ),
            !delivers_port(*old(ctl), running) ==> final(self).observers() == old(self).observers()
                && *final(ctl) == *old(ctl) && final(self).calls() == old(self).calls(),
    {
        if ctl.cancel_requested_exec(running) {
            return;
        }
        let ghost start_ctl = *ctl;
        let ghost start = self.observers@;
        let ghost start_calls = self.calls@;
        let n = self.observers.len();
        let mut i: usize = 0;
        while i < n
            invariant
                i <= n,
                n == start.len(),
                self.observers@.len() == n,
                ctl.wf(),
                hook_step(start_ctl, *ctl),
                forall|j: int| 0 <= j < i ==> #[trigger] self.observers@[j].seen() == start[j].seen().push(Observed::Port { event: ev }),
                forall|j: int| i <= j < n ==> #[trigger] self.observers@[j] == start[j],
                self.calls@ == start_calls + fan_out(i as int, Observed::Port { event: ev }),
            decreases n - i,
        {
            let ghost before = *ctl;
            let ghost before_obs = self.observers@;
            self.call_one_port(i, ctl, &ev);
            proof {
                assert forall|j: int| 0 <= j < i implies #[trigger] self.observers@[j].seen() == start[j].seen().push(Observed::Port { event: ev }) by {
                    assert(self.observers()[j] == before_obs[j]);
                }
                assert forall|j: int| i + 1 <= j < n implies #[trigger] self.observers@[j] == start[j] by {
                    assert(self.observers()[j] == before_obs[j]);
                }
                assert(self.calls@ =~= start_calls + fan_out(i + 1, Observed::Port { event: ev }));
                assert forall|c: u32| #[trigger] start_ctl.cancel_requested(c) implies ctl.cancel_requested(c) by {
                    assert(before.cancel_requested(c));
                }
            }
            i = i + 1;
        }
    }
}

/// Once a CPU's cancellation is requested, whatever observers do next
/// cannot withdraw it, and no later event of that CPU, nor any port event
/// raised while it runs, reaches any observer.
pub proof fn lemma_cancel_stops_delivery(before: CpuStates, after: CpuStates, id: u32, ev: Event)
    requires
        before.cancel_requested(id),
        hook_step(before, after),
    ensures
        after.cancel_requested(id),
        !delivers(after, id, ev),
        !delivers_port(after, id),
{
}

} // verus!
