//! Per-CPU run state, the cancellation flag, the seeded generator handed to
//! the emulation core, and the decisions of the run loop.
//!
//! All per-CPU data lives in one `CpuStates` table sized to `NUM_CPUS` and
//! passed explicitly to whatever needs it. The table mirrors the core's kill
//! flag: every change of run state says whether that flag must be raised.

use vstd::prelude::*;

use crate::bytes::{le_bytes, le_u64, u64_from_le, u64_to_le};
use crate::{Address, NUM_CPUS};

verus! {

/// Execution state of one virtual CPU.
#[derive(Copy, Clone, Debug, PartialEq, Eq, Hash, Structural)]
pub enum RunState {
    /// The run loop keeps stepping instructions.
    Go,
    /// The CPU is stopped; the run loop returns.
    Stop,
    /// Cancellation was requested from inside a callback.
    Bail,
}

/// One slot of the per-CPU table.
#[derive(Copy, Clone, Debug, PartialEq, Eq, Hash, Structural)]
pub struct Tracking {
    pub seed: u64,
    pub state: RunState,
    /// Mirror of the core's kill flag: raised by every state but `Go`.
    pub kill: bool,
}

/// The table of per-CPU run state, one slot per CPU id.
pub struct CpuStates {
    tracking: Vec<Tracking>,
}

/// Name for the BLAKE3 digest of a byte string.
pub uninterp spec fn blake3_of(input: Seq<u8>) -> Seq<u8>;

/// Relies on `blake3::hash` and `Hash::as_bytes`: the 32-byte BLAKE3 digest
/// of `input`.
#[verifier::external_body]
fn blake3_hash(input: &[u8]) -> (r: Vec<u8>)
    ensures
        r@ == blake3_of(input@),
        r@.len() == 32,
{
    blake3::hash(input).as_bytes().to_vec()
}

/// Splits a digest into the next seed (its first eight bytes) and the value
/// handed out (the next eight), both little-endian.
pub fn rand_from_digest(digest: &[u8]) -> (r: (u64, u64))
    requires
        digest@.len() >= 16,
    ensures
        r.0 == le_u64(digest@, 0),
        r.1 == le_u64(digest@, 8),
{
    (u64_from_le(digest, 0), u64_from_le(digest, 8))
}

impl Tracking {
    pub open spec fn spec_default() -> Tracking {
        Tracking { seed: 0, state: RunState::Stop, kill: false }
    }
}

impl Default for Tracking {
    fn default() -> (r: Tracking)
        ensures
            r == Tracking::spec_default(),
    {
        Tracking { seed: 0, state: RunState::Stop, kill: false }
    }
}

impl CpuStates {
    pub closed spec fn view(&self) -> Seq<Tracking> {
        self.tracking@
    }

    pub open spec fn len(&self) -> int {
        self@.len() as int
    }

    pub open spec fn wf(&self) -> bool {
        self.len() == NUM_CPUS
    }

    pub open spec fn state_of(&self, id: u32) -> RunState {
        self@[id as int].state
    }

    pub open spec fn seed_of(&self, id: u32) -> u64 {
        self@[id as int].seed
    }

    /// Whether the kill flag of `id` is raised: the run loop and every
    /// dispatch point must stop.
    pub open spec fn cancel_requested(&self, id: u32) -> bool {
        self@[id as int].kill
    }

    /// A table of `NUM_CPUS` stopped CPUs, seeds zero, kill flags down.
    pub fn new() -> (r: CpuStates)
        ensures
            r.wf(),
            forall|i: int| 0 <= i < NUM_CPUS ==> #[trigger] r@[i] == Tracking::spec_default(),
    {
        let mut tracking: Vec<Tracking> = Vec::new();
        let mut i: usize = 0;
        while i < NUM_CPUS
            invariant
                i <= NUM_CPUS,
                tracking@.len() == i,
                forall|j: int| 0 <= j < i ==> #[trigger] tracking@[j] == Tracking::spec_default(),
            decreases NUM_CPUS - i,
        {
            tracking.push(Tracking::default());
            i = i + 1;
        }
        CpuStates { tracking }
    }

    pub fn run_state(&self, id: u32) -> (r: RunState)
        requires
            self.wf(),
            (id as int) < NUM_CPUS,
        ensures
            r == self.state_of(id),
    {
        self.tracking[id as usize].state
    }

    pub fn cancel_requested_exec(&self, id: u32) -> (r: bool)
        requires
            self.wf(),
            (id as int) < NUM_CPUS,
        ensures
            r == self.cancel_requested(id),
    {
        self.tracking[id as usize].kill
    }

    /// Records `rs` for `id`; `Stop` and `Bail` raise the kill flag, `Go`
    /// lowers it. Returns the new flag, for the core's copy of it.
    pub fn set_run_state(&mut self, id: u32, rs: RunState) -> (r: bool)
        requires
            old(self).wf(),
            (id as int) < NUM_CPUS,
        ensures
            final(self).wf(),
            r == (rs != RunState::Go),
            final(self)@ == old(self)@.update(
                id as int,
                Tracking { seed: old(self).seed_of(id), state: rs, kill: r },
            ),
    {
        let kill = match rs {
            RunState::Go => false,
            _ => true,
        };
        let seed = self.tracking[id as usize].seed;
        self.tracking.set(id as usize, Tracking { seed, state: rs, kill });
        kill
    }

    pub fn seed(&self, id: u32) -> (r: u64)
        requires
            self.wf(),
            (id as int) < NUM_CPUS,
        ensures
            r == self.seed_of(id),
    {
        self.tracking[id as usize].seed
    }

    pub fn set_seed(&mut self, id: u32, seed: u64)
        requires
            old(self).wf(),
            (id as int) < NUM_CPUS,
        ensures
            final(self).wf(),
            final(self)@ == old(self)@.update(
                id as int,
                Tracking { seed, state: old(self).state_of(id), kill: old(self).cancel_requested(id) },
            ),
    {
        let t = self.tracking[id as usize];
        self.tracking.set(id as usize, Tracking { seed, state: t.state, kill: t.kill });
    }

    /// The seeded generator of `id`: hashes the little-endian seed, keeps the
    /// digest's first eight bytes as the new seed and returns the next eight.
    pub fn rand(&mut self, id: u32) -> (r: u64)
        requires
            old(self).wf(),
            (id as int) < NUM_CPUS,
        ensures
            final(self).wf(),
            blake3_of(le_bytes(old(self).seed_of(id))).len() == 32,
            r == le_u64(blake3_of(le_bytes(old(self).seed_of(id))), 8),
            final(self)@ == old(self)@.update(
                id as int,
                Tracking {
                    seed: le_u64(blake3_of(le_bytes(old(self).seed_of(id))), 0),
                    ..old(self)@[id as int]
                },
            ),
    {
        let seed = self.seed(id);
        let bytes = u64_to_le(seed);
        let digest = blake3_hash(bytes.as_slice());
        let (next, out) = rand_from_digest(digest.as_slice());
        self.set_seed(id, next);
        out
    }
}

/// A handle on one virtual CPU slot.
#[derive(Debug)]
pub struct Cpu {
    handle: u32,
}

/// What the run loop does next.
#[derive(Copy, Clone, Debug, PartialEq, Eq, Structural)]
pub enum RunStep {
    /// Step the core's instruction loop once more.
    Continue,
    /// Return this state to the caller.
    Finished(RunState),
}

/// A prepared run of one CPU.
pub struct CpuRun<'a> {
    cpu: &'a Cpu,
}

impl Cpu {
    pub closed spec fn spec_id(&self) -> u32 {
        self.handle
    }

    /// A handle on an existing CPU slot.
    pub fn from(id: u32) -> (r: Cpu)
        ensures
            r.spec_id() == id,
    {
        Cpu { handle: id }
    }

    pub fn id(&self) -> (r: u32)
        ensures
            r == self.spec_id(),
    {
        self.handle
    }

    pub fn prepare(&self) -> (r: CpuRun<'_>)
        ensures
            r.spec_cpu() == self.spec_id(),
    {
        CpuRun::new(self)
    }

    pub fn run_state(&self, states: &CpuStates) -> (r: RunState)
        requires
            states.wf(),
            (self.spec_id() as int) < NUM_CPUS,
        ensures
            r == states.state_of(self.spec_id()),
    {
        states.run_state(self.handle)
    }

    /// Records `rs` for this CPU; returns the kill flag to hand the core.
    pub fn set_run_state(&self, states: &mut CpuStates, rs: RunState) -> (r: bool)
        requires
            old(states).wf(),
            (self.spec_id() as int) < NUM_CPUS,
        ensures
            final(states).wf(),
            r == (rs != RunState::Go),
            final(states)@ == old(states)@.update(
                self.spec_id() as int,
                Tracking { seed: old(states).seed_of(self.spec_id()), state: rs, kill: r },
            ),
    {
        states.set_run_state(self.handle, rs)
    }

    pub fn seed(&self, states: &CpuStates) -> (r: u64)
        requires
            states.wf(),
            (self.spec_id() as int) < NUM_CPUS,
        ensures
            r == states.seed_of(self.spec_id()),
    {
        states.seed(self.handle)
    }

    pub fn set_seed(&self, states: &mut CpuStates, new_seed: u64)
        requires
            old(states).wf(),
            (self.spec_id() as int) < NUM_CPUS,
        ensures
            final(states).wf(),
            final(states)@ == old(states)@.update(
                self.spec_id() as int,
                Tracking {
                    seed: new_seed,
                    state: old(states).state_of(self.spec_id()),
                    kill: old(states).cancel_requested(self.spec_id()),
                },
            ),
    {
        states.set_seed(self.handle, new_seed)
    }
}

impl<'a> CpuRun<'a> {
    pub closed spec fn spec_cpu(&self) -> u32 {
        self.cpu.handle
    }

    pub fn new(cpu: &'a Cpu) -> (r: CpuRun<'a>)
        ensures
            r.spec_cpu() == cpu.spec_id(),
    {
        CpuRun { cpu }
    }

    pub fn cpu_id(&self) -> (r: u32)
        ensures
            r == self.spec_cpu(),
    {
        self.cpu.handle
    }

    /// Entering the run loop: the CPU goes to `Go`, which lowers its kill
    /// flag. Returns that flag.
    pub fn start(&self, states: &mut CpuStates) -> (r: bool)
        requires
            old(states).wf(),
            (self.spec_cpu() as int) < NUM_CPUS,
        ensures
            final(states).wf(),
            !r,
            final(states)@ == old(states)@.update(
                self.spec_cpu() as int,
                Tracking { seed: old(states).seed_of(self.spec_cpu()), state: RunState::Go, kill: false },
            ),
    {
        states.set_run_state(self.cpu.handle, RunState::Go)
    }

    pub open spec fn step_spec(&self, states: CpuStates) -> RunStep {
        if states.cancel_requested(self.spec_cpu()) || states.state_of(self.spec_cpu())
            == RunState::Stop {
            RunStep::Finished(states.state_of(self.spec_cpu()))
        } else {
            RunStep::Continue
        }
    }

    /// One decision of the run loop: finish once the kill flag is up or the
    /// CPU is stopped, returning its state; otherwise step again.
    pub fn run_step(&self, states: &CpuStates) -> (r: RunStep)
        requires
            states.wf(),
            (self.spec_cpu() as int) < NUM_CPUS,
        ensures
            r == self.step_spec(*states),
    {
        let id = self.cpu.handle;
        let rs = states.run_state(id);
        if states.cancel_requested_exec(id) {
            return RunStep::Finished(rs);
        }
        match rs {
            RunState::Stop => RunStep::Finished(rs),
            _ => RunStep::Continue,
        }
    }
}

/// A 512-bit vector register as eight quadwords.
#[derive(Copy, Clone, Debug, Default, Hash, PartialEq, Eq)]
pub struct Zmm {
    pub q: [u64; 8],
}

/// A descriptor-table register: base and limit.
#[derive(Copy, Clone, Debug, Default, Hash, PartialEq, Eq, Structural)]
pub struct GlobalSeg {
    pub base: Address,
    pub limit: u16,
}

/// A segment register with its hidden descriptor part.
#[derive(Copy, Clone, Debug, Default, Hash, PartialEq, Eq, Structural)]
pub struct Seg {
    pub present: bool,
    pub selector: u16,
    pub base: Address,
    pub limit: u32,
    pub attr: u16,
}

/// The architectural state of one CPU.
#[derive(Clone, Debug, Default, Hash, PartialEq, Eq)]
pub struct State {
    pub rax: u64,
    pub rcx: u64,
    pub rdx: u64,
    pub rbx: u64,
    pub rsp: u64,
    pub rbp: u64,
    pub rsi: u64,
    pub rdi: u64,
    pub r8: u64,
    pub r9: u64,
    pub r10: u64,
    pub r11: u64,
    pub r12: u64,
    pub r13: u64,
    pub r14: u64,
    pub r15: u64,
    pub rip: u64,
    pub rflags: u64,
    pub es: Seg,
    pub cs: Seg,
    pub ss: Seg,
    pub ds: Seg,
    pub fs: Seg,
    pub gs: Seg,
    pub ldtr: Seg,
    pub tr: Seg,
    pub gdtr: GlobalSeg,
    pub idtr: GlobalSeg,
    pub cr0: u32,
    pub cr2: u64,
    pub cr3: u64,
    pub cr4: u32,
    pub cr8: u64,
    pub dr0: u64,
    pub dr1: u64,
    pub dr2: u64,
    pub dr3: u64,
    pub dr6: u32,
    pub dr7: u32,
    pub xcr0: u32,
    pub zmm: [Zmm; 32],
    pub fpcw: u16,
    pub fpsw: u16,
    pub fptw: u16,
    pub fpop: u16,
    pub fpst: [u64; 8],
    pub mxcsr: u32,
    pub mxcsr_mask: u32,
    pub tsc: u64,
    pub efer: u32,
    pub kernel_gs_base: u64,
    pub apic_base: u64,
    pub pat: u64,
    pub sysenter_cs: u64,
    pub sysenter_eip: u64,
    pub sysenter_esp: u64,
    pub star: u64,
    pub lstar: u64,
    pub cstar: u64,
    pub sfmask: u64,
    pub tsc_aux: u64,
}

} // verus!
