use std::cell::RefCell;
use std::rc::Rc;

use bochscpu::cpu::{CpuStates, RunState};
use bochscpu::hook::{
    Branch, CacheCntrl, Dispatch, Event, HookRegistry, Hooks, MemAccess, MemType, Observed, PortEvent,
    PrefetchHint, ResetSource, TlbCntrl, tlb_cntrl_event,
};
use bochscpu::opcode::{DisasmStyle, Opcode};

type Log = Rc<RefCell<Vec<(usize, String)>>>;

struct Recorder {
    me: usize,
    log: Log,
    cancel_on_branch: bool,
}

impl Recorder {
    fn new(me: usize, log: &Log) -> Recorder {
        Recorder { me, log: log.clone(), cancel_on_branch: false }
    }

    fn record(&self, what: String) {
        self.log.borrow_mut().push((self.me, what));
    }
}

impl Hooks for Recorder {
    fn note(&mut self, _ctl: &mut CpuStates, what: &Observed) {
        self.record(format!("other {:?}", what));
    }

    fn cnear_branch_taken(&mut self, ctl: &mut CpuStates, id: u32, branch_pc: u64, new_pc: u64) {
        self.record(format!("taken {} {:x} {:x}", id, branch_pc, new_pc));
        if self.cancel_on_branch {
            ctl.set_run_state(id, RunState::Stop);
        }
    }

    fn hlt(&mut self, _ctl: &mut CpuStates, id: u32) {
        self.record(format!("hlt {}", id));
    }

    fn reset(&mut self, _ctl: &mut CpuStates, id: u32, ty: ResetSource) {
        self.record(format!("reset {} {:?}", id, ty));
    }

    fn opcode(&mut self, _ctl: &mut CpuStates, id: u32, _ins: usize, opcode: &[u8], _is_32: bool, is_64: bool) {
        self.record(format!("opcode {} {:?} {}", id, opcode, is_64));
    }

    fn outp(&mut self, _ctl: &mut CpuStates, addr: u16, len: usize, val: u32) {
        self.record(format!("outp {:x} {} {:x}", addr, len, val));
    }
}

fn three(log: &Log) -> HookRegistry<Recorder> {
    let mut reg = HookRegistry::new();
    for i in 0..3 {
        reg.register(Recorder::new(i, log));
    }
    reg
}

#[test]
fn three_observers_see_a_branch_in_order() {
    let log: Log = Rc::new(RefCell::new(Vec::new()));
    let mut reg = three(&log);
    let mut ctl = CpuStates::new();
    ctl.set_run_state(0, RunState::Go);
    let ev = Event::CnearBranchTaken { branch_pc: 0x1000, new_pc: 0x2000 };
    assert_eq!(reg.fire(&mut ctl, 0, &ev), Dispatch::Continue);
    let want: Vec<(usize, String)> =
        (0..3).map(|i| (i, "taken 0 1000 2000".to_string())).collect();
    assert_eq!(*log.borrow(), want);
}

#[test]
fn cancellation_stops_every_later_event() {
    let log: Log = Rc::new(RefCell::new(Vec::new()));
    let mut reg = HookRegistry::new();
    let mut first = Recorder::new(0, &log);
    first.cancel_on_branch = true;
    reg.register(first);
    reg.register(Recorder::new(1, &log));
    let mut ctl = CpuStates::new();
    ctl.set_run_state(2, RunState::Go);

    let ev = Event::CnearBranchTaken { branch_pc: 1, new_pc: 2 };
    assert_eq!(reg.fire(&mut ctl, 2, &ev), Dispatch::Bail);
    assert_eq!(log.borrow().len(), 2);

    assert_eq!(reg.fire(&mut ctl, 2, &Event::Hlt), Dispatch::Bail);
    assert_eq!(reg.fire(&mut ctl, 2, &ev), Dispatch::Bail);
    assert_eq!(log.borrow().len(), 2);
}

#[test]
fn cancellation_of_one_cpu_leaves_others() {
    let log: Log = Rc::new(RefCell::new(Vec::new()));
    let mut reg = three(&log);
    let mut ctl = CpuStates::new();
    ctl.set_run_state(1, RunState::Stop);
    assert_eq!(reg.fire(&mut ctl, 1, &Event::Hlt), Dispatch::Bail);
    assert!(log.borrow().is_empty());
    assert_eq!(reg.fire(&mut ctl, 0, &Event::Hlt), Dispatch::Continue);
    assert_eq!(log.borrow().len(), 3);
}

#[test]
fn hardware_reset_reaches_no_observer() {
    let log: Log = Rc::new(RefCell::new(Vec::new()));
    let mut reg = three(&log);
    let mut ctl = CpuStates::new();
    assert_eq!(reg.fire(&mut ctl, 0, &Event::Reset(ResetSource::Hardware)), Dispatch::Continue);
    assert!(log.borrow().is_empty());
    assert_eq!(reg.fire(&mut ctl, 0, &Event::Reset(ResetSource::Software)), Dispatch::Continue);
    assert_eq!(log.borrow()[0], (0, "reset 0 Software".to_string()));
}

#[test]
fn opcode_bytes_are_passed_through() {
    let log: Log = Rc::new(RefCell::new(Vec::new()));
    let mut reg = three(&log);
    let mut ctl = CpuStates::new();
    let ev = Event::Opcode { ins: 0, opcode: vec![0x0f, 0x05], is_32: false, is_64: true };
    reg.fire(&mut ctl, 0, &ev);
    assert_eq!(log.borrow()[2], (2, "opcode 0 [15, 5] true".to_string()));
}

#[test]
fn port_events_stop_once_the_running_cpu_is_cancelled() {
    let log: Log = Rc::new(RefCell::new(Vec::new()));
    let mut reg = three(&log);
    let mut ctl = CpuStates::new();
    ctl.set_run_state(1, RunState::Stop);
    reg.fire_port(&mut ctl, 0, PortEvent::Outp { addr: 0x3f8, len: 1, val: 0x41 });
    assert_eq!(log.borrow().len(), 3);
    assert_eq!(log.borrow()[1], (1, "outp 3f8 1 41".to_string()));
    ctl.set_run_state(0, RunState::Bail);
    reg.fire_port(&mut ctl, 0, PortEvent::Outp { addr: 0x3f8, len: 1, val: 0x42 });
    assert_eq!(log.borrow().len(), 3);
}

#[test]
fn clear_hands_observers_back() {
    let log: Log = Rc::new(RefCell::new(Vec::new()));
    let mut reg = three(&log);
    assert_eq!(reg.count(), 3);
    let back = reg.clear();
    assert_eq!(back.len(), 3);
    assert_eq!(back[2].me, 2);
    assert_eq!(reg.count(), 0);
    let mut ctl = CpuStates::new();
    assert_eq!(reg.fire(&mut ctl, 0, &Event::Hlt), Dispatch::Continue);
    assert!(log.borrow().is_empty());
}

#[test]
fn decoders_accept_known_codes() {
    assert_eq!(Branch::from_code(10), Some(Branch::Jmp));
    assert_eq!(Branch::from_code(20), Some(Branch::Sysexit));
    assert_eq!(TlbCntrl::from_code(11), Some(TlbCntrl::MovCr3));
    assert_eq!(CacheCntrl::from_code(11), Some(CacheCntrl::Wbind));
    assert_eq!(PrefetchHint::from_code(0), Some(PrefetchHint::Nta));
    assert_eq!(MemAccess::from_code(3), Some(MemAccess::RW));
    assert_eq!(MemType::from_code(8), Some(MemType::Invalid));
    assert_eq!(ResetSource::from_code(10), Some(ResetSource::Software));
    assert_eq!(Opcode::from_code(1), Some(Opcode::Inserted));
    assert_eq!(DisasmStyle::from_code(1), Some(DisasmStyle::Gas));
}

#[test]
fn decoders_reject_unknown_codes() {
    assert_eq!(Branch::from_code(9), None);
    assert_eq!(Branch::from_code(21), None);
    assert_eq!(TlbCntrl::from_code(19), None);
    assert_eq!(CacheCntrl::from_code(0), None);
    assert_eq!(PrefetchHint::from_code(4), None);
    assert_eq!(MemAccess::from_code(4), None);
    assert_eq!(MemType::from_code(9), None);
    assert_eq!(ResetSource::from_code(12), None);
    assert_eq!(Opcode::from_code(2), None);
    assert_eq!(DisasmStyle::from_code(7), None);
}

#[test]
fn tlb_control_carries_the_register_only_when_loaded() {
    assert_eq!(
        tlb_cntrl_event(TlbCntrl::MovCr3, 0x1000),
        Event::TlbCntrl { what: TlbCntrl::MovCr3, new_cr: Some(0x1000) }
    );
    assert_eq!(
        tlb_cntrl_event(TlbCntrl::TaskSwitch, 0x2000),
        Event::TlbCntrl { what: TlbCntrl::TaskSwitch, new_cr: Some(0x2000) }
    );
    assert_eq!(
        tlb_cntrl_event(TlbCntrl::InvLpg, 0x1000),
        Event::TlbCntrl { what: TlbCntrl::InvLpg, new_cr: None }
    );
}

#[test]
fn events_without_their_own_method_reach_note() {
    let log: Log = Rc::new(RefCell::new(Vec::new()));
    let mut reg = three(&log);
    let mut ctl = CpuStates::new();
    let ev = Event::Wrmsr { msr: 0xc000_0080, val: 0x500 };
    assert_eq!(reg.fire(&mut ctl, 5, &ev), Dispatch::Continue);
    reg.fire_port(&mut ctl, 5, PortEvent::Inp { addr: 0x60, len: 1 });
    let got = log.borrow();
    assert_eq!(got.len(), 6);
    assert_eq!(got[0], (0, "other Cpu { id: 5, event: Wrmsr { msr: 3221225600, val: 1280 } }".to_string()));
    assert_eq!(got[5], (2, "other Port { event: Inp { addr: 96, len: 1 } }".to_string()));
}
