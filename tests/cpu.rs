use bochscpu::cpu::{rand_from_digest, Cpu, CpuRun, CpuStates, RunState, RunStep, Tracking};
use bochscpu::NUM_CPUS;

#[test]
fn table_starts_stopped_with_zero_seeds() {
    let states = CpuStates::new();
    for id in [0u32, 1, (NUM_CPUS - 1) as u32] {
        assert_eq!(states.run_state(id), RunState::Stop);
        assert_eq!(states.seed(id), 0);
        assert!(!states.cancel_requested_exec(id));
    }
}

#[test]
fn tracking_default() {
    let t = Tracking::default();
    assert_eq!(t.seed, 0);
    assert_eq!(t.state, RunState::Stop);
    assert!(!t.kill);
}

#[test]
fn stop_and_bail_raise_the_kill_flag() {
    let mut states = CpuStates::new();
    assert!(states.set_run_state(4, RunState::Stop));
    assert!(states.cancel_requested_exec(4));
    assert!(!states.set_run_state(4, RunState::Go));
    assert!(!states.cancel_requested_exec(4));
    assert!(states.set_run_state(4, RunState::Bail));
    assert!(states.cancel_requested_exec(4));
    assert_eq!(states.run_state(4), RunState::Bail);
    assert!(!states.cancel_requested_exec(5));
}

#[test]
fn set_run_state_keeps_the_seed() {
    let mut states = CpuStates::new();
    states.set_seed(2, 99);
    states.set_run_state(2, RunState::Go);
    assert_eq!(states.seed(2), 99);
    assert_eq!(states.run_state(2), RunState::Go);
}

#[test]
fn cpu_handle_accessors() {
    let mut states = CpuStates::new();
    let cpu = Cpu::from(7);
    assert_eq!(cpu.id(), 7);
    cpu.set_seed(&mut states, 1234);
    assert_eq!(cpu.seed(&states), 1234);
    assert!(cpu.set_run_state(&mut states, RunState::Stop));
    assert_eq!(cpu.run_state(&states), RunState::Stop);
}

#[test]
fn run_loop_decisions() {
    let mut states = CpuStates::new();
    let cpu = Cpu::from(1);
    let run = CpuRun::new(&cpu);
    assert_eq!(run.cpu_id(), 1);
    assert!(!run.start(&mut states));
    assert_eq!(states.run_state(1), RunState::Go);
    assert_eq!(run.run_step(&states), RunStep::Continue);
    states.set_run_state(1, RunState::Bail);
    assert_eq!(run.run_step(&states), RunStep::Finished(RunState::Bail));
    states.set_run_state(1, RunState::Stop);
    assert_eq!(run.run_step(&states), RunStep::Finished(RunState::Stop));
}

#[test]
fn prepare_gives_a_run_of_that_cpu() {
    let cpu = Cpu::from(9);
    let run = cpu.prepare();
    assert_eq!(run.cpu_id(), 9);
}

#[test]
fn rand_follows_blake3_of_the_seed() {
    let mut states = CpuStates::new();
    states.set_seed(0, 0x1122_3344_5566_7788);
    let digest = blake3::hash(&0x1122_3344_5566_7788u64.to_le_bytes());
    let d = digest.as_bytes();
    let want_out = u64::from_le_bytes(d[8..16].try_into().unwrap());
    let want_seed = u64::from_le_bytes(d[0..8].try_into().unwrap());
    let out = states.rand(0);
    assert_eq!(out, want_out);
    assert_eq!(states.seed(0), want_seed);
    assert_ne!(states.seed(0), 0x1122_3344_5566_7788);
    let again = states.rand(0);
    let d2 = blake3::hash(&want_seed.to_le_bytes());
    assert_eq!(again, u64::from_le_bytes(d2.as_bytes()[8..16].try_into().unwrap()));
}

#[test]
fn digest_split() {
    let d: Vec<u8> = (1..=16).collect();
    assert_eq!(rand_from_digest(&d), (0x0807_0605_0403_0201, 0x100f_0e0d_0c0b_0a09));
}
