use kernel_core::kernel::{kernel_main, run, step, trigger_trap, KernelState, Machine};
use kernel_core::trap::TrapSnapshot;

const A_ENTRY: usize = 0x8020_1000;
const B_ENTRY: usize = 0x8020_2000;

#[test]
fn boot_leaves_the_machine_uninitialized_and_silent() {
    let m = Machine::boot();
    assert_eq!(m.state, KernelState::Uninitialized);
    assert!(m.firmware.console.is_empty());
    assert!(!m.trap_vector_installed);
}

#[test]
fn kernel_main_switches_into_context_a_at_its_entry() {
    let mut m = Machine::boot();
    kernel_main(&mut m, A_ENTRY, B_ENTRY);
    assert_eq!(m.state, KernelState::RunningA);
    assert!(m.trap_vector_installed);
    // The first switch behaves exactly like a return into a_entry.
    assert_eq!(m.cpu.regs.ra, A_ENTRY);
    assert_eq!(m.cpu.regs.s0, 0);
    // Context B stands primed the same way.
    assert_eq!(m.thread_b.stack[m.thread_b.sp], B_ENTRY);
    // Nothing was printed yet.
    assert!(m.firmware.console.is_empty());
}

#[test]
fn end_to_end_console_output_alternates_strictly() {
    let mut m = Machine::boot();
    kernel_main(&mut m, A_ENTRY, B_ENTRY);
    run(&mut m, 5);
    assert_eq!(m.firmware.console, b"A\nB\nA\nB\nA\n".to_vec());
    assert_eq!(m.state, KernelState::RunningB);
}

#[test]
fn even_numbers_of_switches_return_to_the_same_context() {
    let mut m = Machine::boot();
    kernel_main(&mut m, A_ENTRY, B_ENTRY);
    step(&mut m);
    let before = m.state;
    run(&mut m, 6);
    assert_eq!(m.state, before);
    run(&mut m, 1);
    assert_eq!(m.state, KernelState::RunningA);
}

#[test]
fn breakpoint_while_a_runs_reports_and_halts() {
    let mut m = Machine::boot();
    kernel_main(&mut m, A_ENTRY, B_ENTRY);
    step(&mut m);
    step(&mut m);
    // A breakpoint fires while context A is running again.
    trigger_trap(&mut m, TrapSnapshot { scause: 0x3, sepc: 0x8020_1014 });
    assert_eq!(m.state, KernelState::Halted);
    assert_eq!(m.firmware.console, b"A\nB\ncause=0x3, pc=0x80201014\n".to_vec());
}

#[test]
fn trap_before_initialization_still_reports() {
    let mut m = Machine::boot();
    trigger_trap(&mut m, TrapSnapshot { scause: 0x7, sepc: 0x20 });
    assert_eq!(m.state, KernelState::Halted);
    assert_eq!(m.firmware.console, b"cause=0x7, pc=0x20\n".to_vec());
}

#[test]
fn long_run_keeps_strict_lockstep() {
    let mut m = Machine::boot();
    kernel_main(&mut m, A_ENTRY, B_ENTRY);
    run(&mut m, 100);
    let mut expected: Vec<u8> = Vec::new();
    for i in 0..100 {
        expected.push(if i % 2 == 0 { b'A' } else { b'B' });
        expected.push(b'\n');
    }
    assert_eq!(m.firmware.console, expected);
    assert_eq!(m.state, KernelState::RunningA);
}
