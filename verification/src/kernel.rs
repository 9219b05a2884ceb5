//! Kernel entry and the cooperative scheduler.
//!
//! The machine moves through a small state space: uninitialized, context A
//! running, context B running, and halted. Kernel entry installs the trap
//! vector, primes both contexts, and performs the first switch — from a
//! throwaway boot context — into context A. From then on the two contexts
//! alternate in strict lockstep: each prints its identifying message and
//! hands off to the other by calling the switch primitive. A hardware trap
//! diverts control to the trap vector from any running state and halts the
//! machine permanently; nothing else ever stops the ping-pong.

use vstd::prelude::*;
use crate::console::Buffer;
use crate::sbi::Firmware;
use crate::thread::{
    entry_frame, frame_at, switch_context, Cpu, Frame, Thread, FRAME_WORDS, STACK_WORDS,
};
use crate::trap::{trap_handler, trap_message, TrapSnapshot};

verus! {

/// Message printed by context A on each turn: `A` and a newline.
pub open spec fn message_a() -> Seq<u8> {
    seq![0x41u8, 0x0au8]
}

/// Message printed by context B on each turn: `B` and a newline.
pub open spec fn message_b() -> Seq<u8> {
    seq![0x42u8, 0x0au8]
}

/// The scheduler's state: which context, if any, holds the CPU.
#[derive(PartialEq, Eq, Structural, Clone, Copy, Debug)]
pub enum KernelState {
    /// Before kernel entry has run.
    Uninitialized,
    /// Context A holds the CPU; context B is suspended on its own stack.
    RunningA,
    /// Context B holds the CPU; context A is suspended on its own stack.
    RunningB,
    /// A trap was taken; nothing runs again.
    Halted,
}

/// Whether one of the two contexts holds the CPU.
pub open spec fn is_running(s: KernelState) -> bool {
    s == KernelState::RunningA || s == KernelState::RunningB
}

/// The context that runs after one cooperative hand-off.
pub open spec fn other(s: KernelState) -> KernelState {
    match s {
        KernelState::RunningA => KernelState::RunningB,
        KernelState::RunningB => KernelState::RunningA,
        _ => s,
    }
}

/// The running state reached after `n` cooperative hand-offs.
pub open spec fn state_after(s: KernelState, n: nat) -> KernelState
    decreases n,
{
    if n == 0 {
        s
    } else {
        state_after(other(s), (n - 1) as nat)
    }
}

/// The message printed by the context that holds the CPU.
pub open spec fn message_of(s: KernelState) -> Seq<u8> {
    match s {
        KernelState::RunningA => message_a(),
        KernelState::RunningB => message_b(),
        _ => Seq::<u8>::empty(),
    }
}

/// The console bytes produced by `n` turns starting from state `s`: the
/// running context's message, then the other context's, strictly
/// alternating.
pub open spec fn alternation_bytes(s: KernelState, n: nat) -> Seq<u8>
    decreases n,
{
    if n == 0 {
        Seq::<u8>::empty()
    } else {
        message_of(s) + alternation_bytes(other(s), (n - 1) as nat)
    }
}

/// The whole machine: CPU register state, the two execution contexts, the
/// boot context whose frame the first switch discards into, the firmware
/// layer, the trap-vector control register, and the scheduler state.
pub struct Machine {
    pub cpu: Cpu,
    pub thread_a: Thread,
    pub thread_b: Thread,
    pub boot_context: Thread,
    pub firmware: Firmware,
    pub trap_vector_installed: bool,
    pub state: KernelState,
}

impl Machine {
    /// The machine invariant. The stacks always span their fixed size; while
    /// a context runs, the CPU's stack pointer sits within the running
    /// context's stack with room for one more frame, the suspended context
    /// holds a whole saved frame at its recorded stack pointer, and the trap
    /// vector is installed.
    pub open spec fn wf(self) -> bool {
        &&& self.thread_a.wf()
        &&& self.thread_b.wf()
        &&& self.boot_context.wf()
        &&& match self.state {
            KernelState::Uninitialized => {
                &&& self.thread_a.sp == 0
                &&& self.thread_b.sp == 0
                &&& FRAME_WORDS <= self.cpu.sp <= STACK_WORDS
            },
            KernelState::RunningA => {
                &&& FRAME_WORDS <= self.cpu.sp <= STACK_WORDS
                &&& self.thread_b.suspended()
                &&& self.trap_vector_installed
            },
            KernelState::RunningB => {
                &&& FRAME_WORDS <= self.cpu.sp <= STACK_WORDS
                &&& self.thread_a.suspended()
                &&& self.trap_vector_installed
            },
            KernelState::Halted => true,
        }
    }

    /// A machine as the boot collaborator hands it over: both contexts
    /// statically allocated and untouched, an empty firmware console, the
    /// trap vector not yet installed, and a valid initial stack pointer at
    /// the top of the boot stack.
    pub fn boot() -> (m: Machine)
        ensures
            m.wf(),
            m.state == KernelState::Uninitialized,
            m.firmware.console@ == Seq::<u8>::empty(),
            !m.trap_vector_installed,
            m.cpu.sp == STACK_WORDS,
    {
        Machine {
            cpu: Cpu { regs: Frame::zeroed(), sp: STACK_WORDS },
            thread_a: Thread::new(),
            thread_b: Thread::new(),
            boot_context: Thread::new(),
            firmware: Firmware::new(),
            trap_vector_installed: false,
            state: KernelState::Uninitialized,
        }
    }
}

/// Kernel entry: install the trap vector, prime context A and context B with
/// their entry points, and switch — out of the throwaway boot context — into
/// context A. The first switch behaves exactly like a return into `a_entry`:
/// afterwards the CPU's return address is `a_entry` and its callee-saved
/// registers are zero, context B stands primed the same way for `b_entry`,
/// and nothing has been printed.
pub fn kernel_main(m: &mut Machine, a_entry: usize, b_entry: usize)
    requires
        old(m).wf(),
        old(m).state == KernelState::Uninitialized,
    ensures
        final(m).wf(),
        final(m).state == KernelState::RunningA,
        final(m).trap_vector_installed,
        final(m).cpu.regs == entry_frame(a_entry),
        final(m).cpu.regs.ra == a_entry,
        final(m).cpu.sp == STACK_WORDS,
        frame_at(final(m).thread_b.stack@, final(m).thread_b.sp as int) == entry_frame(b_entry),
        final(m).firmware.console@ == old(m).firmware.console@,
{
    m.trap_vector_installed = true;
    m.thread_a.init(a_entry);
    m.thread_b.init(b_entry);
    switch_context(&mut m.cpu, &mut m.boot_context, &mut m.thread_a);
    m.state = KernelState::RunningA;
}

/// One turn of the steady state: the running context prints its identifying
/// message through a fresh console buffer and hands the CPU to the other
/// context with one cooperative switch.
pub fn step(m: &mut Machine)
    requires
        old(m).wf(),
        is_running(old(m).state),
    ensures
        final(m).wf(),
        final(m).state == other(old(m).state),
        is_running(final(m).state),
        final(m).firmware.console@ == old(m).firmware.console@ + message_of(old(m).state),
        final(m).trap_vector_installed == old(m).trap_vector_installed,
        old(m).state == KernelState::RunningA ==> {
            &&& final(m).thread_a.sp == old(m).cpu.sp - FRAME_WORDS
            &&& final(m).thread_a.stack@ == crate::thread::push_frame_spec(
                old(m).thread_a.stack@,
                old(m).cpu.sp as int,
                old(m).cpu.regs,
            )
            &&& final(m).thread_b == old(m).thread_b
            &&& final(m).cpu.regs == frame_at(old(m).thread_b.stack@, old(m).thread_b.sp as int)
            &&& final(m).cpu.sp == old(m).thread_b.sp + FRAME_WORDS
        },
        old(m).state == KernelState::RunningB ==> {
            &&& final(m).thread_b.sp == old(m).cpu.sp - FRAME_WORDS
            &&& final(m).thread_b.stack@ == crate::thread::push_frame_spec(
                old(m).thread_b.stack@,
                old(m).cpu.sp as int,
                old(m).cpu.regs,
            )
            &&& final(m).thread_a == old(m).thread_a
            &&& final(m).cpu.regs == frame_at(old(m).thread_a.stack@, old(m).thread_a.sp as int)
            &&& final(m).cpu.sp == old(m).thread_a.sp + FRAME_WORDS
        },
{
    let mut buffer = Buffer::new();
    match m.state {
        KernelState::RunningA => {
            buffer.write(0x41);
            buffer.write(0x0a);
            buffer.flush(&mut m.firmware);
            switch_context(&mut m.cpu, &mut m.thread_a, &mut m.thread_b);
            m.state = KernelState::RunningB;
        },
        _ => {
            buffer.write(0x42);
            buffer.write(0x0a);
            buffer.flush(&mut m.firmware);
            switch_context(&mut m.cpu, &mut m.thread_b, &mut m.thread_a);
            m.state = KernelState::RunningA;
        },
    }
    assert(m.firmware.console@ =~= old(m).firmware.console@ + message_of(old(m).state));
}

/// Run `n` turns of the steady state. The scheduler lands in the state `n`
/// hand-offs away and the console receives exactly the strict alternation of
/// the two contexts' messages, starting with the context that was running.
pub fn run(m: &mut Machine, n: usize)
    requires
        old(m).wf(),
        is_running(old(m).state),
    ensures
        final(m).wf(),
        final(m).state == state_after(old(m).state, n as nat),
        is_running(final(m).state),
        final(m).firmware.console@ == old(m).firmware.console@ + alternation_bytes(
            old(m).state,
            n as nat,
        ),
        final(m).trap_vector_installed == old(m).trap_vector_installed,
{
    let ghost s0 = m.state;
    let ghost c0 = m.firmware.console@;
    let ghost tv = m.trap_vector_installed;
    for i in 0..n
        invariant
            m.wf(),
            is_running(m.state),
            m.state == state_after(s0, i as nat),
            m.firmware.console@ == c0 + alternation_bytes(s0, i as nat),
            m.trap_vector_installed == tv,
    {
        let ghost before = m.state;
        step(m);
        proof {
            lemma_state_after_snoc(s0, i as nat);
            lemma_alternation_bytes_snoc(s0, i as nat);
            assert(c0 + alternation_bytes(s0, i as nat) + message_of(before) =~= c0
                + (alternation_bytes(s0, i as nat) + message_of(before)));
        }
    }
}

/// A hardware trap: control is diverted to the trap vector regardless of
/// which context is running, the cause and trapped program counter are
/// reported on the console, and the machine halts permanently. No further
/// switch ever occurs from the halted state.
pub fn trigger_trap(m: &mut Machine, snapshot: TrapSnapshot)
    requires
        old(m).wf(),
        old(m).state != KernelState::Halted,
    ensures
        final(m).wf(),
        final(m).state == KernelState::Halted,
        final(m).firmware.console@ == old(m).firmware.console@ + trap_message(
            snapshot.scause as nat,
            snapshot.sepc as nat,
        ) + seq![crate::console::NEWLINE],
        final(m).cpu == old(m).cpu,
        final(m).thread_a == old(m).thread_a,
        final(m).thread_b == old(m).thread_b,
        final(m).trap_vector_installed == old(m).trap_vector_installed,
{
    trap_handler(&mut m.firmware, snapshot);
    m.state = KernelState::Halted;
}

/// Extending a run by one hand-off lands in the hand-off of the reached
/// state.
proof fn lemma_state_after_snoc(s: KernelState, n: nat)
    ensures
        state_after(s, (n + 1) as nat) == other(state_after(s, n)),
    decreases n,
{
    if n == 0 {
        assert(state_after(s, 1nat) == state_after(other(s), 0nat));
    } else {
        lemma_state_after_snoc(other(s), (n - 1) as nat);
        assert(state_after(s, (n + 1) as nat) == state_after(other(s), n));
        assert(state_after(s, n) == state_after(other(s), (n - 1) as nat));
    }
}

/// Extending a run by one turn appends the reached state's message.
proof fn lemma_alternation_bytes_snoc(s: KernelState, n: nat)
    ensures
        alternation_bytes(s, (n + 1) as nat) == alternation_bytes(s, n) + message_of(state_after(s, n)),
    decreases n,
{
    if n == 0 {
        assert(alternation_bytes(s, 1nat) == message_of(s) + alternation_bytes(other(s), 0nat));
        assert(message_of(s) + Seq::<u8>::empty() =~= message_of(s));
        assert(Seq::<u8>::empty() + message_of(s) =~= message_of(s));
    } else {
        lemma_alternation_bytes_snoc(other(s), (n - 1) as nat);
        assert(message_of(s) + (alternation_bytes(other(s), (n - 1) as nat) + message_of(
            state_after(other(s), (n - 1) as nat),
        )) =~= (message_of(s) + alternation_bytes(other(s), (n - 1) as nat)) + message_of(
            state_after(s, n),
        ));
    }
}

/// Alternation law: from either running state, an even number of cooperative
/// hand-offs returns the CPU to the context that was running before the
/// first of them.
pub proof fn lemma_alternation(s: KernelState, n: nat)
    requires
        is_running(s),
    ensures
        state_after(s, (2 * n) as nat) == s,
    decreases n,
{
    if n > 0 {
        assert(state_after(s, (2 * n) as nat) == state_after(other(s), (2 * n - 1) as nat));
        assert(state_after(other(s), (2 * n - 1) as nat) == state_after(
            other(other(s)),
            (2 * n - 2) as nat,
        ));
        assert(other(other(s)) == s);
        assert((2 * n - 2) as nat == 2 * ((n - 1) as nat));
        lemma_alternation(s, (n - 1) as nat);
    }
}

} // verus!
