use kernel_core::thread::{switch_context, Cpu, Frame, Thread, FRAME_WORDS, STACK_WORDS};

#[test]
fn fresh_thread_is_zeroed() {
    let t = Thread::new();
    assert_eq!(t.sp, 0);
    assert_eq!(t.stack.len(), STACK_WORDS);
    assert!(t.stack.iter().all(|w| *w == 0));
}

#[test]
fn init_primes_an_entry_frame_at_the_stack_top() {
    let mut t = Thread::new();
    t.init(0xdead_beef);
    assert_eq!(t.sp, STACK_WORDS - FRAME_WORDS);
    // The return-address slot holds the entry point.
    assert_eq!(t.stack[t.sp], 0xdead_beef);
    // The twelve callee-saved slots above it are zero.
    for i in 1..FRAME_WORDS {
        assert_eq!(t.stack[t.sp + i], 0);
    }
}

#[test]
fn first_switch_returns_into_the_entry_point() {
    let mut boot = Thread::new();
    let mut target = Thread::new();
    target.init(0x8020_0000);
    let mut cpu = Cpu { regs: Frame::zeroed(), sp: STACK_WORDS };
    switch_context(&mut cpu, &mut boot, &mut target);
    assert_eq!(cpu.regs.ra, 0x8020_0000);
    assert_eq!(cpu.regs.s0, 0);
    assert_eq!(cpu.regs.s11, 0);
    assert_eq!(cpu.sp, STACK_WORDS);
}

#[test]
fn switch_out_saves_the_running_registers_in_push_order() {
    let mut outgoing = Thread::new();
    let mut incoming = Thread::new();
    incoming.init(0x4000);
    let regs = Frame {
        ra: 100,
        s0: 1,
        s1: 2,
        s2: 3,
        s3: 4,
        s4: 5,
        s5: 6,
        s6: 7,
        s7: 8,
        s8: 9,
        s9: 10,
        s10: 11,
        s11: 12,
    };
    let mut cpu = Cpu { regs, sp: STACK_WORDS };
    switch_context(&mut cpu, &mut outgoing, &mut incoming);
    assert_eq!(outgoing.sp, STACK_WORDS - FRAME_WORDS);
    let base = outgoing.sp;
    assert_eq!(outgoing.stack[base], 100);
    for i in 1..FRAME_WORDS {
        assert_eq!(outgoing.stack[base + i], i);
    }
}

#[test]
fn save_then_restore_is_the_identity_on_the_register_set() {
    let mut a = Thread::new();
    let mut b = Thread::new();
    a.init(0x1111);
    b.init(0x2222);
    let regs = Frame {
        ra: 42,
        s0: 10,
        s1: 11,
        s2: 12,
        s3: 13,
        s4: 14,
        s5: 15,
        s6: 16,
        s7: 17,
        s8: 18,
        s9: 19,
        s10: 20,
        s11: 21,
    };
    // Suspend the running registers into a's stack, resume b ...
    let mut cpu = Cpu { regs, sp: STACK_WORDS };
    switch_context(&mut cpu, &mut a, &mut b);
    assert_eq!(cpu.regs.ra, 0x2222);
    // ... then switch back: the original register set returns intact.
    let mut scratch = Thread::new();
    switch_context(&mut cpu, &mut scratch, &mut a);
    assert_eq!(cpu.regs, regs);
    assert_eq!(cpu.sp, STACK_WORDS);
}
