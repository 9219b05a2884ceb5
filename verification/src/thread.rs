//! Execution contexts and the cooperative context-switch primitive.
//!
//! A context owns a fixed-size stack of machine words and a saved stack
//! pointer, meaningful only while the context is suspended. While suspended,
//! the context's entire callee-owned register set plus its return address sit
//! at the top of its own stack in a fixed-layout saved register frame. The
//! switch primitive pushes the running context's frame, records the resulting
//! stack pointer, adopts the incoming context's stack pointer, and pops the
//! incoming frame in exactly reverse order; initialization primes a fresh
//! stack with a frame whose return address is the entry point, so that the
//! first switch into a context is indistinguishable from a return into it.

use vstd::prelude::*;

verus! {

/// Number of words in each context's stack.
pub const STACK_WORDS: usize = 8192;

/// Number of words in a saved register frame: the return address plus the
/// twelve callee-saved registers.
pub const FRAME_WORDS: usize = 13;

/// The callee-owned register set that a context switch must preserve: the
/// return address `ra` and the callee-saved registers `s0` through `s11`.
#[derive(PartialEq, Eq, Structural, Clone, Copy, Debug)]
pub struct Frame {
    pub ra: usize,
    pub s0: usize,
    pub s1: usize,
    pub s2: usize,
    pub s3: usize,
    pub s4: usize,
    pub s5: usize,
    pub s6: usize,
    pub s7: usize,
    pub s8: usize,
    pub s9: usize,
    pub s10: usize,
    pub s11: usize,
}

impl Frame {
    /// A frame whose registers are all zero.
    pub fn zeroed() -> (f: Frame)
        ensures
            f == entry_frame(0),
    {
        Frame {
            ra: 0,
            s0: 0,
            s1: 0,
            s2: 0,
            s3: 0,
            s4: 0,
            s5: 0,
            s6: 0,
            s7: 0,
            s8: 0,
            s9: 0,
            s10: 0,
            s11: 0,
        }
    }
}

/// The stack image of a frame: the order in which its registers are pushed,
/// return address first. This single definition is shared by initialization
/// and by the switch primitive, so a primed frame and a naturally saved one
/// have the same layout by construction.
pub open spec fn frame_words(f: Frame) -> Seq<usize> {
    seq![f.ra, f.s0, f.s1, f.s2, f.s3, f.s4, f.s5, f.s6, f.s7, f.s8, f.s9, f.s10, f.s11]
}

/// The frame read back from thirteen stack words, in the same order.
pub open spec fn frame_of_words(w: Seq<usize>) -> Frame {
    Frame {
        ra: w[0],
        s0: w[1],
        s1: w[2],
        s2: w[3],
        s3: w[4],
        s4: w[5],
        s5: w[6],
        s6: w[7],
        s7: w[8],
        s8: w[9],
        s9: w[10],
        s10: w[11],
        s11: w[12],
    }
}

/// The frame suspended at stack index `sp`.
pub open spec fn frame_at(stack: Seq<usize>, sp: int) -> Frame {
    frame_of_words(stack.subrange(sp, sp + FRAME_WORDS))
}

/// The stack after a frame is pushed with the stack pointer at `sp`: the
/// thirteen words just below `sp` become the frame image and every other word
/// is untouched.
pub open spec fn push_frame_spec(stack: Seq<usize>, sp: int, f: Frame) -> Seq<usize> {
    stack.subrange(0, sp - FRAME_WORDS) + frame_words(f) + stack.subrange(sp, stack.len() as int)
}

/// The frame primed for a first run: every callee-saved register zero and the
/// return-address slot holding the entry point.
pub open spec fn entry_frame(entry: usize) -> Frame {
    Frame {
        ra: entry,
        s0: 0,
        s1: 0,
        s2: 0,
        s3: 0,
        s4: 0,
        s5: 0,
        s6: 0,
        s7: 0,
        s8: 0,
        s9: 0,
        s10: 0,
        s11: 0,
    }
}

/// Frame symmetry: pushing a frame and reading a frame back from the pushed
/// location round-trips — the registers come back identical, in count and in
/// order, and every stack word outside the frame is unchanged. Saving and
/// restoring is the identity on the callee-owned register set.
pub proof fn lemma_frame_round_trip(stack: Seq<usize>, sp: int, f: Frame)
    requires
        FRAME_WORDS <= sp <= stack.len(),
    ensures
        frame_at(push_frame_spec(stack, sp, f), sp - FRAME_WORDS) == f,
        push_frame_spec(stack, sp, f).len() == stack.len(),
        forall|i: int|
            0 <= i < stack.len() && !(sp - FRAME_WORDS <= i < sp) ==> push_frame_spec(
                stack,
                sp,
                f,
            )[i] == stack[i],
{
    let pushed = push_frame_spec(stack, sp, f);
    assert(pushed.subrange(sp - FRAME_WORDS, sp) =~= frame_words(f));
    assert(frame_of_words(frame_words(f)) == f);
}

/// First-switch law: a stack primed by initialization hands back exactly the
/// entry frame when the frame at the primed stack pointer is restored —
/// control reaches the supplied entry point with all callee-saved registers
/// zero, and no other stack word was touched by priming.
pub proof fn lemma_first_switch_reaches_entry(stack: Seq<usize>, entry: usize)
    requires
        stack.len() == STACK_WORDS,
    ensures
        frame_at(
            push_frame_spec(stack, STACK_WORDS as int, entry_frame(entry)),
            STACK_WORDS - FRAME_WORDS,
        ) == entry_frame(entry),
        frame_at(
            push_frame_spec(stack, STACK_WORDS as int, entry_frame(entry)),
            STACK_WORDS - FRAME_WORDS,
        ).ra == entry,
{
    lemma_frame_round_trip(stack, STACK_WORDS as int, entry_frame(entry));
}

/// One execution context: a fixed-size, exclusively owned stack and the stack
/// pointer saved while the context is suspended. The saved stack pointer is
/// an index into the stack: the lowest word occupied by the suspended frame.
pub struct Thread {
    pub sp: usize,
    pub stack: Vec<usize>,
}

impl Thread {
    /// The stack spans exactly the fixed number of words.
    pub open spec fn wf(self) -> bool {
        self.stack@.len() == STACK_WORDS
    }

    /// A suspended context's saved stack pointer designates a whole frame
    /// within its stack.
    pub open spec fn suspended(self) -> bool {
        self.wf() && self.sp + FRAME_WORDS <= STACK_WORDS
    }

    /// A statically allocated, not yet initialized context: a zeroed stack
    /// and a zero (invalid) saved stack pointer.
    pub fn new() -> (t: Thread)
        ensures
            t.wf(),
            t.sp == 0,
            t.stack@ =~= Seq::new(STACK_WORDS as nat, |i: int| 0usize),
    {
        let mut stack: Vec<usize> = Vec::new();
        while stack.len() < STACK_WORDS
            invariant
                stack@.len() <= STACK_WORDS,
                forall|i: int| 0 <= i < stack@.len() ==> stack@[i] == 0,
            decreases STACK_WORDS - stack@.len(),
        {
            stack.push(0);
        }
        let t = Thread { sp: 0, stack };
        assert(t.stack@ =~= Seq::new(STACK_WORDS as nat, |i: int| 0usize));
        t
    }

    /// Prime a fresh context so that the first switch into it returns into
    /// `entry`: construct a saved register frame at the top of the stack with
    /// every callee-saved slot zero and the return-address slot holding the
    /// entry point, and record the stack pointer as it would stand right
    /// after that frame was pushed.
    pub fn init(&mut self, entry: usize)
        requires
            old(self).wf(),
            old(self).sp == 0,
        ensures
            final(self).wf(),
            final(self).suspended(),
            final(self).sp == STACK_WORDS - FRAME_WORDS,
            final(self).stack@ == push_frame_spec(
                old(self).stack@,
                STACK_WORDS as int,
                entry_frame(entry),
            ),
            frame_at(final(self).stack@, final(self).sp as int) == entry_frame(entry),
    {
        let mut sp = STACK_WORDS;
        for i in 0..12usize
            invariant
                self.stack@.len() == STACK_WORDS,
                sp == STACK_WORDS - i,
                self.sp == old(self).sp,
                forall|j: int| 0 <= j < sp ==> self.stack@[j] == old(self).stack@[j],
                forall|j: int| sp <= j < STACK_WORDS ==> self.stack@[j] == 0,
        {
            sp = sp - 1;
            self.stack[sp] = 0;
        }
        sp = sp - 1;
        self.stack[sp] = entry;
        self.sp = sp;
        proof {
            let pushed = push_frame_spec(old(self).stack@, STACK_WORDS as int, entry_frame(entry));
            assert(frame_words(entry_frame(entry)) =~= seq![entry, 0usize, 0, 0, 0, 0, 0, 0, 0, 0, 0, 0, 0]);
            assert(self.stack@ =~= pushed);
            lemma_frame_round_trip(old(self).stack@, STACK_WORDS as int, entry_frame(entry));
        }
    }
}

/// The register state live in the CPU: the callee-owned register set and the
/// stack pointer, which indexes into the running context's stack.
pub struct Cpu {
    pub regs: Frame,
    pub sp: usize,
}

/// The cooperative switch: push the running context's callee-owned registers
/// as a saved register frame onto its own stack, record the resulting stack
/// pointer in the outgoing context, adopt the incoming context's saved stack
/// pointer, and pop the frame found there in exactly reverse push order.
/// Control thereby resumes wherever the incoming context last yielded — or,
/// on its first run, at its entry point. The incoming context's record and
/// both consoles of the outside world are untouched; there is no return
/// value and no error path.
pub fn switch_context(cpu: &mut Cpu, outgoing: &mut Thread, incoming: &mut Thread)
    requires
        old(outgoing).wf(),
        old(incoming).wf(),
        FRAME_WORDS <= old(cpu).sp <= STACK_WORDS,
        old(incoming).suspended(),
    ensures
        final(outgoing).wf(),
        final(outgoing).suspended(),
        final(outgoing).sp == old(cpu).sp - FRAME_WORDS,
        final(outgoing).stack@ == push_frame_spec(
            old(outgoing).stack@,
            old(cpu).sp as int,
            old(cpu).regs,
        ),
        frame_at(final(outgoing).stack@, final(outgoing).sp as int) == old(cpu).regs,
        *final(incoming) == *old(incoming),
        final(cpu).regs == frame_at(old(incoming).stack@, old(incoming).sp as int),
        final(cpu).sp == old(incoming).sp + FRAME_WORDS,
{
    let base = cpu.sp - FRAME_WORDS;
    outgoing.stack[base] = cpu.regs.ra;
    outgoing.stack[base + 1] = cpu.regs.s0;
    outgoing.stack[base + 2] = cpu.regs.s1;
    outgoing.stack[base + 3] = cpu.regs.s2;
    outgoing.stack[base + 4] = cpu.regs.s3;
    outgoing.stack[base + 5] = cpu.regs.s4;
    outgoing.stack[base + 6] = cpu.regs.s5;
    outgoing.stack[base + 7] = cpu.regs.s6;
    outgoing.stack[base + 8] = cpu.regs.s7;
    outgoing.stack[base + 9] = cpu.regs.s8;
    outgoing.stack[base + 10] = cpu.regs.s9;
    outgoing.stack[base + 11] = cpu.regs.s10;
    outgoing.stack[base + 12] = cpu.regs.s11;
    outgoing.sp = base;
    proof {
        assert(outgoing.stack@ =~= push_frame_spec(
            old(outgoing).stack@,
            old(cpu).sp as int,
            old(cpu).regs,
        ));
        lemma_frame_round_trip(old(outgoing).stack@, old(cpu).sp as int, old(cpu).regs);
    }
    let inc = incoming.sp;
    cpu.regs = Frame {
        ra: incoming.stack[inc],
        s0: incoming.stack[inc + 1],
        s1: incoming.stack[inc + 2],
        s2: incoming.stack[inc + 3],
        s3: incoming.stack[inc + 4],
        s4: incoming.stack[inc + 5],
        s5: incoming.stack[inc + 6],
        s6: incoming.stack[inc + 7],
        s7: incoming.stack[inc + 8],
        s8: incoming.stack[inc + 9],
        s9: incoming.stack[inc + 10],
        s10: incoming.stack[inc + 11],
        s11: incoming.stack[inc + 12],
    };
    cpu.sp = inc + FRAME_WORDS;
    proof {
        assert(incoming.stack@.subrange(inc as int, inc + FRAME_WORDS) =~= seq![
            incoming.stack@[inc as int],
            incoming.stack@[inc + 1],
            incoming.stack@[inc + 2],
            incoming.stack@[inc + 3],
            incoming.stack@[inc + 4],
            incoming.stack@[inc + 5],
            incoming.stack@[inc + 6],
            incoming.stack@[inc + 7],
            incoming.stack@[inc + 8],
            incoming.stack@[inc + 9],
            incoming.stack@[inc + 10],
            incoming.stack@[inc + 11],
            incoming.stack@[inc + 12],
        ]);
    }
}

} // verus!
