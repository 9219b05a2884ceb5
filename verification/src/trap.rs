//! Trap vector: the handler the hardware invokes on any synchronous
//! exception or breakpoint.
//!
//! The hardware hands the handler the trap cause and the trapped program
//! counter, read from control registers at trap entry. The handler reports
//! both on the console in a fixed format and the machine then halts
//! permanently; every trap is fatal in this core.

use vstd::prelude::*;
use crate::console::Buffer;
use crate::hex::{format_hex, hex_repr, lemma_hex_digits_len_word};
use crate::sbi::Firmware;

verus! {

/// The cause code and trapped program-counter value read from the hardware
/// control registers at trap entry; it exists only for the duration of
/// reporting.
#[derive(PartialEq, Eq, Structural, Clone, Copy, Debug)]
pub struct TrapSnapshot {
    pub scause: usize,
    pub sepc: usize,
}

/// The rendered trap report, without its trailing newline:
/// `cause=<hex>, pc=<hex>`.
pub open spec fn trap_message(scause: nat, sepc: nat) -> Seq<u8> {
    seq![0x63u8, 0x61u8, 0x75u8, 0x73u8, 0x65u8, 0x3du8] + hex_repr(scause) + seq![
        0x2cu8,
        0x20u8,
        0x70u8,
        0x63u8,
        0x3du8,
    ] + hex_repr(sepc)
}

/// Render the trap report for a snapshot. The report always fits the console
/// buffer, so none of it is ever dropped.
pub fn render_trap_message(snapshot: TrapSnapshot) -> (r: Vec<u8>)
    ensures
        r@ == trap_message(snapshot.scause as nat, snapshot.sepc as nat),
        r@.len() <= 47,
{
    let mut r: Vec<u8> = Vec::new();
    r.push(0x63);
    r.push(0x61);
    r.push(0x75);
    r.push(0x73);
    r.push(0x65);
    r.push(0x3d);
    let mut cause_hex = format_hex(snapshot.scause);
    r.append(&mut cause_hex);
    r.push(0x2c);
    r.push(0x20);
    r.push(0x70);
    r.push(0x63);
    r.push(0x3d);
    let mut pc_hex = format_hex(snapshot.sepc);
    r.append(&mut pc_hex);
    proof {
        lemma_hex_digits_len_word(snapshot.scause);
        lemma_hex_digits_len_word(snapshot.sepc);
        assert(r@ =~= trap_message(snapshot.scause as nat, snapshot.sepc as nat));
    }
    r
}

/// The trap vector body: report the cause and trapped program counter on the
/// firmware console as one printed line. The caller then treats the machine
/// as halted; there is no resumption path.
pub fn trap_handler(fw: &mut Firmware, snapshot: TrapSnapshot)
    ensures
        final(fw).console@ == old(fw).console@ + trap_message(
            snapshot.scause as nat,
            snapshot.sepc as nat,
        ) + seq![crate::console::NEWLINE],
{
    let message = render_trap_message(snapshot);
    let mut buffer = Buffer::new();
    buffer.write_bytes(message.as_slice());
    buffer.write(crate::console::NEWLINE);
    buffer.flush(fw);
    proof {
        crate::console::lemma_console_buffer_delivery(message@);
        assert(fw.console@ =~= old(fw).console@ + trap_message(
            snapshot.scause as nat,
            snapshot.sepc as nat,
        ) + seq![crate::console::NEWLINE]);
    }
}

} // verus!
