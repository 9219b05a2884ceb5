use kernel_core::sbi::Firmware;
use kernel_core::trap::{render_trap_message, trap_handler, TrapSnapshot};

#[test]
fn trap_message_renders_cause_and_pc_in_hex() {
    let snapshot = TrapSnapshot { scause: 0x3, sepc: 0x8020_0014 };
    let message = render_trap_message(snapshot);
    assert_eq!(message, b"cause=0x3, pc=0x80200014".to_vec());
}

#[test]
fn trap_message_renders_zero_values() {
    let snapshot = TrapSnapshot { scause: 0, sepc: 0 };
    let message = render_trap_message(snapshot);
    assert_eq!(message, b"cause=0x0, pc=0x0".to_vec());
}

#[test]
fn trap_handler_prints_one_report_line() {
    let mut fw = Firmware::new();
    let snapshot = TrapSnapshot { scause: 0x2, sepc: 0x1c } ;
    trap_handler(&mut fw, snapshot);
    assert_eq!(fw.console, b"cause=0x2, pc=0x1c\n".to_vec());
}

#[test]
fn trap_handler_appends_after_earlier_output() {
    let mut fw = Firmware::new();
    kernel_core::sbi::put_string(&mut fw, "x");
    trap_handler(&mut fw, TrapSnapshot { scause: 5, sepc: 16 });
    assert_eq!(fw.console, b"xcause=0x5, pc=0x10\n".to_vec());
}
