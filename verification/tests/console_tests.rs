use kernel_core::console::{print_line, Buffer, BUFFER_SIZE};
use kernel_core::sbi::Firmware;

#[test]
fn writes_then_flush_deliver_bytes_in_order() {
    let mut fw = Firmware::new();
    let mut buffer = Buffer::new();
    buffer.write(1);
    buffer.write(2);
    buffer.write(3);
    buffer.flush(&mut fw);
    assert_eq!(fw.console, vec![1, 2, 3]);
}

#[test]
fn flush_resets_the_buffer() {
    let mut fw = Firmware::new();
    let mut buffer = Buffer::new();
    buffer.write(9);
    buffer.flush(&mut fw);
    buffer.flush(&mut fw);
    assert_eq!(fw.console, vec![9]);
}

#[test]
fn exactly_capacity_bytes_are_all_delivered() {
    let mut fw = Firmware::new();
    let mut buffer = Buffer::new();
    let bytes: Vec<u8> = (0..BUFFER_SIZE).map(|i| i as u8).collect();
    buffer.write_bytes(&bytes);
    buffer.flush(&mut fw);
    assert_eq!(fw.console, bytes);
}

#[test]
fn bytes_past_capacity_are_dropped() {
    let mut fw = Firmware::new();
    let mut buffer = Buffer::new();
    let bytes: Vec<u8> = (0..BUFFER_SIZE + 7).map(|i| i as u8).collect();
    buffer.write_bytes(&bytes);
    buffer.flush(&mut fw);
    assert_eq!(fw.console.len(), BUFFER_SIZE);
    assert_eq!(fw.console, bytes[..BUFFER_SIZE].to_vec());
}

#[test]
fn single_write_past_capacity_is_dropped() {
    let mut fw = Firmware::new();
    let mut buffer = Buffer::new();
    let bytes: Vec<u8> = vec![7; BUFFER_SIZE];
    buffer.write_bytes(&bytes);
    buffer.write(8);
    buffer.flush(&mut fw);
    assert_eq!(fw.console, bytes);
}

#[test]
fn write_str_buffers_string_bytes() {
    let mut fw = Firmware::new();
    let mut buffer = Buffer::new();
    buffer.write_str("hi");
    buffer.write_str("!");
    buffer.flush(&mut fw);
    assert_eq!(fw.console, b"hi!".to_vec());
}

#[test]
fn print_line_appends_text_and_newline() {
    let mut fw = Firmware::new();
    print_line(&mut fw, "Hello, world!");
    print_line(&mut fw, "A");
    assert_eq!(fw.console, b"Hello, world!\nA\n".to_vec());
}
