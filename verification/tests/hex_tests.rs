use kernel_core::hex::format_hex;

#[test]
fn zero_renders_as_0x0() {
    assert_eq!(format_hex(0), b"0x0".to_vec());
}

#[test]
fn single_digit_values() {
    assert_eq!(format_hex(9), b"0x9".to_vec());
    assert_eq!(format_hex(10), b"0xa".to_vec());
    assert_eq!(format_hex(15), b"0xf".to_vec());
}

#[test]
fn digit_boundary() {
    assert_eq!(format_hex(16), b"0x10".to_vec());
    assert_eq!(format_hex(255), b"0xff".to_vec());
    assert_eq!(format_hex(256), b"0x100".to_vec());
}

#[test]
fn wide_value_renders_all_digits() {
    assert_eq!(format_hex(0x12345abc), b"0x12345abc".to_vec());
}

#[test]
fn largest_word_fits_the_bound() {
    let r = format_hex(usize::MAX);
    assert!(r.len() <= 18);
    assert_eq!(&r[..2], b"0x");
    assert!(r[2..].iter().all(|b| *b == b'f'));
}
