use batch_os::text::{decimal_text, hex_text};

#[test]
fn decimal_of_small_numbers() {
    assert_eq!(decimal_text(0), "0");
    assert_eq!(decimal_text(7), "7");
    assert_eq!(decimal_text(9), "9");
    assert_eq!(decimal_text(10), "10");
    assert_eq!(decimal_text(16), "16");
    assert_eq!(decimal_text(100), "100");
    assert_eq!(decimal_text(1234567890), "1234567890");
}

#[test]
fn decimal_agrees_with_std() {
    for n in [0usize, 1, 99, 101, 4096, 131072, 0x80040000, usize::MAX, usize::MAX - 1] {
        assert_eq!(decimal_text(n), format!("{}", n));
    }
}

#[test]
fn hex_of_small_numbers() {
    assert_eq!(hex_text(0), "0x0");
    assert_eq!(hex_text(9), "0x9");
    assert_eq!(hex_text(10), "0xa");
    assert_eq!(hex_text(15), "0xf");
    assert_eq!(hex_text(16), "0x10");
    assert_eq!(hex_text(255), "0xff");
    assert_eq!(hex_text(0xabcdef), "0xabcdef");
}

#[test]
fn hex_of_layout_constants() {
    assert_eq!(hex_text(0x80040000), "0x80040000");
    assert_eq!(hex_text(0x20000), "0x20000");
}

#[test]
fn hex_agrees_with_std() {
    for n in [0usize, 1, 0x1000, 0x1100, 0x1300, 0xdeadbeef, usize::MAX] {
        assert_eq!(hex_text(n), format!("{:#x}", n));
    }
}
