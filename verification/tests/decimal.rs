use awesome_remote::decimal::{append_decimal, render_decimal};

#[test]
fn renders_zero_as_a_single_digit() {
    assert_eq!(render_decimal(0), "0");
}

#[test]
fn renders_every_single_digit() {
    let expected = ["0", "1", "2", "3", "4", "5", "6", "7", "8", "9"];
    for (n, text) in expected.iter().enumerate() {
        assert_eq!(render_decimal(n as u64), *text);
    }
}

#[test]
fn renders_most_significant_digit_first() {
    assert_eq!(render_decimal(10), "10");
    assert_eq!(render_decimal(907), "907");
    assert_eq!(render_decimal(1234567890), "1234567890");
}

#[test]
fn renders_beyond_32_bits() {
    assert_eq!(render_decimal(4294967295), "4294967295");
    assert_eq!(render_decimal(4294967296), "4294967296");
    assert_eq!(render_decimal(u64::MAX), "18446744073709551615");
}

#[test]
fn renders_as_the_standard_library_does() {
    for n in 0u64..3000 {
        assert_eq!(render_decimal(n), n.to_string());
    }
    let mut n: u64 = 1;
    for _ in 0..19 {
        assert_eq!(render_decimal(n), n.to_string());
        assert_eq!(render_decimal(n - 1), (n - 1).to_string());
        assert_eq!(render_decimal(n + 1), (n + 1).to_string());
        n *= 10;
    }
}

#[test]
fn append_keeps_what_was_there() {
    let mut text = String::from("screen[");
    append_decimal(&mut text, 42);
    assert_eq!(text, "screen[42");
    append_decimal(&mut text, 0);
    assert_eq!(text, "screen[420");
}
