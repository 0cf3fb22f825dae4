use cdn_optimizer::address::Address;
use cdn_optimizer::text::{decimal_text, digit_text};

fn v4(a: u32, b: u32, c: u32, d: u32) -> Address {
    Address::V4((a << 24) | (b << 16) | (c << 8) | d)
}

fn v6(groups: [u16; 8]) -> Address {
    let mut bits: u128 = 0;
    for group in groups {
        bits = (bits << 16) | group as u128;
    }
    Address::V6(bits)
}

#[test]
fn decimal_text_of_zero_is_one_digit() {
    assert_eq!(decimal_text(0), "0");
}

#[test]
fn decimal_text_has_no_leading_zeros() {
    assert_eq!(decimal_text(7), "7");
    assert_eq!(decimal_text(10), "10");
    assert_eq!(decimal_text(12345), "12345");
    assert_eq!(decimal_text(1_000_000), "1000000");
}

#[test]
fn decimal_text_of_largest_number() {
    assert_eq!(decimal_text(u64::MAX), "18446744073709551615");
}

#[test]
fn digit_text_covers_sixteen_digits() {
    let all: Vec<&str> = (0u8..16).map(digit_text).collect();
    assert_eq!(all.concat(), "0123456789abcdef");
}

#[test]
fn ipv4_text_is_dotted_decimal() {
    assert_eq!(v4(10, 0, 0, 1).to_text(), "10.0.0.1");
    assert_eq!(v4(0, 0, 0, 0).to_text(), "0.0.0.0");
    assert_eq!(v4(255, 255, 255, 255).to_text(), "255.255.255.255");
    assert_eq!(v4(192, 168, 1, 254).to_text(), "192.168.1.254");
    assert_eq!(Address::V4(0x01020304).to_text(), "1.2.3.4");
}

#[test]
fn ipv6_text_shortens_the_longest_zero_run() {
    assert_eq!(v6([0x2001, 0xdb8, 0, 0, 0, 0, 0, 1]).to_text(), "2001:db8::1");
    assert_eq!(v6([0x2001, 0xdb8, 0, 0, 1, 0, 0, 1]).to_text(), "2001:db8::1:0:0:1");
    assert_eq!(v6([1, 0, 0, 2, 0, 0, 0, 3]).to_text(), "1:0:0:2::3");
    assert_eq!(v6([0xfe80, 0, 0, 0, 0, 0, 0, 0]).to_text(), "fe80::");
}

#[test]
fn ipv6_text_of_unspecified_and_loopback() {
    assert_eq!(Address::V6(0).to_text(), "::");
    assert_eq!(Address::V6(1).to_text(), "::1");
}

#[test]
fn ipv6_text_keeps_a_single_zero_group() {
    assert_eq!(v6([0x2001, 0xdb8, 0, 1, 1, 1, 1, 1]).to_text(), "2001:db8:0:1:1:1:1:1");
    assert_eq!(v6([1, 2, 3, 4, 5, 6, 7, 8]).to_text(), "1:2:3:4:5:6:7:8");
}

#[test]
fn ipv6_text_uses_lower_case_without_leading_zeros() {
    assert_eq!(
        v6([0xABCD, 0x00EF, 0x0001, 0x1000, 0xffff, 0x0a0b, 0x00c0, 0x000d]).to_text(),
        "abcd:ef:1:1000:ffff:a0b:c0:d"
    );
}

#[test]
fn ipv6_text_of_mapped_ipv4_is_dotted() {
    assert_eq!(v6([0, 0, 0, 0, 0, 0xffff, 0xc000, 0x0201]).to_text(), "::ffff:192.0.2.1");
}

#[test]
fn addresses_compare_by_value() {
    assert_eq!(v4(10, 0, 0, 1), Address::V4(0x0a000001));
    assert_ne!(Address::V4(1), Address::V6(1));
}
