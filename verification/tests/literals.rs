use orderbook_settings::literal::{is_literal, parse_vault_id, VaultId};

fn id(limbs: [u64; 4]) -> Option<VaultId> {
    Some(VaultId { limbs })
}

#[test]
fn decimal_and_hex_literals_give_the_same_number() {
    assert_eq!(parse_vault_id("2"), id([2, 0, 0, 0]));
    assert_eq!(parse_vault_id("0x2"), id([2, 0, 0, 0]));
    assert_eq!(parse_vault_id("2"), parse_vault_id("0x2"));
}

#[test]
fn hex_one_is_one() {
    assert_eq!(parse_vault_id("0x1"), id([1, 0, 0, 0]));
}

#[test]
fn hex_digits_of_either_case() {
    assert_eq!(parse_vault_id("0xff"), id([255, 0, 0, 0]));
    assert_eq!(parse_vault_id("0XFF"), id([255, 0, 0, 0]));
    assert_eq!(parse_vault_id("0xAbCd"), id([0xabcd, 0, 0, 0]));
}

#[test]
fn decimal_value_is_positional() {
    assert_eq!(parse_vault_id("0"), id([0, 0, 0, 0]));
    assert_eq!(parse_vault_id("007"), id([7, 0, 0, 0]));
    assert_eq!(parse_vault_id("1234567890"), id([1234567890, 0, 0, 0]));
}

#[test]
fn limbs_are_least_significant_first() {
    // 2^64
    assert_eq!(parse_vault_id("18446744073709551616"), id([0, 1, 0, 0]));
    assert_eq!(parse_vault_id("0x10000000000000000"), id([0, 1, 0, 0]));
    // 2^192 + 5
    assert_eq!(
        parse_vault_id("0x1000000000000000000000000000000000000000000000005"),
        id([5, 0, 0, 1])
    );
}

#[test]
fn largest_vault_id() {
    let max = "115792089237316195423570985008687907853269984665640564039457584007913129639935";
    assert_eq!(parse_vault_id(max), id([u64::MAX; 4]));
    let max_hex = "0xffffffffffffffffffffffffffffffffffffffffffffffffffffffffffffffff";
    assert_eq!(parse_vault_id(max_hex), id([u64::MAX; 4]));
}

#[test]
fn a_number_of_more_than_256_bits_is_refused() {
    let over = "115792089237316195423570985008687907853269984665640564039457584007913129639936";
    assert!(is_literal(over));
    assert_eq!(parse_vault_id(over), None);
    let over_hex = "0x10000000000000000000000000000000000000000000000000000000000000000";
    assert!(is_literal(over_hex));
    assert_eq!(parse_vault_id(over_hex), None);
}

#[test]
fn leading_zeros_do_not_overflow() {
    let padded = "0x0000000000000000000000000000000000000000000000000000000000000000000001";
    assert_eq!(parse_vault_id(padded), id([1, 0, 0, 0]));
}

#[test]
fn what_is_neither_decimal_nor_hex_is_refused() {
    for text in [
        "", "0x", "0X", "x1", "1x", "-1", "+1", " 1", "1 ", "1_000", "0x1_0", "0o17", "0b101",
        "12a", "0xg", "0x1g", "abc", "1.5", "１２",
    ] {
        assert!(!is_literal(text), "{text:?}");
        assert_eq!(parse_vault_id(text), None, "{text:?}");
    }
}

#[test]
fn the_two_forms_are_told_apart() {
    assert!(is_literal("0"));
    assert!(is_literal("00"));
    assert!(is_literal("0x0"));
    assert!(is_literal("0Xa"));
    assert!(!is_literal("0xx"));
}
