use state_keeper_oracle::operator_key::{is_secret_key, oracle_config_path, parse_operator_key};
use state_keeper_oracle::primitives::H256;

const ORDER: &str = "FFFFFFFFFFFFFFFFFFFFFFFFFFFFFFFEBAAEDCE6AF48A03BBFD25E8CD0364141";
const ORDER_MINUS_ONE: &str = "FFFFFFFFFFFFFFFFFFFFFFFFFFFFFFFEBAAEDCE6AF48A03BBFD25E8CD0364140";

#[test]
fn key_with_and_without_prefix() {
    let hex = "4c0883a69102937d6231471b5dbb6204fe5129617082792ae468d01a3f362318";
    let expected = H256([
        0x4c, 0x08, 0x83, 0xa6, 0x91, 0x02, 0x93, 0x7d, 0x62, 0x31, 0x47, 0x1b, 0x5d, 0xbb, 0x62,
        0x04, 0xfe, 0x51, 0x29, 0x61, 0x70, 0x82, 0x79, 0x2a, 0xe4, 0x68, 0xd0, 0x1a, 0x3f, 0x36,
        0x23, 0x18,
    ]);
    assert_eq!(parse_operator_key(hex), Some(expected));
    assert_eq!(parse_operator_key(&format!("0x{hex}")), Some(expected));
    assert_eq!(parse_operator_key(&hex.to_uppercase()), Some(expected));
}

#[test]
fn key_must_be_32_bytes_of_hex() {
    assert_eq!(parse_operator_key(""), None);
    assert_eq!(parse_operator_key("0x"), None);
    assert_eq!(parse_operator_key("0x01"), None);
    assert_eq!(parse_operator_key(&"1".repeat(63)), None);
    assert_eq!(parse_operator_key(&"1".repeat(66)), None);
    assert_eq!(parse_operator_key(&format!("{}g", "1".repeat(63))), None);
    assert_eq!(parse_operator_key(&format!("0X{}", "1".repeat(64))), None);
    assert_eq!(parse_operator_key(&format!("0x0x{}", "1".repeat(62))), None);
}

#[test]
fn key_must_be_in_the_group() {
    assert_eq!(parse_operator_key(&"0".repeat(64)), None);
    assert_eq!(parse_operator_key(ORDER), None);
    assert_eq!(parse_operator_key(&"F".repeat(64)), None);
    assert!(parse_operator_key(ORDER_MINUS_ONE).is_some());
    let mut one = "0".repeat(63);
    one.push('1');
    assert!(parse_operator_key(&one).is_some());
}

#[test]
fn secret_key_bounds() {
    assert!(!is_secret_key(&[0u8; 32]));
    let mut one = [0u8; 32];
    one[31] = 1;
    assert!(is_secret_key(&one));
    assert!(!is_secret_key(&[0xFF; 32]));
}

#[test]
fn config_path_defaults() {
    assert_eq!(oracle_config_path(None), "config/baby-chain.toml");
    assert_eq!(oracle_config_path(Some("custom.toml".to_string())), "custom.toml");
}
