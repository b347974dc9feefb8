use jayce::address::AddressBook;
use jayce::address::ChainAddress;

#[test]
fn test_from_hex_short_literal_is_left_padded() {
    let a = ChainAddress::from_hex("0x1").unwrap();
    let expected = format!("0x{}{}", "0".repeat(63), "1");
    assert_eq!(a.to_hex(), expected);
}

#[test]
fn test_from_hex_accepts_missing_prefix_and_upper_case() {
    let a = ChainAddress::from_hex("FF").unwrap();
    let b = ChainAddress::from_hex("0xff").unwrap();
    assert_eq!(a, b);
    assert!(a.to_hex().ends_with("ff"));
}

#[test]
fn test_from_hex_normalizes_leading_zero_digits() {
    let a = ChainAddress::from_hex("0x01").unwrap();
    let b = ChainAddress::from_hex("0x1").unwrap();
    assert_eq!(a, b);
}

#[test]
fn test_from_hex_rejects_malformed_literals() {
    assert!(ChainAddress::from_hex("").is_none());
    assert!(ChainAddress::from_hex("0x").is_none());
    assert!(ChainAddress::from_hex("0xg1").is_none());
    assert!(ChainAddress::from_hex("hello").is_none());
    let too_long = format!("0x{}", "1".repeat(65));
    assert!(ChainAddress::from_hex(&too_long).is_none());
}

#[test]
fn test_from_hex_accepts_full_width_literal() {
    let digits = "0123456789abcdef".repeat(4);
    let a = ChainAddress::from_hex(&format!("0x{}", digits)).unwrap();
    assert_eq!(a.to_hex(), format!("0x{}", digits));
}

#[test]
fn test_hex_round_trip() {
    for lit in ["0x1", "0xdeadbeef", "abc", "0x0"] {
        let a = ChainAddress::from_hex(lit).unwrap();
        let rendered = a.to_hex();
        let back = ChainAddress::from_hex(&rendered).unwrap();
        assert_eq!(a, back);
    }
}

#[test]
fn test_address_book_insert_get_contains() {
    let mut book = AddressBook::new();
    let name = "lib_addr".to_string();
    assert!(!book.contains_name(&name));
    assert!(book.get(&name).is_none());

    let a1 = ChainAddress::from_hex("0x10").unwrap();
    book.insert(name.clone(), a1.clone());
    assert!(book.contains_name(&name));
    assert_eq!(book.get(&name), Some(&a1));

    // a later binding for the same name replaces the earlier one
    let a2 = ChainAddress::from_hex("0x20").unwrap();
    book.insert(name.clone(), a2.clone());
    assert_eq!(book.get(&name), Some(&a2));

    let other = "cpu_addr".to_string();
    assert!(!book.contains_name(&other));
}
