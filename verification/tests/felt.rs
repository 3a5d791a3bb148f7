use atlantic_sdk::felt::{chain_hash, felt_le, felt_lt, FeltParseError, FieldElement};

#[test]
fn parse_hex_simple() {
    let f = FieldElement::parse("0x1a").unwrap();
    assert_eq!(f, FieldElement::from_u64(26));
}

#[test]
fn parse_decimal_simple() {
    let f = FieldElement::parse("26").unwrap();
    assert_eq!(f, FieldElement::from_u64(26));
}

#[test]
fn parse_zero_forms() {
    assert_eq!(FieldElement::parse("0x0").unwrap(), FieldElement::zero());
    assert_eq!(FieldElement::parse("0").unwrap(), FieldElement::zero());
    assert_eq!(FieldElement::parse("0x000").unwrap(), FieldElement::zero());
}

#[test]
fn parse_large_value() {
    let f = FieldElement::parse(
        "0x193641eb151b0f41674641089952e60bc3aded26e3cf42793655c562b8c3aa0",
    )
    .unwrap();
    assert_eq!(
        f.to_hex(),
        "0x193641eb151b0f41674641089952e60bc3aded26e3cf42793655c562b8c3aa0"
    );
}

#[test]
fn parse_rejects_prime_and_above() {
    // the field prime itself, in hex and in decimal
    let prime_hex = "0x800000000000011000000000000000000000000000000000000000000000001";
    assert_eq!(
        FieldElement::parse(prime_hex),
        Err(FeltParseError::OutOfRange)
    );
    let prime_dec = "3618502788666131213697322783095070105623107215331596699973092056135872020481";
    assert_eq!(
        FieldElement::parse(prime_dec),
        Err(FeltParseError::OutOfRange)
    );
    // one below the prime is accepted
    let below = "0x800000000000011000000000000000000000000000000000000000000000000";
    assert!(FieldElement::parse(below).is_ok());
}

#[test]
fn parse_rejects_malformed() {
    assert_eq!(FieldElement::parse(""), Err(FeltParseError::InvalidFormat));
    assert_eq!(FieldElement::parse("0x"), Err(FeltParseError::InvalidFormat));
    assert_eq!(
        FieldElement::parse("xyz"),
        Err(FeltParseError::InvalidFormat)
    );
    assert_eq!(
        FieldElement::parse("12a"),
        Err(FeltParseError::InvalidFormat)
    );
    assert_eq!(
        FieldElement::parse("0x12g"),
        Err(FeltParseError::InvalidFormat)
    );
}

#[test]
fn hex_round_trip() {
    for text in ["0x0", "0x1", "0x1a", "0xff00ff", "0xdeadbeef"] {
        let f = FieldElement::parse(text).unwrap();
        assert_eq!(f.to_hex(), text);
        assert_eq!(FieldElement::parse(&f.to_hex()).unwrap(), f);
    }
}

#[test]
fn ordering_is_value_based() {
    let small = FieldElement::parse("0x5").unwrap();
    let large = FieldElement::parse("0x10000000000000000").unwrap();
    assert!(felt_lt(&small, &large));
    assert!(!felt_lt(&large, &small));
    assert!(felt_le(&small, &small));
}

#[test]
fn chain_hash_values() {
    // empty sequence hashes to zero
    assert_eq!(chain_hash(&vec![]), FieldElement::zero());
    // [1, 2]: h = 2*0+1 = 1, then h = 2*1+2 = 4
    let vals = vec![FieldElement::from_u64(1), FieldElement::from_u64(2)];
    assert_eq!(chain_hash(&vals), FieldElement::from_u64(4));
    // order matters: [2, 1] gives 2*2+1 = 5
    let swapped = vec![FieldElement::from_u64(2), FieldElement::from_u64(1)];
    assert_eq!(chain_hash(&swapped), FieldElement::from_u64(5));
}
