use satoshi_dice::fairness::parse_decimal;
use satoshi_dice::fairness::verify_round;
use satoshi_dice::key_derivation::Multiplier;

const HASH_OF_42: &str = "73475cb40a568e8da8a045ced110137e159f890ac4da883b6b17dc651b3a8049";

fn txid(byte: &str) -> String {
    byte.repeat(32)
}

#[test]
fn numbers_are_read_from_their_rendering() {
    assert_eq!(parse_decimal("0"), Some(0));
    assert_eq!(parse_decimal("7"), Some(7));
    assert_eq!(parse_decimal("42"), Some(42));
    assert_eq!(parse_decimal("1000000"), Some(1_000_000));
    assert_eq!(parse_decimal("18446744073709551615"), Some(u64::MAX));
}

#[test]
fn anything_but_the_rendering_is_refused() {
    assert_eq!(parse_decimal(""), None);
    assert_eq!(parse_decimal("042"), None);
    assert_eq!(parse_decimal("00"), None);
    assert_eq!(parse_decimal("+42"), None);
    assert_eq!(parse_decimal("-1"), None);
    assert_eq!(parse_decimal(" 42"), None);
    assert_eq!(parse_decimal("42 "), None);
    assert_eq!(parse_decimal("4 2"), None);
    assert_eq!(parse_decimal("4a"), None);
    assert_eq!(parse_decimal("٤٢"), None);
    assert_eq!(parse_decimal("18446744073709551616"), None);
    assert_eq!(parse_decimal("99999999999999999999999"), None);
}

#[test]
fn a_fair_round_passes_the_check() {
    assert!(verify_round("42", HASH_OF_42, &txid("ab"), &Multiplier::X200, 17_192, true));
    assert!(verify_round("42", HASH_OF_42, &txid("00"), &Multiplier::X200, 62_383, false));
    assert!(verify_round("42", HASH_OF_42, &txid("ff"), &Multiplier::X300, 24_672, false));
}

#[test]
fn a_round_that_was_tampered_with_fails_the_check() {
    // another roll
    assert!(!verify_round("42", HASH_OF_42, &txid("ab"), &Multiplier::X200, 17_193, true));
    // another verdict
    assert!(!verify_round("42", HASH_OF_42, &txid("ab"), &Multiplier::X200, 17_192, false));
    assert!(!verify_round("42", HASH_OF_42, &txid("00"), &Multiplier::X200, 62_383, true));
    // another multiplier: 17192 is no win at ten times
    assert!(!verify_round("42", HASH_OF_42, &txid("ab"), &Multiplier::X1000, 17_192, true));
    // another deposit
    assert!(!verify_round("42", HASH_OF_42, &txid("ac"), &Multiplier::X200, 17_192, true));
    // a nonce that was not committed to
    assert!(!verify_round("43", HASH_OF_42, &txid("ab"), &Multiplier::X200, 17_192, true));
    // a commitment to another nonce
    let other = satoshi_dice::nonce_service::hash_nonce_text("43");
    assert!(!verify_round("42", &other, &txid("ab"), &Multiplier::X200, 17_192, true));
    // a commitment in upper case is another text
    assert!(!verify_round(
        "42",
        &HASH_OF_42.to_uppercase(),
        &txid("ab"),
        &Multiplier::X200,
        17_192,
        true
    ));
    // a nonce that is no number
    assert!(!verify_round("042", HASH_OF_42, &txid("ab"), &Multiplier::X200, 17_192, true));
    // a donation has no roll to check
    assert!(!verify_round("42", HASH_OF_42, &txid("ab"), &Multiplier::X200, -1, false));
}
