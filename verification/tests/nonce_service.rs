use satoshi_dice::db::get_nonce;
use satoshi_dice::db::is_nonce_valid;
use satoshi_dice::db::Ledger;
use satoshi_dice::nonce_service::hash_nonce_text;
use satoshi_dice::nonce_service::spawn_nonce_service;
use satoshi_dice::nonce_service::NonceService;
use satoshi_dice::text::decimal_string;
use satoshi_dice::text::hex_string;
use satoshi_dice::text::same_bytes;
use satoshi_dice::text::same_text;

const HASH_OF_42: &str = "73475cb40a568e8da8a045ced110137e159f890ac4da883b6b17dc651b3a8049";

#[test]
fn decimal_renderings() {
    assert_eq!(decimal_string(0), "0");
    assert_eq!(decimal_string(7), "7");
    assert_eq!(decimal_string(10), "10");
    assert_eq!(decimal_string(42), "42");
    assert_eq!(decimal_string(1_000_000), "1000000");
    assert_eq!(decimal_string(u64::MAX), "18446744073709551615");
}

#[test]
fn hexadecimal_renderings() {
    assert_eq!(hex_string(&[]), "");
    assert_eq!(hex_string(&[0]), "00");
    assert_eq!(hex_string(&[0x0f, 0xa0, 0xff, 0x09]), "0fa0ff09");
    assert_eq!(hex_string(&[0xde, 0xad, 0xbe, 0xef]), "deadbeef");
}

#[test]
fn text_comparisons() {
    assert!(same_text("", ""));
    assert!(same_text("abc", "abc"));
    assert!(!same_text("abc", "abd"));
    assert!(!same_text("abc", "ab"));
    assert!(same_bytes(&[1, 2, 3], &[1, 2, 3]));
    assert!(!same_bytes(&[1, 2, 3], &[1, 2]));
    assert!(!same_bytes(&[1, 2, 3], &[1, 2, 4]));
}

#[test]
fn hash_of_the_current_nonce() {
    let service = NonceService::with_nonce(42, 1);
    assert_eq!(service.get_current_nonce(), 42);
    assert_eq!(service.get_current_nonce_hash(), HASH_OF_42);
    assert_eq!(hash_nonce_text("42"), HASH_OF_42);
}

#[test]
fn hash_differs_from_its_input() {
    assert_ne!(hash_nonce_text("42"), "42");
    assert_eq!(hash_nonce_text("42").len(), 64);
    assert_ne!(hash_nonce_text("42"), hash_nonce_text("43"));
}

#[test]
fn current_nonce_is_not_revealed() {
    let service = NonceService::with_nonce(42, 1);
    assert_eq!(service.get_revealable_nonce("42"), None);
    assert_eq!(service.get_revealable_nonce("41"), Some("41".to_string()));
    assert_eq!(service.get_revealable_nonce("420"), Some("420".to_string()));
}

#[test]
fn only_the_exact_rendering_of_the_current_nonce_is_withheld() {
    let service = NonceService::with_nonce(42, 1);
    assert_eq!(service.get_revealable_nonce("042"), Some("042".to_string()));
    assert_eq!(service.get_revealable_nonce("+42"), Some("+42".to_string()));
    assert_eq!(service.get_revealable_nonce("nonce"), Some("nonce".to_string()));
    assert_eq!(service.get_revealable_nonce(""), Some(String::new()));
}

#[test]
fn installing_a_nonce_stores_it_with_hash_and_expiry() {
    let mut ledger = Ledger::new();
    let mut service = NonceService::with_nonce(7, 2);
    let id = service.install(&mut ledger, 42, 1_000).unwrap();
    assert_eq!(id, 1);
    assert_eq!(service.get_current_nonce(), 42);
    let row = get_nonce(&ledger, "42").unwrap();
    assert_eq!(row.id, 1);
    assert_eq!(row.nonce, "42");
    assert_eq!(row.nonce_hash, HASH_OF_42);
    assert_eq!(row.created_at, 1_000);
    assert_eq!(row.expires_at, 1_000 + 2 * 3600);
    assert!(get_nonce(&ledger, "7").is_none());
}

#[test]
fn nonce_is_valid_until_it_expires() {
    let mut ledger = Ledger::new();
    let mut service = NonceService::with_nonce(7, 1);
    service.install(&mut ledger, 42, 1_000).unwrap();
    assert!(service.verify_nonce(&ledger, "42", 1_000));
    assert!(is_nonce_valid(&ledger, "42", 4_599));
    assert!(!is_nonce_valid(&ledger, "42", 4_600));
    assert!(!is_nonce_valid(&ledger, "43", 1_000));
}

#[test]
fn rotation_makes_the_old_nonce_revealable() {
    let mut ledger = Ledger::new();
    let mut service = NonceService::with_nonce(42, 1);
    assert_eq!(service.get_revealable_nonce("42"), None);
    service.install(&mut ledger, 43, 10).unwrap();
    assert_eq!(service.get_revealable_nonce("42"), Some("42".to_string()));
    assert_eq!(service.get_revealable_nonce("43"), None);
}

#[test]
fn generated_nonce_is_stored_and_current() {
    let mut ledger = Ledger::new();
    let mut service = NonceService::with_nonce(42, 1);
    let id = service.generate(&mut ledger, 500).unwrap();
    assert_eq!(id, 1);
    let current = service.get_current_nonce().to_string();
    let row = get_nonce(&ledger, &current).unwrap();
    assert_eq!(row.nonce_hash, service.get_current_nonce_hash());
    assert_eq!(row.expires_at, 500 + 3600);
}

#[test]
fn spawned_service_has_stored_its_first_nonce() {
    let mut ledger = Ledger::new();
    let service = spawn_nonce_service(&mut ledger, 24, 100);
    let current = service.get_current_nonce().to_string();
    let row = get_nonce(&ledger, &current).unwrap();
    assert_eq!(row.id, 1);
    assert_eq!(row.nonce_hash, service.get_current_nonce_hash());
    assert_eq!(row.expires_at, 100 + 24 * 3600);
    assert_eq!(service.get_revealable_nonce(&current), None);
}

#[test]
fn fresh_services_draw_their_own_nonces() {
    let drawn: Vec<u64> = (0..8)
        .map(|_| NonceService::new(1).get_current_nonce())
        .collect();
    let first = drawn[0];
    assert!(drawn.iter().any(|nonce| *nonce != first));
}
