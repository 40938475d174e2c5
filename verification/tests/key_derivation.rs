use satoshi_dice::key_derivation::KeyDerivation;
use satoshi_dice::key_derivation::KeyError;
use satoshi_dice::key_derivation::Multiplier;
use satoshi_dice::key_derivation::Network;

const ZERO_SEED: &str = "0000000000000000000000000000000000000000000000000000000000000000";
const COUNTING_SEED: &str = "000102030405060708090a0b0c0d0e0f101112131415161718191a1b1c1d1e1f";

fn hex(bytes: &[u8]) -> String {
    bytes.iter().map(|b| format!("{b:02x}")).collect()
}

#[test]
fn multiplier_values() {
    let expected: Vec<(Multiplier, u64, u32, u16)> = vec![
        (Multiplier::X105, 105, 0, 60_541),
        (Multiplier::X110, 110, 1, 57_789),
        (Multiplier::X133, 133, 2, 47_796),
        (Multiplier::X150, 150, 3, 42_379),
        (Multiplier::X200, 200, 4, 31_784),
        (Multiplier::X300, 300, 5, 21_189),
        (Multiplier::X1000, 1000, 6, 6_356),
        (Multiplier::X2500, 2500, 7, 2_542),
        (Multiplier::X5000, 5000, 8, 1_271),
        (Multiplier::X10000, 10000, 9, 635),
        (Multiplier::X100000, 100000, 10, 64),
    ];
    let all = Multiplier::all();
    assert_eq!(all.len(), 11);
    for (i, (multiplier, ratio, index, bound)) in expected.into_iter().enumerate() {
        assert_eq!(all[i], multiplier);
        assert_eq!(multiplier.multiplier(), ratio);
        assert_eq!(multiplier.index(), index);
        assert_eq!(multiplier.get_lower_than(), bound);
        assert_eq!(Multiplier::from_index(index), Some(multiplier));
        assert_eq!(Multiplier::from_value(ratio), Some(multiplier));
    }
}

#[test]
fn multiplier_lookups_miss() {
    assert_eq!(Multiplier::from_index(11), None);
    assert_eq!(Multiplier::from_index(u32::MAX), None);
    assert_eq!(Multiplier::from_value(0), None);
    assert_eq!(Multiplier::from_value(100), None);
    assert_eq!(Multiplier::from_value(201), None);
}

#[test]
fn multiplier_win_is_strictly_below_the_bound() {
    assert!(Multiplier::X200.is_win(0));
    assert!(Multiplier::X200.is_win(31_783));
    assert!(!Multiplier::X200.is_win(31_784));
    assert!(!Multiplier::X200.is_win(65_535));
    assert!(Multiplier::X100000.is_win(63));
    assert!(!Multiplier::X100000.is_win(64));
}

#[test]
fn multiplier_display() {
    let shown: Vec<String> = Multiplier::all().iter().map(|m| m.display()).collect();
    assert_eq!(
        shown,
        vec!["1.05x", "1.10x", "1.33x", "1.50x", "2x", "3x", "10x", "25x", "50x", "100x", "1000x"]
    );
}

#[test]
fn main_key_of_the_zero_seed() {
    let keys = KeyDerivation::from_seed(ZERO_SEED, Network::Bitcoin).unwrap();
    assert_eq!(
        hex(&keys.get_main_secret_key().unwrap()),
        "ae1559cedabb305c5f3b80d695f50702e14e31463e151866cfcf4a6e543d695a"
    );
}

#[test]
fn game_keys_of_the_zero_seed() {
    let keys = KeyDerivation::from_seed(ZERO_SEED, Network::Bitcoin).unwrap();
    assert_eq!(
        hex(&keys.get_game_secret_key(Multiplier::X105).unwrap()),
        "6d4d89c675b14d655376ea2cd5d51767a757b82c8c932cb592f85974393fff20"
    );
    assert_eq!(
        hex(&keys.get_game_secret_key(Multiplier::X200).unwrap()),
        "150524771ae50d9cdfc7e8b854b95ce963d31c8b2817aa87fc3a01af23e6d62c"
    );
    assert_eq!(
        hex(&keys.get_game_secret_key(Multiplier::X100000).unwrap()),
        "414dcae9f66f29e7cbe65cb85c9d33d6a9696122e3fcfe9a903a428e753496a1"
    );
}

#[test]
fn keys_of_the_counting_seed() {
    let keys = KeyDerivation::from_seed(COUNTING_SEED, Network::Regtest).unwrap();
    assert_eq!(
        hex(&keys.get_main_secret_key().unwrap()),
        "7f9db88871bef7ebe06b613bc571d2cb277ca8dac8ec9d9c4734e0feb5e9fa63"
    );
    assert_eq!(
        hex(&keys.get_game_secret_key(Multiplier::X200).unwrap()),
        "7dcd9ca2a358b92a3d3c7befac43a3c3d85ca82a176356c97728242a5c5138c1"
    );
}

#[test]
fn seed_in_upper_case_gives_the_same_keys() {
    let lower = KeyDerivation::from_seed(COUNTING_SEED, Network::Bitcoin).unwrap();
    let upper =
        KeyDerivation::from_seed(&COUNTING_SEED.to_uppercase(), Network::Bitcoin).unwrap();
    assert_eq!(
        lower.get_main_secret_key().unwrap(),
        upper.get_main_secret_key().unwrap()
    );
}

#[test]
fn derivation_is_stable() {
    let first = KeyDerivation::from_seed(COUNTING_SEED, Network::Bitcoin).unwrap();
    let second = KeyDerivation::from_seed(COUNTING_SEED, Network::Bitcoin).unwrap();
    for multiplier in Multiplier::all() {
        assert_eq!(
            first.get_game_secret_key(multiplier).unwrap(),
            second.get_game_secret_key(multiplier).unwrap()
        );
    }
}

#[test]
fn all_game_keys_come_in_the_order_of_the_multipliers() {
    let keys = KeyDerivation::from_seed(ZERO_SEED, Network::Bitcoin).unwrap();
    let all = keys.get_all_game_keys().unwrap();
    assert_eq!(all.len(), 11);
    for (i, (multiplier, key)) in all.iter().enumerate() {
        assert_eq!(*multiplier, Multiplier::all()[i]);
        assert_eq!(key.encoded.len(), 78);
        assert_eq!(
            key.secret_bytes(),
            keys.get_game_secret_key(*multiplier).unwrap()
        );
        // depth 5, and the child number is the position of the multiplier
        assert_eq!(key.encoded[4], 5);
        assert_eq!(&key.encoded[9..13], &(i as u32).to_be_bytes());
    }
}

#[test]
fn network_decides_the_version_of_the_key() {
    let main = KeyDerivation::from_seed(ZERO_SEED, Network::Bitcoin).unwrap();
    let test = KeyDerivation::from_seed(ZERO_SEED, Network::Signet).unwrap();
    let main_key = main.get_main_key().unwrap();
    let test_key = test.get_main_key().unwrap();
    assert_eq!(&main_key.encoded[0..4], &[0x04, 0x88, 0xAD, 0xE4]);
    assert_eq!(&test_key.encoded[0..4], &[0x04, 0x35, 0x83, 0x94]);
    assert_eq!(main_key.secret_bytes(), test_key.secret_bytes());
}

#[test]
fn seed_that_is_not_hexadecimal_is_refused() {
    let bad = "zz00000000000000000000000000000000000000000000000000000000000000";
    assert_eq!(
        KeyDerivation::from_seed(bad, Network::Bitcoin).err(),
        Some(KeyError::InvalidHexSeed)
    );
    assert_eq!(
        KeyDerivation::from_seed("abc", Network::Bitcoin).err(),
        Some(KeyError::InvalidHexSeed)
    );
}

#[test]
fn seed_of_the_wrong_length_is_refused() {
    assert_eq!(
        KeyDerivation::from_seed("", Network::Bitcoin).err(),
        Some(KeyError::SeedLength)
    );
    assert_eq!(
        KeyDerivation::from_seed("000102030405060708090a0b0c0d0e0f", Network::Bitcoin).err(),
        Some(KeyError::SeedLength)
    );
    let long = format!("{ZERO_SEED}00");
    assert_eq!(
        KeyDerivation::from_seed(&long, Network::Bitcoin).err(),
        Some(KeyError::SeedLength)
    );
}

#[test]
fn master_key_from_text() {
    // The master key of the first test vector of BIP-32.
    let text = "xprv9s21ZrQH143K3QTDL4LXw2F7HEK3wJUD2nW2nRk4stbPy6cq3jPPqjiChkVvvNKmPGJxWUtg6LnF5kejMRNNU3TGtRBeJgk33yuGBxrMPHi";
    let keys = KeyDerivation::new(text).unwrap();
    let main = keys.get_main_key().unwrap();
    assert_eq!(main.encoded.len(), 78);
    assert_eq!(main.encoded[4], 5);
    assert_eq!(
        hex(&keys.get_main_secret_key().unwrap()),
        "8d98d2f794f9935b7fb57e18dfe8d9ae34149a58835c299f219ac5fa0bac739a"
    );
    assert_eq!(
        hex(&keys.get_game_secret_key(Multiplier::X200).unwrap()),
        "572239be82ee60a600c3dd9e65e6acbfd933a7f4fdd47ed166e6eba257a367fc"
    );
    assert_eq!(
        KeyDerivation::new("not a key").err(),
        Some(KeyError::InvalidMasterKey)
    );
}
