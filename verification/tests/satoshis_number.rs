use satoshi_dice::games::satoshis_number::evaluate_digest;
use satoshi_dice::games::satoshis_number::SatoshisNumberGame;
use satoshi_dice::games::Game;
use satoshi_dice::key_derivation::Multiplier;
use std::collections::HashMap;

const TEST_ITERATIONS: usize = 1000;

fn run_multiplier_test(multiplier: Multiplier) -> (f64, f64, HashMap<&'static str, usize>) {
    let game = SatoshisNumberGame;

    let results: Vec<bool> = (0..TEST_ITERATIONS)
        .map(|i| {
            let nonce = i as u64;
            let txid = format!("test_txid_{i}");
            let evaluation = game.evaluate(nonce, &txid, &multiplier);
            evaluation.is_win
        })
        .collect();

    let wins = results.iter().filter(|&&x| x).count();
    let losses = results.iter().filter(|&&x| !x).count();

    let actual_win_rate = (wins as f64 / TEST_ITERATIONS as f64) * 100.0;
    let expected_win_rate = (multiplier.get_lower_than() as f64 / 65536.0) * 100.0;

    let mut stats = HashMap::new();
    stats.insert("wins", wins);
    stats.insert("losses", losses);
    stats.insert("total", TEST_ITERATIONS);

    (actual_win_rate, expected_win_rate, stats)
}

#[test]
fn satoshis_number_test_x200_multiplier() {
    let multiplier = Multiplier::X200;
    let (actual, expected, stats) = run_multiplier_test(multiplier);

    println!("X200 Test Results:");
    println!("Wins: {} | Losses: {}", stats["wins"], stats["losses"]);
    println!("Expected win rate: {expected:.2}%",);
    println!("Actual win rate: {actual:.2}%",);

    assert!(
        (actual - expected).abs() < 3.0,
        "Win rate deviation too high"
    );
}

#[test]
fn test_game_evaluation() {
    let game = SatoshisNumberGame;
    let evaluation = game.evaluate(12345, "test_tx", &Multiplier::X200);

    // Check that evaluation produces expected fields
    assert!(evaluation.rolled_value >= 0 && evaluation.rolled_value <= 65535);
    if evaluation.is_win {
        assert!(evaluation.payout_multiplier.is_some());
        assert_eq!(evaluation.payout_multiplier.unwrap() as f64 / 100.0, 2.0);
    } else {
        assert!(evaluation.payout_multiplier.is_none());
    }
}

#[test]
fn game_evaluation_has_the_exact_roll() {
    // sha256("12345test_tx") starts with ed69.
    let evaluation = SatoshisNumberGame.evaluate(12345, "test_tx", &Multiplier::X200);
    assert_eq!(evaluation.rolled_value, 0xed69);
    assert!(!evaluation.is_win);
    assert_eq!(evaluation.payout_multiplier, None);
}

#[test]
fn roll_is_the_first_two_bytes_big_endian() {
    let mut digest = [0u8; 32];
    digest[0] = 0x12;
    digest[1] = 0x34;
    digest[2] = 0xff;
    let evaluation = evaluate_digest(&digest, &Multiplier::X200);
    assert_eq!(evaluation.rolled_value, 0x1234);
    assert!(evaluation.is_win);
    assert_eq!(evaluation.payout_multiplier, Some(200));
}

#[test]
fn roll_at_the_threshold_loses() {
    let mut digest = [0u8; 32];
    // 31784 = 0x7c28 is the bound of the 2x multiplier.
    digest[0] = 0x7c;
    digest[1] = 0x28;
    let at = evaluate_digest(&digest, &Multiplier::X200);
    assert_eq!(at.rolled_value, 31784);
    assert!(!at.is_win);
    assert_eq!(at.payout_multiplier, None);
    digest[1] = 0x27;
    let below = evaluate_digest(&digest, &Multiplier::X200);
    assert_eq!(below.rolled_value, 31783);
    assert!(below.is_win);
}

#[test]
fn extreme_rolls() {
    let zero = evaluate_digest(&[0u8; 32], &Multiplier::X100000);
    assert_eq!(zero.rolled_value, 0);
    assert!(zero.is_win);
    assert_eq!(zero.payout_multiplier, Some(100000));
    let top = evaluate_digest(&[0xffu8; 32], &Multiplier::X105);
    assert_eq!(top.rolled_value, 65535);
    assert!(!top.is_win);
}

#[test]
fn game_names_itself() {
    assert_eq!(SatoshisNumberGame.name(), "Satoshi's Number");
    assert!(SatoshisNumberGame.description().contains("threshold"));
}

#[test]
fn win_rates_over_ten_thousand_rolls() {
    let game = SatoshisNumberGame;
    for multiplier in Multiplier::all() {
        let rolls = 10_000u64;
        let wins = (0..rolls)
            .filter(|i| {
                game.evaluate(*i, &format!("deposit_{i}"), &multiplier)
                    .is_win
            })
            .count();
        let observed = wins as f64 / rolls as f64 * 100.0;
        let expected = multiplier.get_lower_than() as f64 / 65536.0 * 100.0;
        let tolerance = if multiplier.get_lower_than() < 100 { 5.0 } else { 3.0 };
        assert!(
            (observed - expected).abs() < tolerance,
            "{multiplier:?}: observed {observed:.2}%, expected {expected:.2}%"
        );
    }
}
