use satoshi_dice::client::GameArkAddress;
use satoshi_dice::client::VtxoOutPoint;
use satoshi_dice::db::get_game_results_paginated;
use satoshi_dice::db::get_total_game_count;
use satoshi_dice::db::get_unpaid_winners;
use satoshi_dice::db::insert_game_result;
use satoshi_dice::db::insert_own_transaction;
use satoshi_dice::db::is_own_transaction;
use satoshi_dice::db::GameResult;
use satoshi_dice::db::Ledger;
use satoshi_dice::games::GameType;
use satoshi_dice::key_derivation::Multiplier;
use satoshi_dice::recovery::payout_owed;
use satoshi_dice::recovery::process_missed_games;
use satoshi_dice::recovery::process_missed_payouts;
use satoshi_dice::recovery::settle_retry;
use satoshi_dice::recovery::Fate;
use satoshi_dice::recovery::MissedGames;
use satoshi_dice::recovery::MissedGamesReport;
use satoshi_dice::recovery::MissedPayoutsReport;
use satoshi_dice::recovery::RecoveryError;

const OWN: &str = "tark1house";
const PLAYER: &str = "tark1player";

fn txid(byte: &str) -> String {
    byte.repeat(32)
}

fn p2tr(multiplier: Multiplier) -> Vec<u8> {
    let mut script = vec![0x51, 0x20];
    script.extend(std::iter::repeat(multiplier.index() as u8 + 1).take(32));
    script
}

fn sub_dust(multiplier: Multiplier) -> Vec<u8> {
    let mut script = vec![0x6a, 0x20];
    script.extend(std::iter::repeat(multiplier.index() as u8 + 1).take(32));
    script
}

fn sweep(dry_run: bool) -> MissedGames {
    MissedGames {
        game_addresses: Multiplier::all()
            .into_iter()
            .map(|multiplier| GameArkAddress {
                game_type: GameType::SatoshisNumber,
                multiplier,
                address: format!("tark1game{}", multiplier.multiplier()),
                p2tr_script_pubkey: p2tr(multiplier),
                sub_dust_script_pubkey: sub_dust(multiplier),
            })
            .collect(),
        own_address: OWN.to_string(),
        max_payout_sats: 100_000,
        dry_run,
    }
}

fn vtxo(tx: &str, amount: u64, script: Vec<u8>) -> VtxoOutPoint {
    VtxoOutPoint {
        txid: tx.to_string(),
        vout: 0,
        amount,
        script,
        expires_at: 0,
        is_recoverable: false,
    }
}

fn outputs() -> (Vec<VtxoOutPoint>, Vec<Vec<String>>) {
    let player = vec![PLAYER.to_string()];
    (
        vec![
            vtxo(&txid("ab"), 500, p2tr(Multiplier::X200)),
            vtxo(&txid("00"), 500, sub_dust(Multiplier::X200)),
            vtxo(&txid("11"), 60_000, p2tr(Multiplier::X200)),
            vtxo("ours", 10, p2tr(Multiplier::X200)),
            vtxo("seen", 10, p2tr(Multiplier::X200)),
            vtxo("odd", 10, vec![1, 2, 3]),
            vtxo("nobody", 10, p2tr(Multiplier::X200)),
            vtxo(&txid("ab"), 900, p2tr(Multiplier::X300)),
        ],
        vec![
            player.clone(),
            player.clone(),
            player.clone(),
            player.clone(),
            player.clone(),
            player.clone(),
            vec![OWN.to_string()],
            player.clone(),
        ],
    )
}

fn prepared() -> Ledger {
    let mut ledger = Ledger::new();
    insert_own_transaction(&mut ledger, "ours", "consolidation", 1).unwrap();
    insert_game_result(
        &mut ledger, "7", 65000, "seen", None, 10, None, PLAYER, false, true, 200, 2,
    )
    .unwrap();
    ledger
}

fn snapshot(ledger: &Ledger) -> Vec<(i64, String, i64, i64, Option<i64>, bool, bool, Option<String>, i64)> {
    get_game_results_paginated(ledger, 1, -1)
        .into_iter()
        .map(|row| {
            (
                row.id,
                row.input_tx_id,
                row.rolled_number,
                row.bet_amount,
                row.winning_amount,
                row.is_winner,
                row.payment_successful,
                row.output_tx_id,
                row.timestamp,
            )
        })
        .collect()
}

#[test]
fn sweep_records_what_was_missed() {
    let mut ledger = prepared();
    let (vtxos, parents) = outputs();
    let report = process_missed_games(&sweep(false), &mut ledger, &vtxos, &parents, 42, 100);
    assert_eq!(
        report,
        MissedGamesReport {
            new_games: 5,
            already_processed: 2,
            own_transactions: 1,
            new_winners: 1,
            donation_count: 1,
            total_payout_amount: 1000,
        }
    );
    assert_eq!(get_total_game_count(&ledger), 4);
    let unpaid = get_unpaid_winners(&ledger);
    assert_eq!(unpaid.len(), 1);
    assert_eq!(unpaid[0].input_tx_id, txid("ab"));
    assert_eq!(unpaid[0].rolled_number, 17_192);
    assert_eq!(unpaid[0].bet_amount, 500);
    assert_eq!(unpaid[0].winning_amount, Some(1000));
    assert_eq!(unpaid[0].output_tx_id, None);
    assert_eq!(unpaid[0].nonce, "42");
    assert_eq!(unpaid[0].player_address, PLAYER);
    assert_eq!(unpaid[0].multiplier, 200);
    assert_eq!(unpaid[0].timestamp, 100);
    let rows = snapshot(&ledger);
    let loser = rows.iter().find(|row| row.1 == txid("00")).unwrap();
    assert_eq!((loser.2, loser.4, loser.5, loser.6), (62_383, None, false, true));
    let donation = rows.iter().find(|row| row.1 == txid("11")).unwrap();
    assert_eq!(
        (donation.2, donation.3, donation.4, donation.5, donation.6),
        (-1, 60_000, None, false, false)
    );
}

#[test]
fn sweep_twice_is_the_sweep_once() {
    let mut ledger = prepared();
    let (vtxos, parents) = outputs();
    process_missed_games(&sweep(false), &mut ledger, &vtxos, &parents, 42, 100);
    let once = snapshot(&ledger);
    let again = process_missed_games(&sweep(false), &mut ledger, &vtxos, &parents, 43, 200);
    assert_eq!(snapshot(&ledger), once);
    assert_eq!(
        again,
        MissedGamesReport {
            new_games: 2,
            already_processed: 5,
            own_transactions: 1,
            new_winners: 0,
            donation_count: 0,
            total_payout_amount: 0,
        }
    );
}

#[test]
fn dry_run_leaves_the_ledger_alone() {
    let mut ledger = prepared();
    let before = snapshot(&ledger);
    let (vtxos, parents) = outputs();
    let report = process_missed_games(&sweep(true), &mut ledger, &vtxos, &parents, 42, 100);
    assert_eq!(snapshot(&ledger), before);
    // Nothing is recorded, so the second output of the same transaction
    // counts as a winner of its own: 900 at three times pays 2700.
    assert_eq!(
        report,
        MissedGamesReport {
            new_games: 6,
            already_processed: 1,
            own_transactions: 1,
            new_winners: 2,
            donation_count: 1,
            total_payout_amount: 3700,
        }
    );
}

#[test]
fn fate_of_single_outputs() {
    let sweep = sweep(false);
    let mut ledger = prepared();
    let player = vec![PLAYER.to_string()];
    let cases: Vec<(VtxoOutPoint, Vec<String>, (Fate, u64, bool))> = vec![
        (vtxo("seen", 1, p2tr(Multiplier::X200)), player.clone(), (Fate::AlreadyProcessed, 0, false)),
        (vtxo("ours", 1, p2tr(Multiplier::X200)), player.clone(), (Fate::OwnTransaction, 0, false)),
        (vtxo("odd", 1, vec![]), player.clone(), (Fate::UnknownScript, 0, false)),
        (vtxo("nobody", 1, p2tr(Multiplier::X200)), vec![], (Fate::NoSender, 0, false)),
        (vtxo(&txid("11"), 50_001, p2tr(Multiplier::X200)), player.clone(), (Fate::Donation, 0, false)),
        (vtxo(&txid("ab"), 50_000, p2tr(Multiplier::X200)), player.clone(), (Fate::Winner, 100_000, true)),
        (vtxo(&txid("00"), 5, p2tr(Multiplier::X200)), player.clone(), (Fate::Loser, 0, false)),
        (vtxo(&txid("ab"), 5, p2tr(Multiplier::X200)), player.clone(), (Fate::AlreadyProcessed, 0, false)),
    ];
    for (output, parents, expected) in cases {
        assert_eq!(sweep.recover_vtxo(&mut ledger, &output, &parents, 42, 5), expected);
    }
    assert!(sweep.needs_sender(&ledger, &vtxo("fresh", 1, sub_dust(Multiplier::X105))));
    assert!(!sweep.needs_sender(&ledger, &vtxo("seen", 1, p2tr(Multiplier::X105))));
    assert!(!sweep.needs_sender(&ledger, &vtxo("ours", 1, p2tr(Multiplier::X105))));
    assert!(!sweep.needs_sender(&ledger, &vtxo("fresh", 1, vec![9])));
}

#[test]
fn sweep_pays_nobody() {
    let mut ledger = Ledger::new();
    let (vtxos, parents) = outputs();
    process_missed_games(&sweep(false), &mut ledger, &vtxos, &parents, 42, 100);
    for row in get_game_results_paginated(&ledger, 1, -1) {
        assert_eq!(row.output_tx_id, None);
        if row.is_winner {
            assert!(!row.payment_successful);
        }
    }
}

fn unpaid_ledger() -> Ledger {
    let mut ledger = Ledger::new();
    for (tx, won, now) in [("a", 1000, 10), ("b", 300, 20), ("c", 70, 30)] {
        insert_game_result(
            &mut ledger, "42", 5, tx, None, 100, Some(won), PLAYER, true, false, 200, now,
        )
        .unwrap();
    }
    ledger
}

#[test]
fn retried_payouts_are_recorded() {
    let mut ledger = unpaid_ledger();
    let winners = get_unpaid_winners(&ledger);
    let payouts = vec![
        Some("out-a".to_string()),
        Some("out-b".to_string()),
        Some("out-c".to_string()),
    ];
    let report = process_missed_payouts(&mut ledger, &winners, &payouts, false, 99);
    assert_eq!(
        report,
        Ok(MissedPayoutsReport {
            retry_payouts: 3,
            successful_payouts: 3,
            failed_payouts: 0,
            total_payout_amount: 1370,
        })
    );
    assert!(get_unpaid_winners(&ledger).is_empty());
    for (row, out) in get_game_results_paginated(&ledger, 1, -1)
        .iter()
        .rev()
        .zip(["out-a", "out-b", "out-c"])
    {
        assert!(row.payment_successful);
        assert_eq!(row.output_tx_id.as_deref(), Some(out));
        assert!(is_own_transaction(&ledger, out));
    }
    // The next sweep finds nothing to do.
    let winners = get_unpaid_winners(&ledger);
    let before = snapshot(&ledger);
    let report = process_missed_payouts(&mut ledger, &winners, &vec![], false, 100);
    assert_eq!(
        report,
        Ok(MissedPayoutsReport {
            retry_payouts: 0,
            successful_payouts: 0,
            failed_payouts: 0,
            total_payout_amount: 0,
        })
    );
    assert_eq!(snapshot(&ledger), before);
}

#[test]
fn failed_payouts_fail_the_sweep_and_stay_unpaid() {
    let mut ledger = unpaid_ledger();
    let winners = get_unpaid_winners(&ledger);
    let payouts = vec![None, Some("out-b".to_string()), None];
    let report = process_missed_payouts(&mut ledger, &winners, &payouts, false, 99);
    assert_eq!(report, Err(RecoveryError::PayoutsFailed { failed: 2 }));
    let unpaid: Vec<String> = get_unpaid_winners(&ledger)
        .into_iter()
        .map(|row| row.input_tx_id)
        .collect();
    assert_eq!(unpaid, vec!["a", "c"]);
    assert!(is_own_transaction(&ledger, "out-b"));
}

#[test]
fn dry_run_of_payouts_records_nothing() {
    let mut ledger = unpaid_ledger();
    let before = snapshot(&ledger);
    let winners = get_unpaid_winners(&ledger);
    let payouts = vec![None, None, None];
    let report = process_missed_payouts(&mut ledger, &winners, &payouts, true, 99);
    assert_eq!(
        report,
        Ok(MissedPayoutsReport {
            retry_payouts: 3,
            successful_payouts: 3,
            failed_payouts: 0,
            total_payout_amount: 1370,
        })
    );
    assert_eq!(snapshot(&ledger), before);
    assert_eq!(get_unpaid_winners(&ledger).len(), 3);
}

#[test]
fn recovery_after_a_crash_between_payout_and_record() {
    // The payout went out and was noted, then the process died before the
    // round was written.
    let mut ledger = Ledger::new();
    insert_own_transaction(&mut ledger, "payout-1", "individual_payout", 1).unwrap();
    let vtxos = vec![vtxo(&txid("ab"), 500, p2tr(Multiplier::X200))];
    let parents = vec![vec![PLAYER.to_string()]];
    let report = process_missed_games(&sweep(false), &mut ledger, &vtxos, &parents, 42, 10);
    assert_eq!(report.new_winners, 1);
    let winners = get_unpaid_winners(&ledger);
    assert_eq!(winners.len(), 1);
    assert!(!winners[0].payment_successful);
    let report = process_missed_payouts(
        &mut ledger,
        &winners,
        &vec![Some("payout-2".to_string())],
        false,
        20,
    );
    assert!(report.is_ok());
    assert!(is_own_transaction(&ledger, "payout-1"));
    assert!(is_own_transaction(&ledger, "payout-2"));
    let rows = get_game_results_paginated(&ledger, 1, -1);
    assert_eq!(rows.len(), 1);
    assert!(rows[0].payment_successful);
    assert_eq!(rows[0].output_tx_id, Some("payout-2".to_string()));
    assert!(get_unpaid_winners(&ledger).is_empty());
}

#[test]
fn single_retry_is_settled() {
    let mut ledger = unpaid_ledger();
    let winners = get_unpaid_winners(&ledger);
    settle_retry(&mut ledger, &winners[1], None, 50);
    assert_eq!(get_unpaid_winners(&ledger).len(), 3);
    settle_retry(&mut ledger, &winners[1], Some("out"), 50);
    let unpaid: Vec<i64> = get_unpaid_winners(&ledger).iter().map(|row| row.id).collect();
    assert_eq!(unpaid, vec![1, 3]);
    assert!(is_own_transaction(&ledger, "out"));
}

#[test]
fn what_a_winner_is_owed() {
    let mut row = GameResult {
        id: 1,
        nonce: "42".to_string(),
        rolled_number: 5,
        input_tx_id: "a".to_string(),
        output_tx_id: None,
        bet_amount: 100,
        winning_amount: Some(250),
        player_address: PLAYER.to_string(),
        is_winner: true,
        payment_successful: false,
        timestamp: 0,
        multiplier: 200,
    };
    assert_eq!(payout_owed(&row), 250);
    row.winning_amount = None;
    assert_eq!(payout_owed(&row), 0);
}
