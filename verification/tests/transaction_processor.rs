use satoshi_dice::client::GameArkAddress;
use satoshi_dice::client::SubscriptionEvent;
use satoshi_dice::db::get_game_results_paginated;
use satoshi_dice::db::get_total_game_count;
use satoshi_dice::db::get_unpaid_winners;
use satoshi_dice::db::insert_own_transaction;
use satoshi_dice::db::is_own_transaction;
use satoshi_dice::db::is_transaction_processed;
use satoshi_dice::db::Ledger;
use satoshi_dice::games::GameType;
use satoshi_dice::key_derivation::Multiplier;
use satoshi_dice::nonce_service::NonceService;
use satoshi_dice::server::history_item;
use satoshi_dice::transaction_processor::evaluate_game_outcome;
use satoshi_dice::transaction_processor::find_sender;
use satoshi_dice::transaction_processor::max_bet_amount;
use satoshi_dice::transaction_processor::next_payout_attempt;
use satoshi_dice::transaction_processor::payout_amount;
use satoshi_dice::transaction_processor::EventOutcome;
use satoshi_dice::transaction_processor::PayoutRetry;
use satoshi_dice::transaction_processor::Screening;
use satoshi_dice::transaction_processor::Settlement;
use satoshi_dice::transaction_processor::TransactionProcessor;
use satoshi_dice::transaction_processor::MAX_RETRIES;

const HASH_OF_42: &str = "73475cb40a568e8da8a045ced110137e159f890ac4da883b6b17dc651b3a8049";
const OWN: &str = "tark1house";
const PLAYER: &str = "tark1player";

fn txid(byte: &str) -> String {
    byte.repeat(32)
}

fn p2tr(multiplier: Multiplier) -> Vec<u8> {
    let mut script = vec![0x51, 0x20];
    script.extend(std::iter::repeat(multiplier.index() as u8 + 1).take(32));
    script
}

fn sub_dust(multiplier: Multiplier) -> Vec<u8> {
    let mut script = vec![0x6a, 0x20];
    script.extend(std::iter::repeat(multiplier.index() as u8 + 1).take(32));
    script
}

fn game_addresses() -> Vec<GameArkAddress> {
    Multiplier::all()
        .into_iter()
        .map(|multiplier| GameArkAddress {
            game_type: GameType::SatoshisNumber,
            multiplier,
            address: format!("tark1game{}", multiplier.multiplier()),
            p2tr_script_pubkey: p2tr(multiplier),
            sub_dust_script_pubkey: sub_dust(multiplier),
        })
        .collect()
}

fn processor() -> TransactionProcessor {
    TransactionProcessor::new(game_addresses(), vec![OWN.to_string()], 100_000)
}

fn deposit(tx: &str, amount: u64, multiplier: Multiplier) -> SubscriptionEvent {
    SubscriptionEvent {
        txid: tx.to_string(),
        vout: 0,
        amount,
        script_pubkey: p2tr(multiplier),
    }
}

fn from_player() -> Vec<String> {
    vec![PLAYER.to_string()]
}

#[test]
fn clean_win_at_two_times() {
    let processor = processor();
    let mut ledger = Ledger::new();
    let nonces = NonceService::with_nonce(42, 1);
    let event = deposit(&txid("ab"), 500, Multiplier::X200);
    let outcome = processor.process_single_event(
        &mut ledger,
        &nonces,
        &event,
        &from_player(),
        Some("payout-tx"),
        1_000,
    );
    let item = match outcome {
        EventOutcome::Winner(Some(item)) => item,
        other => panic!("not a recorded win: {other:?}"),
    };
    assert_eq!(item.id, "latest");
    assert_eq!(item.amount_sent, 500);
    assert_eq!(item.multiplier, 200);
    // sha256("42" followed by the transaction id) starts with 4328.
    assert_eq!(item.result_number, 0x4328);
    assert_eq!(item.target_number, 327_680);
    assert!(item.is_win);
    assert_eq!(item.payout, Some(1000));
    assert_eq!(item.input_tx_id, txid("ab"));
    assert_eq!(item.output_tx_id, Some("payout-tx".to_string()));
    assert_eq!(item.nonce, None);
    assert_eq!(item.nonce_hash, HASH_OF_42);
    assert_eq!(item.timestamp, 1_000);

    assert_eq!(get_total_game_count(&ledger), 1);
    let rows = get_game_results_paginated(&ledger, 1, 20);
    assert_eq!(rows[0].nonce, "42");
    assert_eq!(rows[0].rolled_number, 17_192);
    assert_eq!(rows[0].bet_amount, 500);
    assert_eq!(rows[0].winning_amount, Some(1000));
    assert_eq!(rows[0].player_address, PLAYER);
    assert!(rows[0].is_winner);
    assert!(rows[0].payment_successful);
    assert_eq!(rows[0].output_tx_id, Some("payout-tx".to_string()));
    assert_eq!(rows[0].multiplier, 200);
    assert!(is_own_transaction(&ledger, "payout-tx"));
    assert!(get_unpaid_winners(&ledger).is_empty());
}

#[test]
fn clean_loss_at_two_times() {
    let processor = processor();
    let mut ledger = Ledger::new();
    let nonces = NonceService::with_nonce(42, 1);
    // sha256("42" followed by sixty-four zeros) starts with f3af.
    let event = deposit(&txid("00"), 500, Multiplier::X200);
    let outcome = processor.process_single_event(
        &mut ledger,
        &nonces,
        &event,
        &from_player(),
        Some("never-sent"),
        1_000,
    );
    let item = match outcome {
        EventOutcome::Loser(Some(item)) => item,
        other => panic!("not a recorded loss: {other:?}"),
    };
    assert_eq!(item.result_number, 62_383);
    assert!(!item.is_win);
    assert_eq!(item.payout, None);
    assert_eq!(item.output_tx_id, None);
    let rows = get_game_results_paginated(&ledger, 1, 20);
    assert_eq!(rows.len(), 1);
    assert_eq!(rows[0].rolled_number, 62_383);
    assert!(!rows[0].is_winner);
    assert!(rows[0].payment_successful);
    assert_eq!(rows[0].winning_amount, None);
    assert_eq!(rows[0].output_tx_id, None);
    assert!(!is_own_transaction(&ledger, "never-sent"));
}

#[test]
fn rolls_of_two_fixed_deposits() {
    assert_eq!(
        evaluate_game_outcome(42, &txid("ab"), &Multiplier::X200),
        (17_192, true)
    );
    assert_eq!(
        evaluate_game_outcome(42, &txid("ff"), &Multiplier::X200),
        (24_672, true)
    );
    assert_eq!(
        evaluate_game_outcome(42, &txid("ff"), &Multiplier::X300),
        (24_672, false)
    );
    assert_eq!(
        evaluate_game_outcome(42, &txid("00"), &Multiplier::X200),
        (62_383, false)
    );
}

#[test]
fn deposit_above_the_threshold_is_a_donation() {
    let processor = processor();
    let mut ledger = Ledger::new();
    let nonces = NonceService::with_nonce(42, 1);
    let event = deposit(&txid("ab"), 60_000, Multiplier::X200);
    let outcome = processor.process_single_event(
        &mut ledger,
        &nonces,
        &event,
        &from_player(),
        Some("never-sent"),
        7,
    );
    let notice = match outcome {
        EventOutcome::Donation(Some(notice)) => notice,
        other => panic!("not a recorded donation: {other:?}"),
    };
    assert_eq!(notice.id, format!("donation-{}", txid("ab")));
    assert_eq!(notice.amount, 60_000);
    assert_eq!(notice.sender, PLAYER);
    assert_eq!(notice.input_tx_id, txid("ab"));
    assert_eq!(notice.timestamp, 7);
    let rows = get_game_results_paginated(&ledger, 1, 20);
    assert_eq!(rows.len(), 1);
    assert_eq!(rows[0].rolled_number, -1);
    assert_eq!(rows[0].bet_amount, 60_000);
    assert!(!rows[0].is_winner);
    assert!(!rows[0].payment_successful);
    assert_eq!(rows[0].winning_amount, None);
    assert_eq!(rows[0].output_tx_id, None);
    assert!(!is_own_transaction(&ledger, "never-sent"));
    assert!(get_unpaid_winners(&ledger).is_empty());
}

#[test]
fn threshold_itself_is_still_a_bet() {
    let processor = processor();
    let nonces = NonceService::with_nonce(42, 1);
    let mut ledger = Ledger::new();
    let at = deposit(&txid("ab"), 50_000, Multiplier::X200);
    let outcome =
        processor.process_single_event(&mut ledger, &nonces, &at, &from_player(), Some("p"), 1);
    assert!(matches!(outcome, EventOutcome::Winner(Some(_))));
    let rows = get_game_results_paginated(&ledger, 1, 1);
    assert_eq!(rows[0].winning_amount, Some(100_000));

    let mut ledger = Ledger::new();
    let above = deposit(&txid("ab"), 50_001, Multiplier::X200);
    let outcome =
        processor.process_single_event(&mut ledger, &nonces, &above, &from_player(), Some("p"), 1);
    assert!(matches!(outcome, EventOutcome::Donation(Some(_))));
}

#[test]
fn duplicate_event_writes_one_row() {
    let processor = processor();
    let mut ledger = Ledger::new();
    let nonces = NonceService::with_nonce(42, 1);
    let event = deposit(&txid("ab"), 500, Multiplier::X200);
    let first = processor.process_single_event(
        &mut ledger,
        &nonces,
        &event,
        &from_player(),
        Some("payout-1"),
        1,
    );
    assert!(matches!(first, EventOutcome::Winner(Some(_))));
    assert_eq!(
        processor.screen_event(&ledger, &event),
        Screening::AlreadyProcessed
    );
    let second = processor.process_single_event(
        &mut ledger,
        &nonces,
        &event,
        &from_player(),
        Some("payout-2"),
        2,
    );
    assert!(matches!(
        second,
        EventOutcome::Dropped(Screening::AlreadyProcessed)
    ));
    assert_eq!(get_total_game_count(&ledger), 1);
    assert!(is_own_transaction(&ledger, "payout-1"));
    assert!(!is_own_transaction(&ledger, "payout-2"));
    let rows = get_game_results_paginated(&ledger, 1, 20);
    assert_eq!(rows[0].output_tx_id, Some("payout-1".to_string()));
    assert_eq!(rows[0].timestamp, 1);
}

#[test]
fn echo_of_a_payout_is_dropped() {
    let processor = processor();
    let mut ledger = Ledger::new();
    let nonces = NonceService::with_nonce(42, 1);
    let event = deposit(&txid("ab"), 500, Multiplier::X200);
    processor.process_single_event(
        &mut ledger,
        &nonces,
        &event,
        &from_player(),
        Some("payout-tx"),
        1,
    );
    let echo = deposit("payout-tx", 1000, Multiplier::X200);
    assert_eq!(
        processor.screen_event(&ledger, &echo),
        Screening::OwnTransaction
    );
    let outcome =
        processor.process_single_event(&mut ledger, &nonces, &echo, &from_player(), Some("x"), 2);
    assert!(matches!(
        outcome,
        EventOutcome::Dropped(Screening::OwnTransaction)
    ));
    assert_eq!(get_total_game_count(&ledger), 1);
    assert!(!is_transaction_processed(&ledger, "payout-tx"));
}

#[test]
fn winner_whose_payout_failed_is_recorded_as_unpaid() {
    let processor = processor();
    let mut ledger = Ledger::new();
    let nonces = NonceService::with_nonce(42, 1);
    let event = deposit(&txid("ab"), 500, Multiplier::X200);
    let outcome =
        processor.process_single_event(&mut ledger, &nonces, &event, &from_player(), None, 1);
    let item = match outcome {
        EventOutcome::Winner(Some(item)) => item,
        other => panic!("not a recorded win: {other:?}"),
    };
    assert_eq!(item.output_tx_id, None);
    assert_eq!(item.payout, Some(1000));
    let unpaid = get_unpaid_winners(&ledger);
    assert_eq!(unpaid.len(), 1);
    assert_eq!(unpaid[0].input_tx_id, txid("ab"));
    assert_eq!(unpaid[0].winning_amount, Some(1000));
    assert!(!unpaid[0].payment_successful);
    assert_eq!(unpaid[0].output_tx_id, None);
}

#[test]
fn revealed_nonce_lets_the_round_be_checked() {
    let processor = processor();
    let mut ledger = Ledger::new();
    let mut nonces = NonceService::with_nonce(42, 1);
    let event = deposit(&txid("ab"), 500, Multiplier::X200);
    processor.process_single_event(
        &mut ledger,
        &nonces,
        &event,
        &from_player(),
        Some("payout-tx"),
        1,
    );
    let rows = get_game_results_paginated(&ledger, 1, 1);
    let hidden = history_item(&rows[0], &nonces);
    assert_eq!(hidden.nonce, None);
    assert_eq!(hidden.nonce_hash, HASH_OF_42);

    nonces.install(&mut ledger, 43, 2).unwrap();
    let shown = history_item(&rows[0], &nonces);
    assert_eq!(shown.nonce, Some("42".to_string()));
    assert_eq!(shown.nonce_hash, HASH_OF_42);
    assert_eq!(shown.id, "1");
    assert_eq!(shown.result_number, 17_192);
    assert!(shown.is_win);
    let nonce: u64 = shown.nonce.unwrap().parse().unwrap();
    assert_eq!(
        evaluate_game_outcome(nonce, &shown.input_tx_id, &Multiplier::X200),
        (shown.result_number, shown.is_win)
    );
}

#[test]
fn deposit_to_an_unknown_script_is_dropped() {
    let processor = processor();
    let mut ledger = Ledger::new();
    let nonces = NonceService::with_nonce(42, 1);
    let mut event = deposit(&txid("ab"), 500, Multiplier::X200);
    event.script_pubkey = vec![0x51, 0x20, 0xee];
    assert_eq!(
        processor.screen_event(&ledger, &event),
        Screening::UnknownScript
    );
    let outcome =
        processor.process_single_event(&mut ledger, &nonces, &event, &from_player(), None, 1);
    assert!(matches!(
        outcome,
        EventOutcome::Dropped(Screening::UnknownScript)
    ));
    assert_eq!(get_total_game_count(&ledger), 0);
}

#[test]
fn deposit_without_a_sender_is_dropped() {
    let processor = processor();
    let mut ledger = Ledger::new();
    let nonces = NonceService::with_nonce(42, 1);
    let event = deposit(&txid("ab"), 500, Multiplier::X200);
    let nobody: Vec<String> = vec![];
    assert!(matches!(
        processor.process_single_event(&mut ledger, &nonces, &event, &nobody, None, 1),
        EventOutcome::NoSender
    ));
    let only_us = vec![OWN.to_string(), OWN.to_string()];
    assert!(matches!(
        processor.process_single_event(&mut ledger, &nonces, &event, &only_us, None, 1),
        EventOutcome::NoSender
    ));
    assert_eq!(get_total_game_count(&ledger), 0);
    // A later report with a sender is settled.
    assert!(matches!(
        processor.process_single_event(&mut ledger, &nonces, &event, &from_player(), None, 2),
        EventOutcome::Winner(Some(_))
    ));
}

#[test]
fn sender_is_the_first_address_that_is_not_our_own() {
    let parents = vec![
        OWN.to_string(),
        "tark1first".to_string(),
        OWN.to_string(),
        "tark1second".to_string(),
    ];
    assert_eq!(
        find_sender(&parents, OWN).map(|s| s.as_str()),
        Some("tark1first")
    );
    assert_eq!(find_sender(&vec![], OWN), None);
    assert_eq!(find_sender(&vec![OWN.to_string()], OWN), None);
    assert_eq!(
        find_sender(&vec![OWN.to_string()], "tark1other").map(|s| s.as_str()),
        Some(OWN)
    );
}

#[test]
fn screening_finds_the_game_of_the_script() {
    let processor = processor();
    let ledger = Ledger::new();
    for multiplier in Multiplier::all() {
        let event = deposit(&txid("ab"), 10, multiplier);
        assert_eq!(
            processor.screen_event(&ledger, &event),
            Screening::Play {
                game_type: GameType::SatoshisNumber,
                multiplier
            }
        );
    }
}

#[test]
fn either_script_of_a_game_address_is_taken() {
    let processor = processor();
    assert_eq!(
        processor.find_game_for_script(&sub_dust(Multiplier::X300)),
        Some((GameType::SatoshisNumber, Multiplier::X300))
    );
    assert_eq!(
        processor.find_game_for_script(&p2tr(Multiplier::X300)),
        Some((GameType::SatoshisNumber, Multiplier::X300))
    );
    assert_eq!(processor.find_game_for_script(&[0x51, 0x20]), None);
    let ledger = Ledger::new();
    let mut small = deposit(&txid("ab"), 100, Multiplier::X300);
    small.script_pubkey = sub_dust(Multiplier::X300);
    assert_eq!(
        processor.screen_event(&ledger, &small),
        Screening::Play {
            game_type: GameType::SatoshisNumber,
            multiplier: Multiplier::X300
        }
    );
    small.amount = 1_000_000;
    assert_eq!(
        processor.screen_event(&ledger, &small),
        Screening::Play {
            game_type: GameType::SatoshisNumber,
            multiplier: Multiplier::X300
        }
    );
}

#[test]
fn own_transaction_wins_over_everything_else() {
    let processor = processor();
    let mut ledger = Ledger::new();
    insert_own_transaction(&mut ledger, &txid("ab"), "consolidation", 1).unwrap();
    let event = deposit(&txid("ab"), 500, Multiplier::X200);
    assert_eq!(
        processor.screen_event(&ledger, &event),
        Screening::OwnTransaction
    );
}

#[test]
fn donation_thresholds() {
    let expected: Vec<u64> = vec![
        95_238, 90_909, 75_187, 66_666, 50_000, 33_333, 10_000, 4_000, 2_000, 1_000, 100,
    ];
    let processor = processor();
    for (multiplier, threshold) in Multiplier::all().iter().zip(expected) {
        assert_eq!(processor.get_donation_threshold(multiplier), threshold);
        assert_eq!(max_bet_amount(100_000, multiplier), threshold);
    }
    assert_eq!(max_bet_amount(0, &Multiplier::X200), 0);
    assert_eq!(
        max_bet_amount(u64::MAX, &Multiplier::X200),
        u64::MAX / 2
    );
    assert_eq!(
        max_bet_amount(u64::MAX, &Multiplier::X105),
        (u64::MAX as u128 * 100 / 105) as u64
    );
}

#[test]
fn payouts_are_rounded_down() {
    assert_eq!(payout_amount(500, &Multiplier::X200), 1000);
    assert_eq!(payout_amount(1, &Multiplier::X105), 1);
    assert_eq!(payout_amount(3, &Multiplier::X133), 3);
    assert_eq!(payout_amount(99, &Multiplier::X105), 103);
    assert_eq!(payout_amount(20, &Multiplier::X105), 21);
    assert_eq!(payout_amount(0, &Multiplier::X100000), 0);
    assert_eq!(payout_amount(100, &Multiplier::X100000), 100_000);
    assert_eq!(payout_amount(7, &Multiplier::X150), 10);
    assert_eq!(
        payout_amount(u64::MAX / 2, &Multiplier::X200),
        u64::MAX - 1
    );
}

#[test]
fn payout_is_retried_twice_with_growing_pauses() {
    assert_eq!(MAX_RETRIES, 3);
    assert_eq!(
        next_payout_attempt(1),
        PayoutRetry::After { delay_ms: 1000 }
    );
    assert_eq!(
        next_payout_attempt(2),
        PayoutRetry::After { delay_ms: 2000 }
    );
    assert_eq!(next_payout_attempt(3), PayoutRetry::GiveUp);
    assert_eq!(next_payout_attempt(4), PayoutRetry::GiveUp);
    assert_eq!(next_payout_attempt(u8::MAX), PayoutRetry::GiveUp);
}

#[test]
fn phases_of_a_win() {
    let processor = processor();
    let mut ledger = Ledger::new();
    let nonces = NonceService::with_nonce(42, 1);
    let event = deposit(&txid("ab"), 500, Multiplier::X200);
    let (game_type, multiplier) = match processor.screen_event(&ledger, &event) {
        Screening::Play {
            game_type,
            multiplier,
        } => (game_type, multiplier),
        other => panic!("not a bet: {other:?}"),
    };
    let round = processor
        .evaluate_game(game_type, &multiplier, &event, &from_player(), 42)
        .unwrap();
    assert_eq!(round.multiplier, Multiplier::X200);
    assert_eq!(round.txid, txid("ab"));
    assert_eq!(round.vout, 0);
    assert_eq!(round.sender, PLAYER);
    assert_eq!(round.input_amount, 500);
    assert_eq!(round.current_nonce, 42);
    assert_eq!(round.rolled_number, 17_192);
    assert!(round.is_win);
    assert_eq!(round.payout_amount, Some(1000));
    assert_eq!(processor.settlement(&round), Settlement::Winner);
    // The first attempt fails, the second one goes through.
    assert_eq!(
        next_payout_attempt(1),
        PayoutRetry::After { delay_ms: 1000 }
    );
    let announced =
        processor.process_individual_winner(&mut ledger, &nonces, &round, Some("payout"), 9);
    assert_eq!(announced.unwrap().output_tx_id, Some("payout".to_string()));
    assert!(is_own_transaction(&ledger, "payout"));
    assert!(is_transaction_processed(&ledger, &txid("ab")));
}

#[test]
fn phases_of_a_loss_and_a_donation() {
    let processor = processor();
    let mut ledger = Ledger::new();
    let nonces = NonceService::with_nonce(42, 1);
    let lost = deposit(&txid("00"), 500, Multiplier::X200);
    let round = processor
        .evaluate_game(GameType::SatoshisNumber, &Multiplier::X200, &lost, &from_player(), 42)
        .unwrap();
    assert_eq!(round.rolled_number, 62_383);
    assert!(!round.is_win);
    assert_eq!(round.payout_amount, None);
    assert_eq!(processor.settlement(&round), Settlement::Loser);
    assert!(processor
        .process_loser(&mut ledger, &nonces, &round, 3)
        .is_some());
    assert!(processor
        .process_loser(&mut ledger, &nonces, &round, 4)
        .is_none());

    let given = deposit(&txid("11"), 1_000_000, Multiplier::X100000);
    let round = processor
        .evaluate_game(
            GameType::SatoshisNumber,
            &Multiplier::X100000,
            &given,
            &from_player(),
            42,
        )
        .unwrap();
    assert_eq!(round.rolled_number, -1);
    assert!(!round.is_win);
    assert_eq!(processor.settlement(&round), Settlement::Donation);
    assert!(processor.process_donation(&mut ledger, &round, 5).is_some());
    assert!(processor.process_donation(&mut ledger, &round, 6).is_none());
    assert_eq!(get_total_game_count(&ledger), 2);
}
