//! Settling deposits: every deposit that is reported is screened against the
//! ledger, attributed to a sender, evaluated, and recorded as a donation, a
//! win or a loss. A win is paid out before it is recorded, and the payout is
//! noted as a transaction of the house before the round is.

use crate::client::find_game_for_script;
use crate::client::game_at;
use crate::client::owner_of;
use crate::client::GameArkAddress;
use crate::client::SubscriptionEvent;
use crate::db::insert_game_result;
use crate::db::insert_own_transaction;
use crate::db::is_own_transaction;
use crate::db::is_transaction_processed;
use crate::db::GameRow;
use crate::db::Ledger;
use crate::db::LedgerState;
use crate::db::OwnRow;
use crate::games::get_game;
use crate::games::outcome_of;
use crate::games::Game;
use crate::games::GameType;
use crate::key_derivation::Multiplier;
use crate::nonce_service::commitment;
use crate::nonce_service::NonceService;
use crate::search::first_where;
use crate::search::lemma_first_where_is;
use crate::search::lemma_first_where_none;
use crate::server::revealed;
use crate::server::target_number;
use crate::server::target_of;
use crate::server::DonationEntry;
use crate::server::DonationItem;
use crate::server::GameHistoryItem;
use crate::server::HistoryEntry;
use crate::text::decimal;
use crate::text::decimal_string;
use crate::text::same_text;
use vstd::prelude::*;
use vstd::string::*;

verus! {

/// How often a payout is attempted before the winner is recorded as unpaid.
pub const MAX_RETRIES: u8 = 3;

/// The largest bet, in satoshis, that a multiplier takes: one whose payout
/// does not exceed `max_payout_sats`. A larger deposit is a donation.
pub open spec fn donation_threshold(max_payout_sats: u64, multiplier: Multiplier) -> int {
    (max_payout_sats * 100) / (multiplier.ratio() as int)
}

/// What a winning bet is paid, in satoshis, rounded down.
pub open spec fn payout_for(bet: u64, multiplier: Multiplier) -> int {
    (bet * multiplier.ratio()) / 100
}

/// Selects the addresses other than `own`.
pub open spec fn other_than(own: Seq<char>) -> spec_fn(String) -> bool {
    |address: String| address@ != own
}

/// The sender of a deposit: the first of the addresses that funded it which
/// is not the house's own.
pub open spec fn sender_of(parents: Seq<String>, own: Seq<char>) -> Option<Seq<char>> {
    match first_where(parents, other_than(own)) {
        Some(i) => Some(parents[i]@),
        None => None,
    }
}

/// A deposit with its sender and what it came to.
#[derive(Debug)]
pub struct RoundResult {
    pub multiplier: Multiplier,
    pub txid: String,
    pub vout: u32,
    pub sender: String,
    pub input_amount: u64,
    pub current_nonce: u64,
    /// The roll, or `-1` for a donation.
    pub rolled_number: i64,
    pub is_win: bool,
    pub payout_amount: Option<u64>,
}

/// A round as a value.
pub struct Round {
    pub multiplier: Multiplier,
    pub txid: Seq<char>,
    pub vout: u32,
    pub sender: Seq<char>,
    pub input_amount: u64,
    pub current_nonce: u64,
    pub rolled_number: i64,
    pub is_win: bool,
    pub payout_amount: Option<u64>,
}

impl View for RoundResult {
    type V = Round;

    open spec fn view(&self) -> Round {
        Round {
            multiplier: self.multiplier,
            txid: self.txid@,
            vout: self.vout,
            sender: self.sender@,
            input_amount: self.input_amount,
            current_nonce: self.current_nonce,
            rolled_number: self.rolled_number,
            is_win: self.is_win,
            payout_amount: self.payout_amount,
        }
    }
}

impl Round {
    /// Whether the amounts of the round fit the signed numbers of a ledger row.
    pub open spec fn storable(self) -> bool {
        &&& self.input_amount <= i64::MAX
        &&& self.payout_amount matches Some(amount) ==> amount <= i64::MAX
    }
}

/// What the deposit of `amount` satoshis in the transaction `txid` comes to
/// for the sender `sender` while `nonce` is current: a donation above the
/// threshold, and otherwise what the game makes of it.
pub open spec fn round_for(
    max_payout_sats: u64,
    game_type: GameType,
    multiplier: Multiplier,
    txid: Seq<char>,
    vout: u32,
    amount: u64,
    sender: Seq<char>,
    nonce: u64,
) -> Round {
    if amount > donation_threshold(max_payout_sats, multiplier) {
        Round {
            multiplier,
            txid,
            vout,
            sender,
            input_amount: amount,
            current_nonce: nonce,
            rolled_number: -1i64,
            is_win: false,
            payout_amount: None,
        }
    } else {
        let evaluation = outcome_of(game_type, nonce, txid, multiplier);
        Round {
            multiplier,
            txid,
            vout,
            sender,
            input_amount: amount,
            current_nonce: nonce,
            rolled_number: evaluation.rolled_value,
            is_win: evaluation.is_win,
            payout_amount: if evaluation.is_win {
                Some(payout_for(amount, multiplier) as u64)
            } else {
                None
            },
        }
    }
}

/// What becomes of a deposit before its sender is looked up.
#[derive(Debug, Clone, Copy, PartialEq, Eq, Structural)]
pub enum Screening {
    /// The deposit is a transaction of the house itself.
    OwnTransaction,
    /// A round for the deposit is already recorded.
    AlreadyProcessed,
    /// The deposit pays to none of the game addresses.
    UnknownScript,
    /// The deposit is a bet on this game.
    Play { game_type: GameType, multiplier: Multiplier },
}

/// What was done with a deposit, with what there is to announce.
#[derive(Debug)]
pub enum EventOutcome {
    /// The deposit was screened out.
    Dropped(Screening),
    /// None of the addresses that funded the deposit is a sender.
    NoSender,
    /// The deposit was dealt with as a donation.
    Donation(Option<DonationItem>),
    /// The deposit was dealt with as a win.
    Winner(Option<GameHistoryItem>),
    /// The deposit was dealt with as a loss.
    Loser(Option<GameHistoryItem>),
}

/// How a round is settled.
#[derive(Debug, Clone, Copy, PartialEq, Eq, Structural)]
pub enum Settlement {
    Donation,
    Winner,
    Loser,
}

/// What follows a failed payout attempt.
#[derive(Debug, Clone, Copy, PartialEq, Eq, Structural)]
pub enum PayoutRetry {
    /// Attempt the payout again after this many milliseconds.
    After { delay_ms: u64 },
    /// Record the winner as unpaid.
    GiveUp,
}

/// The pause before the next attempt after `failures` failed ones: a second
/// after the first, and twice as long after each further one.
pub open spec fn backoff_ms(failures: u8) -> int
    recommends
        failures >= 1,
    decreases failures,
{
    if failures <= 1 {
        1000
    } else {
        2 * backoff_ms((failures - 1) as u8)
    }
}

/// What follows the `failures`-th failed payout attempt in a row.
pub open spec fn retry_after(failures: u8) -> PayoutRetry {
    if failures >= MAX_RETRIES {
        PayoutRetry::GiveUp
    } else {
        PayoutRetry::After { delay_ms: backoff_ms(failures) as u64 }
    }
}

/// The row of a round that is recorded as a donation. The id is the
/// ledger's to give.
pub open spec fn donation_row(round: Round, now: i64) -> GameRow {
    GameRow {
        id: 0,
        nonce: decimal(round.current_nonce as nat),
        rolled_number: round.rolled_number,
        input_tx_id: round.txid,
        output_tx_id: None,
        bet_amount: round.input_amount as i64,
        winning_amount: None,
        player_address: round.sender,
        is_winner: false,
        payment_successful: false,
        timestamp: now,
        multiplier: round.multiplier.ratio() as i64,
    }
}

/// The row of a round that is recorded as lost. A loss needs no payment and
/// counts as settled.
pub open spec fn loser_row(round: Round, now: i64) -> GameRow {
    GameRow {
        id: 0,
        nonce: decimal(round.current_nonce as nat),
        rolled_number: round.rolled_number,
        input_tx_id: round.txid,
        output_tx_id: None,
        bet_amount: round.input_amount as i64,
        winning_amount: None,
        player_address: round.sender,
        is_winner: false,
        payment_successful: true,
        timestamp: now,
        multiplier: round.multiplier.ratio() as i64,
    }
}

/// The row of a round that is recorded as won, paid by `payout` or, without
/// one, still to be paid.
pub open spec fn winner_row(round: Round, payout: Option<Seq<char>>, now: i64) -> GameRow {
    GameRow {
        id: 0,
        nonce: decimal(round.current_nonce as nat),
        rolled_number: round.rolled_number,
        input_tx_id: round.txid,
        output_tx_id: payout,
        bet_amount: round.input_amount as i64,
        winning_amount: match round.payout_amount {
            Some(amount) => Some(amount as i64),
            None => None,
        },
        player_address: round.sender,
        is_winner: true,
        payment_successful: payout is Some,
        timestamp: now,
        multiplier: round.multiplier.ratio() as i64,
    }
}

/// How a round that was just recorded is announced while `current` is the
/// current nonce.
pub open spec fn announcement(
    round: Round,
    is_win: bool,
    payout: Option<u64>,
    output: Option<Seq<char>>,
    current: u64,
    now: i64,
) -> HistoryEntry {
    HistoryEntry {
        id: "latest"@,
        amount_sent: round.input_amount,
        multiplier: round.multiplier.ratio() as i64,
        result_number: round.rolled_number,
        target_number: target_of(round.multiplier.ratio() as i64) as i64,
        is_win,
        payout,
        input_tx_id: round.txid,
        output_tx_id: output,
        nonce: revealed(decimal(round.current_nonce as nat), current),
        nonce_hash: commitment(current),
        timestamp: now,
    }
}

/// How a donation that was just recorded is announced.
pub open spec fn donation_notice(round: Round, now: i64) -> DonationEntry {
    DonationEntry {
        id: "donation-"@ + round.txid,
        amount: round.input_amount,
        sender: round.sender,
        input_tx_id: round.txid,
        timestamp: now,
    }
}

impl LedgerState {
    /// Whether the ledger takes a round for the deposit `tx`.
    pub open spec fn takes_game(self, tx: Seq<char>) -> bool {
        !self.has_game(tx) && self.games.len() < i64::MAX
    }

    /// Whether the ledger takes `tx` as a new transaction of the house.
    pub open spec fn takes_own(self, tx: Seq<char>) -> bool {
        !self.has_own(tx) && self.own_transactions.len() < i64::MAX
    }

    /// The ledger after `row` was offered to it: filed under the next id
    /// where the ledger takes it, and left as it was where it does not.
    pub open spec fn recorded(self, row: GameRow) -> LedgerState {
        if self.takes_game(row.input_tx_id) {
            self.with_game(GameRow { id: (self.games.len() + 1) as i64, ..row })
        } else {
            self
        }
    }

    /// The ledger after `tx` was offered to it as a transaction of the house.
    pub open spec fn noted(self, tx: Seq<char>, kind: Seq<char>, now: i64) -> LedgerState {
        if self.takes_own(tx) {
            self.with_own(
                OwnRow {
                    id: (self.own_transactions.len() + 1) as i64,
                    tx_id: tx,
                    transaction_type: kind,
                    created_at: now,
                },
            )
        } else {
            self
        }
    }
}

/// The part of the house that settles deposits.
#[derive(Debug)]
pub struct TransactionProcessor {
    /// The addresses that bets are sent to.
    pub game_addresses: Vec<GameArkAddress>,
    /// The house's own addresses; the first is the one that payouts come from.
    pub my_addresses: Vec<String>,
    /// The most that a single bet can win, in satoshis.
    pub max_payout_sats: u64,
}

/// Finds the sender of a deposit among the addresses that funded it.
pub fn find_sender<'a>(parents: &'a Vec<String>, own_address: &str) -> (sender: Option<&'a String>)
    ensures
        match sender {
            Some(address) => sender_of(parents@, own_address@) == Some(address@),
            None => sender_of(parents@, own_address@) is None,
        },
{
    let mut i: usize = 0;
    while i < parents.len()
        invariant
            i <= parents@.len(),
            forall|j: int| 0 <= j < i ==> !other_than(own_address@)(#[trigger] parents@[j]),
        decreases parents.len() - i,
    {
        if !same_text(parents[i].as_str(), own_address) {
            proof {
                lemma_first_where_is(parents@, other_than(own_address@), i as int);
            }
            return Some(&parents[i]);
        }
        i += 1;
    }
    proof {
        lemma_first_where_none(parents@, other_than(own_address@));
    }
    None
}

/// The largest bet that a multiplier takes under a cap on payouts.
pub fn max_bet_amount(max_payout_sats: u64, multiplier: &Multiplier) -> (threshold: u64)
    ensures
        threshold == donation_threshold(max_payout_sats, *multiplier),
        threshold <= max_payout_sats,
{
    let ratio: u64 = multiplier.multiplier();
    let scaled: u128 = max_payout_sats as u128 * 100;
    let threshold: u128 = scaled / ratio as u128;
    assert(threshold <= max_payout_sats) by (nonlinear_arith)
        requires
            threshold == (max_payout_sats * 100) / (ratio as int),
            ratio >= 100,
    ;
    threshold as u64
}

/// What a winning bet is paid.
pub fn payout_amount(bet: u64, multiplier: &Multiplier) -> (payout: u64)
    requires
        payout_for(bet, *multiplier) <= u64::MAX,
    ensures
        payout == payout_for(bet, *multiplier),
{
    let ratio: u64 = multiplier.multiplier();
    let scaled: u128 = bet as u128 * ratio as u128;
    (scaled / 100) as u64
}

/// A bet that does not exceed the threshold wins no more than the cap.
pub proof fn lemma_payout_within_cap(max_payout_sats: u64, multiplier: Multiplier, bet: u64)
    requires
        bet <= donation_threshold(max_payout_sats, multiplier),
    ensures
        payout_for(bet, multiplier) <= max_payout_sats,
{
    let ratio = multiplier.ratio() as int;
    assert((bet * ratio) / 100 <= max_payout_sats) by (nonlinear_arith)
        requires
            bet <= (max_payout_sats * 100) / ratio,
            ratio >= 100,
            bet >= 0,
            max_payout_sats >= 0,
    ;
}

/// What follows the `retry_count`-th failed payout attempt in a row.
pub fn next_payout_attempt(retry_count: u8) -> (next: PayoutRetry)
    requires
        retry_count >= 1,
    ensures
        next == retry_after(retry_count),
{
    if retry_count >= MAX_RETRIES {
        PayoutRetry::GiveUp
    } else {
        let mut delay_ms: u64 = 1000;
        let mut k: u8 = 1;
        while k < retry_count
            invariant
                1 <= k <= retry_count < MAX_RETRIES,
                delay_ms == backoff_ms(k),
                delay_ms <= 2000,
            decreases retry_count - k,
        {
            k += 1;
            delay_ms = delay_ms * 2;
        }
        PayoutRetry::After { delay_ms }
    }
}

/// Filing a row that the ledger takes keeps the ledger well formed and
/// makes the deposit a recorded one; otherwise nothing changes.
pub proof fn lemma_recorded(state: LedgerState, row: GameRow)
    requires
        state.wf(),
    ensures
        state.recorded(row).wf(),
        state.takes_game(row.input_tx_id) ==> state.recorded(row).has_game(row.input_tx_id),
        state.takes_game(row.input_tx_id) ==> state.recorded(row).games.len() == state.games.len()
            + 1,
        state.recorded(row).own_transactions == state.own_transactions,
        state.recorded(row).nonces == state.nonces,
{
    if state.takes_game(row.input_tx_id) {
        crate::db::lemma_slot(state.games, row.timestamp);
        crate::db::lemma_with_game_wf(state, GameRow { id: (state.games.len() + 1) as i64, ..row });
    }
}

/// Offering a row to the ledger removes no round from it.
pub proof fn lemma_recorded_keeps_games(state: LedgerState, row: GameRow, tx: Seq<char>)
    requires
        state.has_game(tx),
    ensures
        state.recorded(row).has_game(tx),
{
    if state.takes_game(row.input_tx_id) {
        let k = crate::db::slot(state.games, row.timestamp);
        crate::db::lemma_slot(state.games, row.timestamp);
        let after = state.recorded(row);
        let i = choose|i: int| 0 <= i < state.games.len() && #[trigger] state.games[i].input_tx_id
            == tx;
        let j = if i < k {
            i
        } else {
            i + 1
        };
        assert(after.games[j] == state.games[i]);
        assert(after.games[j].input_tx_id == tx);
    }
}

/// Noting a transaction of the house keeps the ledger well formed, makes
/// the transaction a recorded one where the ledger has room, and leaves the
/// rounds as they were.
pub proof fn lemma_noted(state: LedgerState, tx: Seq<char>, kind: Seq<char>, now: i64)
    requires
        state.wf(),
    ensures
        state.noted(tx, kind, now).wf(),
        state.own_transactions.len() < i64::MAX ==> state.noted(tx, kind, now).has_own(tx),
        state.noted(tx, kind, now).games == state.games,
        forall|other: Seq<char>| state.has_own(other) ==> state.noted(tx, kind, now).has_own(other),
{
    let after = state.noted(tx, kind, now);
    if state.takes_own(tx) {
        let n = state.own_transactions.len() as int;
        assert(after.own_transactions[n].tx_id == tx);
        assert forall|other: Seq<char>| state.has_own(other) implies after.has_own(other) by {
            let i = choose|i: int|
                0 <= i < state.own_transactions.len() && #[trigger] state.own_transactions[i].tx_id
                    == other;
            assert(after.own_transactions[i].tx_id == other);
        }
    }
}

/// Offering a row to the ledger leaves no payout unrecorded, provided the
/// payout that the row names, if any, is recorded as the house's own.
pub proof fn lemma_recorded_payouts_noted(state: LedgerState, row: GameRow)
    requires
        state.payouts_noted(),
        state.payout_noted(row),
    ensures
        state.recorded(row).payouts_noted(),
{
    if state.takes_game(row.input_tx_id) {
        let filed = GameRow { id: (state.games.len() + 1) as i64, ..row };
        crate::db::lemma_with_game_payouts_noted(state, filed);
    }
}

/// Noting a transaction of the house leaves no payout unrecorded.
pub proof fn lemma_noted_payouts_noted(state: LedgerState, tx: Seq<char>, kind: Seq<char>, now: i64)
    requires
        state.payouts_noted(),
    ensures
        state.noted(tx, kind, now).payouts_noted(),
{
    if state.takes_own(tx) {
        crate::db::lemma_with_own_payouts_noted(
            state,
            OwnRow {
                id: (state.own_transactions.len() + 1) as i64,
                tx_id: tx,
                transaction_type: kind,
                created_at: now,
            },
        );
    }
}

/// Whether a row is what the rules of the house make of some deposit under
/// the cap `max_payout_sats`: a donation is above the threshold of its
/// multiplier, has won nothing and carries the roll `-1`; any other round
/// carries the roll that its game gives its nonce and its deposit, is a
/// win exactly where the roll is below the bound of its multiplier, and has
/// won the bet times the ratio, by the hundred and rounded down.
pub open spec fn follows_rules(row: GameRow, max_payout_sats: u64) -> bool {
    exists|game_type: GameType, multiplier: Multiplier, nonce: u64| #[trigger]
        follows_rules_of(row, max_payout_sats, game_type, multiplier, nonce)
}

/// Whether a row is what the rules make of a deposit to the address of
/// `multiplier` in the game `game_type` while `nonce` is current.
pub open spec fn follows_rules_of(
    row: GameRow,
    max_payout_sats: u64,
    game_type: GameType,
    multiplier: Multiplier,
    nonce: u64,
) -> bool {
    &&& row.multiplier == multiplier.ratio()
    &&& row.nonce == decimal(nonce as nat)
    &&& 0 <= row.bet_amount
    &&& if row.rolled_number == -1 {
        &&& row.bet_amount > donation_threshold(max_payout_sats, multiplier)
        &&& !row.is_winner
        &&& row.winning_amount is None
    } else {
        &&& row.rolled_number == outcome_of(
            game_type,
            nonce,
            row.input_tx_id,
            multiplier,
        ).rolled_value
        &&& 0 <= row.rolled_number <= 65535
        &&& row.is_winner == (row.rolled_number < multiplier.threshold())
        &&& match row.winning_amount {
            Some(amount) => row.is_winner && amount == payout_for(row.bet_amount as u64, multiplier),
            None => !row.is_winner,
        }
    }
}

/// Whether a row is consistent in itself: a winner has a winning amount, and
/// what counts as paid is a loss or names the transaction that paid it.
pub open spec fn consistent(row: GameRow) -> bool {
    &&& row.is_winner ==> row.winning_amount is Some
    &&& row.payment_successful ==> row.output_tx_id is Some || !row.is_winner
}

/// The row of a deposit that was settled as the house settles it is
/// consistent in itself, and it stays so when it is marked as paid.
pub proof fn lemma_settled_row_is_consistent(
    processor: TransactionProcessor,
    game_type: GameType,
    multiplier: Multiplier,
    txid: Seq<char>,
    vout: u32,
    amount: u64,
    sender: Seq<char>,
    nonce: u64,
    payout: Option<Seq<char>>,
    now: i64,
    later_payout: Seq<char>,
)
    ensures
        ({
            let round = round_for(
                processor.max_payout_sats,
                game_type,
                multiplier,
                txid,
                vout,
                amount,
                sender,
                nonce,
            );
            let row = settled_row(processor.settlement_of(round), round, payout, now);
            &&& consistent(row)
            &&& consistent(crate::db::paid(row, later_payout))
        }),
{
}

impl LedgerState {
    /// Whether every round in the ledger follows the rules of the house.
    pub open spec fn rounds_follow_rules(self, max_payout_sats: u64) -> bool {
        forall|i: int|
            0 <= i < self.games.len() ==> follows_rules(#[trigger] self.games[i], max_payout_sats)
    }
}

/// The row under which a round is recorded once it is settled; `payout` is
/// the transaction that paid a winner, if one did.
pub open spec fn settled_row(
    settlement: Settlement,
    round: Round,
    payout: Option<Seq<char>>,
    now: i64,
) -> GameRow {
    match settlement {
        Settlement::Donation => donation_row(round, now),
        Settlement::Winner => winner_row(round, payout, now),
        Settlement::Loser => loser_row(round, now),
    }
}

/// Offering a row that follows the rules to a ledger whose rounds all do
/// gives a ledger whose rounds all do.
pub proof fn lemma_recorded_follows_rules(state: LedgerState, row: GameRow, max_payout_sats: u64)
    requires
        state.rounds_follow_rules(max_payout_sats),
        follows_rules(row, max_payout_sats),
    ensures
        state.recorded(row).rounds_follow_rules(max_payout_sats),
{
    if state.takes_game(row.input_tx_id) {
        let filed = GameRow { id: (state.games.len() + 1) as i64, ..row };
        let k = crate::db::slot(state.games, row.timestamp);
        crate::db::lemma_slot(state.games, row.timestamp);
        let after = state.recorded(row);
        lemma_rules_ignore_id(row, filed, max_payout_sats);
        assert forall|i: int| 0 <= i < after.games.len() implies follows_rules(
            #[trigger] after.games[i],
            max_payout_sats,
        ) by {
            if i != k {
                let a = if i < k {
                    i
                } else {
                    i - 1
                };
                assert(after.games[i] == state.games[a]);
            } else {
                assert(after.games[i] == filed);
            }
        }
    }
}

/// Whether a row follows the rules does not depend on its id, its time, its
/// player or its payment.
pub proof fn lemma_rules_ignore_id(row: GameRow, other: GameRow, max_payout_sats: u64)
    requires
        follows_rules(row, max_payout_sats),
        other.nonce == row.nonce,
        other.rolled_number == row.rolled_number,
        other.input_tx_id == row.input_tx_id,
        other.bet_amount == row.bet_amount,
        other.winning_amount == row.winning_amount,
        other.is_winner == row.is_winner,
        other.multiplier == row.multiplier,
    ensures
        follows_rules(other, max_payout_sats),
{
    let (game_type, multiplier, nonce) = choose|
        game_type: GameType,
        multiplier: Multiplier,
        nonce: u64,
    |
        #[trigger] follows_rules_of(row, max_payout_sats, game_type, multiplier, nonce);
    assert(follows_rules_of(other, max_payout_sats, game_type, multiplier, nonce));
}

/// Marking a round as paid changes nothing about whether the rounds follow
/// the rules.
pub proof fn lemma_with_payment_follows_rules(
    state: LedgerState,
    id: i64,
    output: Seq<char>,
    max_payout_sats: u64,
)
    requires
        state.rounds_follow_rules(max_payout_sats),
    ensures
        state.with_payment(id, output).rounds_follow_rules(max_payout_sats),
{
    let after = state.with_payment(id, output);
    assert forall|i: int| 0 <= i < after.games.len() implies follows_rules(
        #[trigger] after.games[i],
        max_payout_sats,
    ) by {
        assert(follows_rules(state.games[i], max_payout_sats));
        lemma_rules_ignore_id(state.games[i], after.games[i], max_payout_sats);
    }
}

/// The row of a deposit that was settled as the house settles it follows
/// the rules: a donation is above the threshold and has won nothing, a
/// winner has won the bet times the ratio by the hundred, and the roll is
/// the one that the game gives the nonce and the deposit.
pub proof fn lemma_settled_row_follows_rules(
    processor: TransactionProcessor,
    game_type: GameType,
    multiplier: Multiplier,
    txid: Seq<char>,
    vout: u32,
    amount: u64,
    sender: Seq<char>,
    nonce: u64,
    payout: Option<Seq<char>>,
    now: i64,
)
    requires
        amount <= i64::MAX,
        processor.max_payout_sats <= i64::MAX,
    ensures
        ({
            let round = round_for(
                processor.max_payout_sats,
                game_type,
                multiplier,
                txid,
                vout,
                amount,
                sender,
                nonce,
            );
            &&& round.storable()
            &&& follows_rules(
                settled_row(processor.settlement_of(round), round, payout, now),
                processor.max_payout_sats,
            )
        }),
{
    let round = round_for(
        processor.max_payout_sats,
        game_type,
        multiplier,
        txid,
        vout,
        amount,
        sender,
        nonce,
    );
    let row = settled_row(processor.settlement_of(round), round, payout, now);
    crate::games::lemma_roll_range(game_type, nonce, txid, multiplier);
    if amount <= donation_threshold(processor.max_payout_sats, multiplier) {
        lemma_payout_within_cap(processor.max_payout_sats, multiplier, amount);
    }
    assert(follows_rules_of(row, processor.max_payout_sats, game_type, multiplier, nonce));
}

impl TransactionProcessor {
    /// The address that payouts come from.
    pub open spec fn own_address(&self) -> Seq<char>
        recommends
            self.my_addresses@.len() > 0,
    {
        self.my_addresses@[0]@
    }

    /// What becomes of a deposit before its sender is looked up.
    pub open spec fn screening(&self, state: LedgerState, event: SubscriptionEvent) -> Screening {
        if state.has_own(event.txid@) {
            Screening::OwnTransaction
        } else if state.has_game(event.txid@) {
            Screening::AlreadyProcessed
        } else {
            match game_at(
                self.game_addresses@,
                first_where(self.game_addresses@, owner_of(event.script_pubkey@)),
            ) {
                Some((game_type, multiplier)) => Screening::Play { game_type, multiplier },
                None => Screening::UnknownScript,
            }
        }
    }

    /// The round that a deposit comes to once the addresses that funded it
    /// are known, if any of them is a sender.
    pub open spec fn round_of(
        &self,
        game_type: GameType,
        multiplier: Multiplier,
        event: SubscriptionEvent,
        parents: Seq<String>,
        nonce: u64,
    ) -> Option<Round> {
        match sender_of(parents, self.own_address()) {
            Some(sender) => Some(
                round_for(
                    self.max_payout_sats,
                    game_type,
                    multiplier,
                    event.txid@,
                    event.vout,
                    event.amount,
                    sender,
                    nonce,
                ),
            ),
            None => None,
        }
    }

    /// How a round is settled.
    pub open spec fn settlement_of(&self, round: Round) -> Settlement {
        if round.payout_amount is None && round.input_amount > donation_threshold(
            self.max_payout_sats,
            round.multiplier,
        ) {
            Settlement::Donation
        } else if round.is_win {
            Settlement::Winner
        } else {
            Settlement::Loser
        }
    }

    /// Whether settling a deposit involves a payout: only a bet that has a
    /// sender and wins does.
    pub open spec fn payout_due(
        &self,
        state: LedgerState,
        event: SubscriptionEvent,
        parents: Seq<String>,
        nonce: u64,
    ) -> bool {
        match self.screening(state, event) {
            Screening::Play { game_type, multiplier } => match self.round_of(
                game_type,
                multiplier,
                event,
                parents,
                nonce,
            ) {
                Some(round) => self.settlement_of(round) == Settlement::Winner,
                None => false,
            },
            _ => false,
        }
    }

    /// The round that a deposit comes to, where it gets as far as that.
    pub open spec fn round_in(
        &self,
        state: LedgerState,
        event: SubscriptionEvent,
        parents: Seq<String>,
        nonce: u64,
    ) -> Option<Round> {
        match self.screening(state, event) {
            Screening::Play { game_type, multiplier } => self.round_of(
                game_type,
                multiplier,
                event,
                parents,
                nonce,
            ),
            _ => None,
        }
    }

    /// How a deposit is settled, where it gets as far as that.
    pub open spec fn settled_as(
        &self,
        state: LedgerState,
        event: SubscriptionEvent,
        parents: Seq<String>,
        nonce: u64,
    ) -> Option<Settlement> {
        match self.screening(state, event) {
            Screening::Play { game_type, multiplier } => match self.round_of(
                game_type,
                multiplier,
                event,
                parents,
                nonce,
            ) {
                Some(round) => Some(self.settlement_of(round)),
                None => None,
            },
            _ => None,
        }
    }

    /// The ledger after a deposit has been dealt with from its report to its
    /// record. `parents` are the addresses that funded it, `nonce` is the
    /// current nonce, and `payout` is the transaction that paid a winner, or
    /// nothing where every attempt failed.
    pub open spec fn after_event(
        &self,
        state: LedgerState,
        event: SubscriptionEvent,
        parents: Seq<String>,
        nonce: u64,
        payout: Option<Seq<char>>,
        now: i64,
    ) -> LedgerState {
        match self.screening(state, event) {
            Screening::Play { game_type, multiplier } => match self.round_of(
                game_type,
                multiplier,
                event,
                parents,
                nonce,
            ) {
                Some(round) => match (self.settlement_of(round), payout) {
                    (Settlement::Winner, Some(tx)) => state.noted(
                        tx,
                        "individual_payout"@,
                        now,
                    ).recorded(winner_row(round, Some(tx), now)),
                    (settlement, _) => state.recorded(settled_row(settlement, round, None, now)),
                },
                None => state,
            },
            _ => state,
        }
    }

    pub fn new(
        game_addresses: Vec<GameArkAddress>,
        my_addresses: Vec<String>,
        max_payout_sats: u64,
    ) -> (processor: TransactionProcessor)
        ensures
            processor.game_addresses == game_addresses,
            processor.my_addresses == my_addresses,
            processor.max_payout_sats == max_payout_sats,
    {
        TransactionProcessor { game_addresses, my_addresses, max_payout_sats }
    }

    /// The game that a deposit to `script_pubkey` is a bet on. Both scripts
    /// of a game address are taken, the usual one and the one for amounts
    /// below the dust limit.
    pub fn find_game_for_script(&self, script_pubkey: &[u8]) -> (found: Option<
        (GameType, Multiplier),
    >)
        ensures
            found == game_at(
                self.game_addresses@,
                first_where(self.game_addresses@, owner_of(script_pubkey@)),
            ),
    {
        find_game_for_script(&self.game_addresses, script_pubkey)
    }

    /// The largest bet that `multiplier` takes; a larger deposit is a donation.
    pub fn get_donation_threshold(&self, multiplier: &Multiplier) -> (threshold: u64)
        ensures
            threshold == donation_threshold(self.max_payout_sats, *multiplier),
            threshold <= self.max_payout_sats,
    {
        max_bet_amount(self.max_payout_sats, multiplier)
    }

    /// Screens a deposit against the ledger and the game addresses. Only a
    /// deposit that comes out as a bet is looked at any further.
    pub fn screen_event(&self, ledger: &Ledger, event: &SubscriptionEvent) -> (screening: Screening)
        ensures
            screening == self.screening(ledger@, *event),
    {
        if is_own_transaction(ledger, event.txid.as_str()) {
            return Screening::OwnTransaction;
        }
        if is_transaction_processed(ledger, event.txid.as_str()) {
            return Screening::AlreadyProcessed;
        }
        match self.find_game_for_script(event.script_pubkey.as_slice()) {
            Some((game_type, multiplier)) => Screening::Play { game_type, multiplier },
            None => Screening::UnknownScript,
        }
    }

    /// Attributes a deposit to its sender and evaluates it under the nonce
    /// that is current. Without a sender there is no round.
    pub fn evaluate_game(
        &self,
        game_type: GameType,
        multiplier: &Multiplier,
        event: &SubscriptionEvent,
        parents: &Vec<String>,
        current_nonce: u64,
    ) -> (result: Option<RoundResult>)
        requires
            self.my_addresses@.len() > 0,
        ensures
            match result {
                Some(round) => self.round_of(game_type, *multiplier, *event, parents@, current_nonce)
                    == Some(round@),
                None => self.round_of(game_type, *multiplier, *event, parents@, current_nonce)
                    is None,
            },
            result matches Some(round) ==> {
                &&& round@.payout_amount matches Some(amount) ==> amount <= self.max_payout_sats
                &&& round@.rolled_number == -1 || 0 <= round@.rolled_number <= 65535
            },
    {
        let own_address = &self.my_addresses[0];
        let sender = match find_sender(parents, own_address.as_str()) {
            Some(address) => address.clone(),
            None => {
                return None;
            },
        };
        let input_amount: u64 = event.amount;
        let donation_threshold: u64 = self.get_donation_threshold(multiplier);
        if input_amount > donation_threshold {
            return Some(
                RoundResult {
                    multiplier: *multiplier,
                    txid: event.txid.clone(),
                    vout: event.vout,
                    sender,
                    input_amount,
                    current_nonce,
                    rolled_number: -1,
                    is_win: false,
                    payout_amount: None,
                },
            );
        }
        let game = get_game(game_type);
        let evaluation = game.evaluate(current_nonce, event.txid.as_str(), multiplier);
        proof {
            lemma_payout_within_cap(self.max_payout_sats, *multiplier, input_amount);
            crate::games::lemma_roll_range(game_type, current_nonce, event.txid@, *multiplier);
        }
        let payout_amount: Option<u64> = if evaluation.is_win {
            Some(payout_amount(input_amount, multiplier))
        } else {
            None
        };
        Some(
            RoundResult {
                multiplier: *multiplier,
                txid: event.txid.clone(),
                vout: event.vout,
                sender,
                input_amount,
                current_nonce,
                rolled_number: evaluation.rolled_value,
                is_win: evaluation.is_win,
                payout_amount,
            },
        )
    }

    /// Decides how a round is settled: as a donation, a win or a loss.
    pub fn settlement(&self, round: &RoundResult) -> (settlement: Settlement)
        ensures
            settlement == self.settlement_of(round@),
    {
        if round.payout_amount.is_none() && round.input_amount > self.get_donation_threshold(
            &round.multiplier,
        ) {
            Settlement::Donation
        } else if round.is_win {
            Settlement::Winner
        } else {
            Settlement::Loser
        }
    }

    /// Records a donation. Where the ledger takes the row, the notice to
    /// announce is handed back.
    pub fn process_donation(&self, ledger: &mut Ledger, donation: &RoundResult, now: i64) -> (notice:
        Option<DonationItem>)
        requires
            old(ledger)@.wf(),
            donation@.storable(),
        ensures
            final(ledger)@.wf(),
            final(ledger)@ == old(ledger)@.recorded(donation_row(donation@, now)),
            match notice {
                Some(item) => old(ledger)@.takes_game(donation@.txid) && item@ == donation_notice(
                    donation@,
                    now,
                ),
                None => !old(ledger)@.takes_game(donation@.txid),
            },
    {
        let nonce = decimal_string(donation.current_nonce);
        let stored = insert_game_result(
            ledger,
            nonce.as_str(),
            donation.rolled_number,
            donation.txid.as_str(),
            None,
            donation.input_amount as i64,
            None,
            donation.sender.as_str(),
            false,
            false,
            donation.multiplier.multiplier() as i64,
            now,
        );
        match stored {
            Ok(_) => {
                let mut id = String::from_str("donation-");
                id.append(donation.txid.as_str());
                Some(
                    DonationItem {
                        id,
                        amount: donation.input_amount,
                        sender: donation.sender.clone(),
                        input_tx_id: donation.txid.clone(),
                        timestamp: now,
                    },
                )
            },
            Err(_) => None,
        }
    }

    /// Records a loss. Where the ledger takes the row, the round to announce
    /// is handed back.
    pub fn process_loser(
        &self,
        ledger: &mut Ledger,
        nonce_service: &NonceService,
        loser: &RoundResult,
        now: i64,
    ) -> (announced: Option<GameHistoryItem>)
        requires
            old(ledger)@.wf(),
            loser@.storable(),
        ensures
            final(ledger)@.wf(),
            final(ledger)@ == old(ledger)@.recorded(loser_row(loser@, now)),
            match announced {
                Some(item) => old(ledger)@.takes_game(loser@.txid) && item@ == announcement(
                    loser@,
                    false,
                    None,
                    None,
                    nonce_service.current(),
                    now,
                ),
                None => !old(ledger)@.takes_game(loser@.txid),
            },
    {
        let nonce = decimal_string(loser.current_nonce);
        let stored = insert_game_result(
            ledger,
            nonce.as_str(),
            loser.rolled_number,
            loser.txid.as_str(),
            None,
            loser.input_amount as i64,
            None,
            loser.sender.as_str(),
            false,
            true,
            loser.multiplier.multiplier() as i64,
            now,
        );
        match stored {
            Ok(_) => Some(
                GameHistoryItem {
                    id: String::from_str("latest"),
                    amount_sent: loser.input_amount,
                    multiplier: loser.multiplier.multiplier() as i64,
                    result_number: loser.rolled_number,
                    target_number: target_number(loser.multiplier.multiplier() as i64),
                    is_win: false,
                    payout: None,
                    input_tx_id: loser.txid.clone(),
                    output_tx_id: None,
                    nonce: nonce_service.get_revealable_nonce(nonce.as_str()),
                    nonce_hash: nonce_service.get_current_nonce_hash(),
                    timestamp: now,
                },
            ),
            Err(_) => None,
        }
    }

    /// Records a win, paid by `payout_txid` or, without one, still to be
    /// paid. Where the ledger takes the row, the round to announce is handed
    /// back.
    pub fn process_winner_result(
        &self,
        ledger: &mut Ledger,
        nonce_service: &NonceService,
        winner: &RoundResult,
        payout_txid: Option<&str>,
        now: i64,
    ) -> (announced: Option<GameHistoryItem>)
        requires
            old(ledger)@.wf(),
            winner@.storable(),
        ensures
            final(ledger)@.wf(),
            final(ledger)@ == old(ledger)@.recorded(
                winner_row(
                    winner@,
                    match payout_txid {
                        Some(tx) => Some(tx@),
                        None => None,
                    },
                    now,
                ),
            ),
            match announced {
                Some(item) => old(ledger)@.takes_game(winner@.txid) && item@ == announcement(
                    winner@,
                    true,
                    winner@.payout_amount,
                    match payout_txid {
                        Some(tx) => Some(tx@),
                        None => None,
                    },
                    nonce_service.current(),
                    now,
                ),
                None => !old(ledger)@.takes_game(winner@.txid),
            },
    {
        let nonce = decimal_string(winner.current_nonce);
        let stored = insert_game_result(
            ledger,
            nonce.as_str(),
            winner.rolled_number,
            winner.txid.as_str(),
            payout_txid,
            winner.input_amount as i64,
            match winner.payout_amount {
                Some(amount) => Some(amount as i64),
                None => None,
            },
            winner.sender.as_str(),
            true,
            payout_txid.is_some(),
            winner.multiplier.multiplier() as i64,
            now,
        );
        match stored {
            Ok(_) => Some(
                GameHistoryItem {
                    id: String::from_str("latest"),
                    amount_sent: winner.input_amount,
                    multiplier: winner.multiplier.multiplier() as i64,
                    result_number: winner.rolled_number,
                    target_number: target_number(winner.multiplier.multiplier() as i64),
                    is_win: true,
                    payout: winner.payout_amount,
                    input_tx_id: winner.txid.clone(),
                    output_tx_id: match payout_txid {
                        Some(tx) => Some(tx.to_owned()),
                        None => None,
                    },
                    nonce: nonce_service.get_revealable_nonce(nonce.as_str()),
                    nonce_hash: nonce_service.get_current_nonce_hash(),
                    timestamp: now,
                },
            ),
            Err(_) => None,
        }
    }

    /// Settles a win once its payout has come to an end: `payout_txid` is
    /// the transaction that paid it, or nothing where every attempt failed.
    /// A payout is noted as a transaction of the house before the round is
    /// recorded, so that its echo from the network is never taken for a
    /// deposit.
    pub fn process_individual_winner(
        &self,
        ledger: &mut Ledger,
        nonce_service: &NonceService,
        winner: &RoundResult,
        payout_txid: Option<&str>,
        now: i64,
    ) -> (announced: Option<GameHistoryItem>)
        requires
            old(ledger)@.wf(),
            winner@.storable(),
        ensures
            final(ledger)@.wf(),
            final(ledger)@ == match payout_txid {
                Some(tx) => old(ledger)@.noted(tx@, "individual_payout"@, now).recorded(
                    winner_row(winner@, Some(tx@), now),
                ),
                None => old(ledger)@.recorded(winner_row(winner@, None, now)),
            },
            match announced {
                Some(item) => old(ledger)@.takes_game(winner@.txid) && item@ == announcement(
                    winner@,
                    true,
                    winner@.payout_amount,
                    match payout_txid {
                        Some(tx) => Some(tx@),
                        None => None,
                    },
                    nonce_service.current(),
                    now,
                ),
                None => !old(ledger)@.takes_game(winner@.txid),
            },
    {
        match payout_txid {
            Some(tx) => {
                let _ = insert_own_transaction(ledger, tx, "individual_payout", now);
            },
            None => {},
        }
        self.process_winner_result(ledger, nonce_service, winner, payout_txid, now)
    }
}

/// Dealing with a deposit keeps the ledger well formed, leaves every payout
/// recorded as a transaction of the house as long as the ledger has room for
/// one, and keeps every round within the rules.
pub proof fn lemma_event_keeps_ledger_sound(
    processor: TransactionProcessor,
    state: LedgerState,
    event: SubscriptionEvent,
    parents: Seq<String>,
    nonce: u64,
    payout: Option<Seq<char>>,
    now: i64,
)
    requires
        state.wf(),
        event.amount <= i64::MAX,
        processor.max_payout_sats <= i64::MAX,
    ensures
        processor.after_event(state, event, parents, nonce, payout, now).wf(),
        state.payouts_noted() && state.own_transactions.len() < i64::MAX ==> processor.after_event(
            state,
            event,
            parents,
            nonce,
            payout,
            now,
        ).payouts_noted(),
        state.rounds_follow_rules(processor.max_payout_sats) ==> processor.after_event(
            state,
            event,
            parents,
            nonce,
            payout,
            now,
        ).rounds_follow_rules(processor.max_payout_sats),
{
    let max = processor.max_payout_sats;
    match processor.screening(state, event) {
        Screening::Play { game_type, multiplier } => {
            match processor.round_of(game_type, multiplier, event, parents, nonce) {
                Some(round) => {
                    let sender = sender_of(parents, processor.own_address())->0;
                    let settlement = processor.settlement_of(round);
                    match (settlement, payout) {
                        (Settlement::Winner, Some(tx)) => {
                            let noted = state.noted(tx, "individual_payout"@, now);
                            let row = winner_row(round, Some(tx), now);
                            lemma_noted(state, tx, "individual_payout"@, now);
                            lemma_recorded(noted, row);
                            if state.payouts_noted() && state.own_transactions.len() < i64::MAX {
                                lemma_noted_payouts_noted(state, tx, "individual_payout"@, now);
                                lemma_recorded_payouts_noted(noted, row);
                            }
                            if state.rounds_follow_rules(max) {
                                lemma_settled_row_follows_rules(
                                    processor,
                                    game_type,
                                    multiplier,
                                    event.txid@,
                                    event.vout,
                                    event.amount,
                                    sender,
                                    nonce,
                                    Some(tx),
                                    now,
                                );
                                assert(noted.rounds_follow_rules(max));
                                lemma_recorded_follows_rules(noted, row, max);
                            }
                        },
                        _ => {
                            let row = settled_row(settlement, round, None, now);
                            lemma_recorded(state, row);
                            if state.payouts_noted() {
                                lemma_recorded_payouts_noted(state, row);
                            }
                            if state.rounds_follow_rules(max) {
                                lemma_settled_row_follows_rules(
                                    processor,
                                    game_type,
                                    multiplier,
                                    event.txid@,
                                    event.vout,
                                    event.amount,
                                    sender,
                                    nonce,
                                    None,
                                    now,
                                );
                                lemma_recorded_follows_rules(state, row, max);
                            }
                        },
                    }
                },
                None => {},
            }
        },
        _ => {},
    }
}

/// A deposit that was found to be a bet with a sender is recorded, whatever
/// it came to, as long as the ledger has room for a round.
pub proof fn lemma_event_is_recorded(
    processor: TransactionProcessor,
    state: LedgerState,
    event: SubscriptionEvent,
    parents: Seq<String>,
    nonce: u64,
    payout: Option<Seq<char>>,
    now: i64,
)
    requires
        state.wf(),
        state.games.len() < i64::MAX,
        processor.screening(state, event) matches Screening::Play { game_type, multiplier }
            && processor.round_of(game_type, multiplier, event, parents, nonce) is Some,
    ensures
        processor.after_event(state, event, parents, nonce, payout, now).has_game(event.txid@),
        processor.after_event(state, event, parents, nonce, payout, now).games.len()
            == state.games.len() + 1,
{
    match processor.screening(state, event) {
        Screening::Play { game_type, multiplier } => {
            let round = processor.round_of(game_type, multiplier, event, parents, nonce)->0;
            let settlement = processor.settlement_of(round);
            match (settlement, payout) {
                (Settlement::Winner, Some(tx)) => {
                    let noted = state.noted(tx, "individual_payout"@, now);
                    lemma_noted(state, tx, "individual_payout"@, now);
                    assert(noted.has_game(event.txid@) == state.has_game(event.txid@));
                    lemma_recorded(noted, winner_row(round, Some(tx), now));
                },
                _ => {
                    lemma_recorded(state, settled_row(settlement, round, None, now));
                },
            }
        },
        _ => {},
    }
}

/// A deposit whose round is recorded is dropped when it is reported again:
/// the ledger stays as it is and no payout is due, whoever is named as its
/// sender and whatever nonce is current by then.
pub proof fn lemma_duplicate_event_is_dropped(
    processor: TransactionProcessor,
    state: LedgerState,
    event: SubscriptionEvent,
    parents: Seq<String>,
    nonce: u64,
    payout: Option<Seq<char>>,
    now: i64,
)
    requires
        state.has_game(event.txid@),
    ensures
        processor.after_event(state, event, parents, nonce, payout, now) == state,
        !processor.payout_due(state, event, parents, nonce),
{
}

/// Delivering a deposit twice writes one round: once the first report has
/// been dealt with and recorded, a second report of the same transaction
/// changes nothing and leads to no payout.
pub proof fn lemma_same_event_twice(
    processor: TransactionProcessor,
    state: LedgerState,
    event: SubscriptionEvent,
    parents: Seq<String>,
    nonce: u64,
    payout: Option<Seq<char>>,
    now: i64,
    again: SubscriptionEvent,
    parents_again: Seq<String>,
    nonce_again: u64,
    payout_again: Option<Seq<char>>,
    later: i64,
)
    requires
        state.wf(),
        state.games.len() < i64::MAX,
        processor.screening(state, event) matches Screening::Play { game_type, multiplier }
            && processor.round_of(game_type, multiplier, event, parents, nonce) is Some,
        again.txid@ == event.txid@,
    ensures
        ({
            let once = processor.after_event(state, event, parents, nonce, payout, now);
            &&& once.games.len() == state.games.len() + 1
            &&& processor.after_event(once, again, parents_again, nonce_again, payout_again, later)
                == once
            &&& !processor.payout_due(once, again, parents_again, nonce_again)
        }),
{
    lemma_event_is_recorded(processor, state, event, parents, nonce, payout, now);
    let once = processor.after_event(state, event, parents, nonce, payout, now);
    lemma_duplicate_event_is_dropped(
        processor,
        once,
        again,
        parents_again,
        nonce_again,
        payout_again,
        later,
    );
}

/// The echo of a payout is dropped: once a winner has been paid by a
/// transaction and the ledger had room to note it, a report of that
/// transaction is screened out as the house's own.
pub proof fn lemma_payout_echo_is_dropped(
    processor: TransactionProcessor,
    state: LedgerState,
    winner: Round,
    payout: Seq<char>,
    now: i64,
    echo: SubscriptionEvent,
)
    requires
        state.wf(),
        state.own_transactions.len() < i64::MAX,
        echo.txid@ == payout,
    ensures
        processor.screening(
            state.noted(payout, "individual_payout"@, now).recorded(
                winner_row(winner, Some(payout), now),
            ),
            echo,
        ) == Screening::OwnTransaction,
{
    let noted = state.noted(payout, "individual_payout"@, now);
    lemma_noted(state, payout, "individual_payout"@, now);
    lemma_recorded(noted, winner_row(winner, Some(payout), now));
    let after = noted.recorded(winner_row(winner, Some(payout), now));
    let i = choose|i: int|
        0 <= i < noted.own_transactions.len() && #[trigger] noted.own_transactions[i].tx_id
            == payout;
    assert(after.own_transactions[i].tx_id == payout);
}

impl TransactionProcessor {
    /// Deals with a deposit from its report to its record, given what the
    /// network answered on the way: `parents` are the addresses that funded
    /// the deposit, and `payout_txid` is the transaction that paid the
    /// winner, or nothing where every attempt failed. Neither is looked at
    /// unless the deposit gets that far.
    pub fn process_single_event(
        &self,
        ledger: &mut Ledger,
        nonce_service: &NonceService,
        event: &SubscriptionEvent,
        parents: &Vec<String>,
        payout_txid: Option<&str>,
        now: i64,
    ) -> (outcome: EventOutcome)
        requires
            old(ledger)@.wf(),
            self.my_addresses@.len() > 0,
            event.amount <= i64::MAX,
            self.max_payout_sats <= i64::MAX,
        ensures
            final(ledger)@.wf(),
            final(ledger)@ == self.after_event(
                old(ledger)@,
                *event,
                parents@,
                nonce_service.current(),
                match payout_txid {
                    Some(tx) => Some(tx@),
                    None => None,
                },
                now,
            ),
            match outcome {
                EventOutcome::Dropped(screening) => {
                    &&& screening == self.screening(old(ledger)@, *event)
                    &&& !(screening is Play)
                },
                EventOutcome::NoSender => {
                    &&& self.screening(old(ledger)@, *event) matches Screening::Play {
                        game_type,
                        multiplier,
                    }
                    &&& self.round_of(
                        game_type,
                        multiplier,
                        *event,
                        parents@,
                        nonce_service.current(),
                    ) is None
                },
                EventOutcome::Donation(_) => self.settled_as(
                    old(ledger)@,
                    *event,
                    parents@,
                    nonce_service.current(),
                ) == Some(Settlement::Donation),
                EventOutcome::Winner(_) => self.settled_as(
                    old(ledger)@,
                    *event,
                    parents@,
                    nonce_service.current(),
                ) == Some(Settlement::Winner),
                EventOutcome::Loser(_) => self.settled_as(
                    old(ledger)@,
                    *event,
                    parents@,
                    nonce_service.current(),
                ) == Some(Settlement::Loser),
            },
            match outcome {
                EventOutcome::Donation(notice) => notice is Some == old(ledger)@.takes_game(
                    event.txid@,
                ),
                EventOutcome::Winner(announced) | EventOutcome::Loser(announced) => announced
                    is Some == old(ledger)@.takes_game(event.txid@),
                _ => true,
            },
            ({
                let round = self.round_in(
                    old(ledger)@,
                    *event,
                    parents@,
                    nonce_service.current(),
                )->0;
                match outcome {
                    EventOutcome::Donation(Some(notice)) => notice@ == donation_notice(round, now),
                    EventOutcome::Winner(Some(item)) => item@ == announcement(
                        round,
                        true,
                        round.payout_amount,
                        match payout_txid {
                            Some(tx) => Some(tx@),
                            None => None,
                        },
                        nonce_service.current(),
                        now,
                    ),
                    EventOutcome::Loser(Some(item)) => item@ == announcement(
                        round,
                        false,
                        None,
                        None,
                        nonce_service.current(),
                        now,
                    ),
                    _ => true,
                }
            }),
    {
        let (game_type, multiplier) = match self.screen_event(ledger, event) {
            Screening::Play { game_type, multiplier } => (game_type, multiplier),
            screening => {
                return EventOutcome::Dropped(screening);
            },
        };
        let current_nonce = nonce_service.get_current_nonce();
        let round = match self.evaluate_game(game_type, &multiplier, event, parents, current_nonce) {
            Some(round) => round,
            None => {
                return EventOutcome::NoSender;
            },
        };
        proof {
            lemma_settled_row_follows_rules(
                *self,
                game_type,
                multiplier,
                event.txid@,
                event.vout,
                event.amount,
                round@.sender,
                current_nonce,
                None,
                now,
            );
            lemma_noted(
                old(ledger)@,
                match payout_txid {
                    Some(tx) => tx@,
                    None => Seq::empty(),
                },
                "individual_payout"@,
                now,
            );
        }
        match self.settlement(&round) {
            Settlement::Donation => EventOutcome::Donation(
                self.process_donation(ledger, &round, now),
            ),
            Settlement::Winner => EventOutcome::Winner(
                self.process_individual_winner(ledger, nonce_service, &round, payout_txid, now),
            ),
            Settlement::Loser => EventOutcome::Loser(
                self.process_loser(ledger, nonce_service, &round, now),
            ),
        }
    }
}

/// The roll and the verdict of a round of Satoshi's Number.
pub fn evaluate_game_outcome(nonce: u64, txid: &str, multiplier: &Multiplier) -> (outcome: (
    i64,
    bool,
))
    ensures
        outcome.0 == outcome_of(GameType::SatoshisNumber, nonce, txid@, *multiplier).rolled_value,
        outcome.1 == outcome_of(GameType::SatoshisNumber, nonce, txid@, *multiplier).is_win,
{
    let game = get_game(GameType::SatoshisNumber);
    let evaluation = game.evaluate(nonce, txid, multiplier);
    (evaluation.rolled_value, evaluation.is_win)
}

} // verus!
