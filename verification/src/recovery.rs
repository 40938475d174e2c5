//! Catching up after an outage: deposits that were never settled are
//! recorded, and winners that were never paid are paid. Either sweep can be
//! repeated at will; what one run has settled the next one leaves alone.

use crate::client::find_game_for_script;
use crate::client::game_at;
use crate::client::owner_of;
use crate::client::GameArkAddress;
use crate::client::VtxoOutPoint;
use crate::db::insert_game_result;
use crate::db::insert_own_transaction;
use crate::db::is_own_transaction;
use crate::db::is_transaction_processed;
use crate::db::mark_payment_successful;
use crate::db::GameResult;
use crate::db::GameRow;
use crate::db::Ledger;
use crate::db::unpaid_since;
use crate::db::LedgerState;
use crate::games::get_game;
use crate::games::Game;
use crate::games::GameType;
use crate::key_derivation::Multiplier;
use crate::search::first_where;
use crate::text::decimal_string;
use crate::transaction_processor::donation_row;
use crate::transaction_processor::donation_threshold;
use crate::transaction_processor::find_sender;
use crate::transaction_processor::lemma_payout_within_cap;
use crate::transaction_processor::lemma_recorded;
use crate::transaction_processor::loser_row;
use crate::transaction_processor::max_bet_amount;
use crate::transaction_processor::payout_amount;
use crate::transaction_processor::round_for;
use crate::transaction_processor::sender_of;
use crate::transaction_processor::winner_row;
use crate::transaction_processor::Round;
use vstd::prelude::*;
use vstd::string::*;

verus! {

/// What the sweep for missed deposits works with.
#[derive(Debug)]
pub struct MissedGames {
    /// The addresses that bets are sent to.
    pub game_addresses: Vec<GameArkAddress>,
    /// The house's own address.
    pub own_address: String,
    /// The most that a single bet can win, in satoshis.
    pub max_payout_sats: u64,
    /// Whether the sweep only counts and leaves the ledger alone.
    pub dry_run: bool,
}

/// What became of one output during the sweep for missed deposits.
#[derive(Debug, Clone, Copy, PartialEq, Eq, Structural)]
pub enum Fate {
    /// A round for the deposit is already recorded.
    AlreadyProcessed,
    /// The output is a transaction of the house itself.
    OwnTransaction,
    /// The output pays to none of the game addresses.
    UnknownScript,
    /// No address other than the house's own funded the output.
    NoSender,
    /// The amount exceeds what the multiplier takes as a bet.
    Donation,
    /// The round was won; it is recorded as still to be paid.
    Winner,
    /// The round was lost.
    Loser,
}

/// What a sweep for missed deposits found.
#[derive(Debug, Clone, Copy, PartialEq, Eq, Structural)]
pub struct MissedGamesReport {
    /// Outputs that had no round and are not the house's own.
    pub new_games: usize,
    /// Outputs whose round was already recorded.
    pub already_processed: usize,
    /// Outputs that are transactions of the house.
    pub own_transactions: usize,
    /// Winners that were recorded or, in a dry run, would have been.
    pub new_winners: usize,
    /// Deposits that exceed the threshold.
    pub donation_count: usize,
    /// What the winners that were found are owed in all, in satoshis.
    pub total_payout_amount: u128,
}

/// The counts of a sweep as numbers without bound.
pub struct Tally {
    pub new_games: nat,
    pub already_processed: nat,
    pub own_transactions: nat,
    pub new_winners: nat,
    pub donation_count: nat,
    pub total_payout_amount: nat,
}

impl MissedGamesReport {
    /// The counts of the report.
    pub open spec fn tally(self) -> Tally {
        Tally {
            new_games: self.new_games as nat,
            already_processed: self.already_processed as nat,
            own_transactions: self.own_transactions as nat,
            new_winners: self.new_winners as nat,
            donation_count: self.donation_count as nat,
            total_payout_amount: self.total_payout_amount as nat,
        }
    }
}

impl MissedGames {
    /// The game that an output belongs to, by its script in either form.
    pub open spec fn game_of(&self, vtxo: VtxoOutPoint) -> Option<(GameType, Multiplier)> {
        game_at(self.game_addresses@, first_where(self.game_addresses@, owner_of(vtxo.script@)))
    }

    /// The round that an output comes to, where it belongs to a game and has a sender.
    pub open spec fn round_of(&self, vtxo: VtxoOutPoint, parents: Seq<String>, nonce: u64) -> Option<
        Round,
    > {
        match (self.game_of(vtxo), sender_of(parents, self.own_address@)) {
            (Some((game_type, multiplier)), Some(sender)) => Some(
                round_for(
                    self.max_payout_sats,
                    game_type,
                    multiplier,
                    vtxo.txid@,
                    vtxo.vout,
                    vtxo.amount,
                    sender,
                    nonce,
                ),
            ),
            _ => None,
        }
    }

    /// What becomes of an output, given the ledger and the addresses that funded it.
    pub open spec fn fate(
        &self,
        state: LedgerState,
        vtxo: VtxoOutPoint,
        parents: Seq<String>,
        nonce: u64,
    ) -> Fate {
        if state.has_game(vtxo.txid@) {
            Fate::AlreadyProcessed
        } else if state.has_own(vtxo.txid@) {
            Fate::OwnTransaction
        } else if self.game_of(vtxo) is None {
            Fate::UnknownScript
        } else {
            match self.round_of(vtxo, parents, nonce) {
                None => Fate::NoSender,
                Some(round) => if round.rolled_number == -1 {
                    Fate::Donation
                } else if round.is_win {
                    Fate::Winner
                } else {
                    Fate::Loser
                },
            }
        }
    }

    /// The row that the sweep offers to the ledger for an output, if any. A
    /// winner is recorded as still to be paid: the sweep itself pays nobody.
    pub open spec fn row_for(
        &self,
        state: LedgerState,
        vtxo: VtxoOutPoint,
        parents: Seq<String>,
        nonce: u64,
        now: i64,
    ) -> Option<GameRow> {
        match self.fate(state, vtxo, parents, nonce) {
            Fate::Donation => Some(donation_row(self.round_of(vtxo, parents, nonce)->0, now)),
            Fate::Winner => Some(winner_row(self.round_of(vtxo, parents, nonce)->0, None, now)),
            Fate::Loser => Some(loser_row(self.round_of(vtxo, parents, nonce)->0, now)),
            _ => None,
        }
    }

    /// The ledger after the sweep has dealt with one output.
    pub open spec fn after_one(
        &self,
        state: LedgerState,
        vtxo: VtxoOutPoint,
        parents: Seq<String>,
        nonce: u64,
        now: i64,
    ) -> LedgerState {
        match self.row_for(state, vtxo, parents, nonce, now) {
            Some(row) if !self.dry_run => state.recorded(row),
            _ => state,
        }
    }

    /// The counts after the sweep has dealt with one more output.
    pub open spec fn count_one(
        &self,
        tally: Tally,
        state: LedgerState,
        vtxo: VtxoOutPoint,
        parents: Seq<String>,
        nonce: u64,
    ) -> Tally {
        match self.fate(state, vtxo, parents, nonce) {
            Fate::AlreadyProcessed => Tally {
                already_processed: tally.already_processed + 1,
                ..tally
            },
            Fate::OwnTransaction => Tally { own_transactions: tally.own_transactions + 1, ..tally },
            Fate::UnknownScript | Fate::NoSender | Fate::Loser => Tally {
                new_games: tally.new_games + 1,
                ..tally
            },
            Fate::Donation => Tally {
                new_games: tally.new_games + 1,
                donation_count: tally.donation_count + 1,
                ..tally
            },
            Fate::Winner => Tally {
                new_games: tally.new_games + 1,
                new_winners: if self.dry_run || state.takes_game(vtxo.txid@) {
                    tally.new_winners + 1
                } else {
                    tally.new_winners
                },
                total_payout_amount: tally.total_payout_amount + self.round_of(
                    vtxo,
                    parents,
                    nonce,
                )->0.payout_amount->0 as nat,
                ..tally
            },
        }
    }

    /// The ledger after the sweep has dealt with the first `n` outputs.
    pub open spec fn ledger_after(
        &self,
        state: LedgerState,
        vtxos: Seq<VtxoOutPoint>,
        parents: Seq<Vec<String>>,
        nonce: u64,
        now: i64,
        n: nat,
    ) -> LedgerState
        decreases n,
    {
        if n == 0 {
            state
        } else {
            self.after_one(
                self.ledger_after(state, vtxos, parents, nonce, now, (n - 1) as nat),
                vtxos[n - 1],
                parents[n - 1]@,
                nonce,
                now,
            )
        }
    }

    /// The counts after the sweep has dealt with the first `n` outputs.
    pub open spec fn tally_after(
        &self,
        state: LedgerState,
        vtxos: Seq<VtxoOutPoint>,
        parents: Seq<Vec<String>>,
        nonce: u64,
        now: i64,
        n: nat,
    ) -> Tally
        decreases n,
    {
        if n == 0 {
            Tally {
                new_games: 0,
                already_processed: 0,
                own_transactions: 0,
                new_winners: 0,
                donation_count: 0,
                total_payout_amount: 0,
            }
        } else {
            self.count_one(
                self.tally_after(state, vtxos, parents, nonce, now, (n - 1) as nat),
                self.ledger_after(state, vtxos, parents, nonce, now, (n - 1) as nat),
                vtxos[n - 1],
                parents[n - 1]@,
                nonce,
            )
        }
    }

    /// Whether the sender of an output has to be looked up: not where its
    /// round is recorded, where it is the house's own, or where it belongs
    /// to no game.
    pub fn needs_sender(&self, ledger: &Ledger, vtxo: &VtxoOutPoint) -> (needed: bool)
        ensures
            needed == (!ledger@.has_game(vtxo.txid@) && !ledger@.has_own(vtxo.txid@)
                && self.game_of(*vtxo) is Some),
    {
        if is_transaction_processed(ledger, vtxo.txid.as_str()) {
            return false;
        }
        if is_own_transaction(ledger, vtxo.txid.as_str()) {
            return false;
        }
        find_game_for_script(&self.game_addresses, vtxo.script.as_slice()).is_some()
    }

    /// Deals with one output: decides what becomes of it and, unless this is
    /// a dry run, offers its row to the ledger. `parents` are the addresses
    /// that funded the output.
    pub fn recover_vtxo(
        &self,
        ledger: &mut Ledger,
        vtxo: &VtxoOutPoint,
        parents: &Vec<String>,
        current_nonce: u64,
        now: i64,
    ) -> (outcome: (Fate, u64, bool))
        requires
            old(ledger)@.wf(),
            vtxo.amount <= i64::MAX,
            self.max_payout_sats <= i64::MAX,
        ensures
            final(ledger)@.wf(),
            final(ledger)@ == self.after_one(old(ledger)@, *vtxo, parents@, current_nonce, now),
            outcome.0 == self.fate(old(ledger)@, *vtxo, parents@, current_nonce),
            outcome.1 == if outcome.0 == Fate::Winner {
                self.round_of(*vtxo, parents@, current_nonce)->0.payout_amount->0
            } else {
                0
            },
            outcome.2 == (outcome.0 == Fate::Winner && (self.dry_run || old(ledger)@.takes_game(
                vtxo.txid@,
            ))),
    {
        let tx_id = vtxo.txid.as_str();
        if is_transaction_processed(ledger, tx_id) {
            return (Fate::AlreadyProcessed, 0, false);
        }
        if is_own_transaction(ledger, tx_id) {
            return (Fate::OwnTransaction, 0, false);
        }
        let (game_type, multiplier) = match find_game_for_script(
            &self.game_addresses,
            vtxo.script.as_slice(),
        ) {
            Some(game_info) => game_info,
            None => {
                return (Fate::UnknownScript, 0, false);
            },
        };
        let sender = match find_sender(parents, self.own_address.as_str()) {
            Some(address) => address,
            None => {
                return (Fate::NoSender, 0, false);
            },
        };
        let input_amount: u64 = vtxo.amount;
        let nonce = decimal_string(current_nonce);
        let ghost round = self.round_of(*vtxo, parents@, current_nonce)->0;
        proof {
            lemma_recorded(old(ledger)@, donation_row(round, now));
            lemma_recorded(old(ledger)@, winner_row(round, None, now));
            lemma_recorded(old(ledger)@, loser_row(round, now));
        }
        let donation_threshold: u64 = max_bet_amount(self.max_payout_sats, &multiplier);
        if input_amount > donation_threshold {
            if !self.dry_run {
                let _ = insert_game_result(
                    ledger,
                    nonce.as_str(),
                    -1,
                    tx_id,
                    None,
                    input_amount as i64,
                    None,
                    sender.as_str(),
                    false,
                    false,
                    multiplier.multiplier() as i64,
                    now,
                );
            }
            return (Fate::Donation, 0, false);
        }
        let game = get_game(game_type);
        let evaluation = game.evaluate(current_nonce, tx_id, &multiplier);
        proof {
            lemma_payout_within_cap(self.max_payout_sats, multiplier, input_amount);
            crate::games::lemma_roll_range(game_type, current_nonce, vtxo.txid@, multiplier);
        }
        if evaluation.is_win {
            let payout_sats: u64 = payout_amount(input_amount, &multiplier);
            if self.dry_run {
                return (Fate::Winner, payout_sats, true);
            }
            let stored = insert_game_result(
                ledger,
                nonce.as_str(),
                evaluation.rolled_value,
                tx_id,
                None,
                input_amount as i64,
                Some(payout_sats as i64),
                sender.as_str(),
                true,
                false,
                multiplier.multiplier() as i64,
                now,
            );
            (Fate::Winner, payout_sats, stored.is_ok())
        } else {
            if !self.dry_run {
                let _ = insert_game_result(
                    ledger,
                    nonce.as_str(),
                    evaluation.rolled_value,
                    tx_id,
                    None,
                    input_amount as i64,
                    None,
                    sender.as_str(),
                    false,
                    true,
                    multiplier.multiplier() as i64,
                    now,
                );
            }
            (Fate::Loser, 0, false)
        }
    }
}

impl MissedGames {
    /// Whether the sweep passes an output over whatever nonce is current:
    /// in a dry run, where the round is recorded, where the output is the
    /// house's own, belongs to no game or has no sender, and where the
    /// ledger has no room.
    pub open spec fn passes_over(&self, state: LedgerState, vtxo: VtxoOutPoint, parents: Seq<String>)
        -> bool {
        ||| self.dry_run
        ||| state.has_game(vtxo.txid@)
        ||| state.has_own(vtxo.txid@)
        ||| self.game_of(vtxo) is None
        ||| sender_of(parents, self.own_address@) is None
        ||| state.games.len() >= i64::MAX
    }
}

/// What the sweep passes over it leaves as it is.
pub proof fn lemma_passed_over_unchanged(
    sweep: MissedGames,
    state: LedgerState,
    vtxo: VtxoOutPoint,
    parents: Seq<String>,
    nonce: u64,
    now: i64,
)
    requires
        sweep.passes_over(state, vtxo, parents),
    ensures
        sweep.after_one(state, vtxo, parents, nonce, now) == state,
{
}

/// Once the sweep has dealt with an output, it passes it over.
pub proof fn lemma_dealt_with_is_passed_over(
    sweep: MissedGames,
    state: LedgerState,
    vtxo: VtxoOutPoint,
    parents: Seq<String>,
    nonce: u64,
    now: i64,
)
    requires
        state.wf(),
    ensures
        sweep.passes_over(sweep.after_one(state, vtxo, parents, nonce, now), vtxo, parents),
{
    if !sweep.passes_over(state, vtxo, parents) {
        let row = sweep.row_for(state, vtxo, parents, nonce, now)->0;
        lemma_recorded(state, row);
    }
}

/// What the sweep passes over it still passes over after it has dealt with
/// another output.
pub proof fn lemma_passed_over_stays(
    sweep: MissedGames,
    state: LedgerState,
    vtxo: VtxoOutPoint,
    parents: Seq<String>,
    other: VtxoOutPoint,
    other_parents: Seq<String>,
    nonce: u64,
    now: i64,
)
    requires
        state.wf(),
        sweep.passes_over(state, vtxo, parents),
    ensures
        sweep.passes_over(
            sweep.after_one(state, other, other_parents, nonce, now),
            vtxo,
            parents,
        ),
{
    match sweep.row_for(state, other, other_parents, nonce, now) {
        Some(row) => {
            lemma_recorded(state, row);
            if state.has_game(vtxo.txid@) {
                crate::transaction_processor::lemma_recorded_keeps_games(state, row, vtxo.txid@);
            }
        },
        None => {},
    }
}

/// The sweep keeps the ledger well formed, names no payout and keeps every
/// round within the rules.
pub proof fn lemma_missed_game_keeps_ledger_sound(
    sweep: MissedGames,
    state: LedgerState,
    vtxo: VtxoOutPoint,
    parents: Seq<String>,
    nonce: u64,
    now: i64,
)
    requires
        state.wf(),
        vtxo.amount <= i64::MAX,
        sweep.max_payout_sats <= i64::MAX,
    ensures
        sweep.after_one(state, vtxo, parents, nonce, now).wf(),
        state.payouts_noted() ==> sweep.after_one(state, vtxo, parents, nonce, now).payouts_noted(),
        state.rounds_follow_rules(sweep.max_payout_sats) ==> sweep.after_one(
            state,
            vtxo,
            parents,
            nonce,
            now,
        ).rounds_follow_rules(sweep.max_payout_sats),
{
    match sweep.row_for(state, vtxo, parents, nonce, now) {
        Some(row) => {
            let (game_type, multiplier) = sweep.game_of(vtxo)->0;
            let sender = sender_of(parents, sweep.own_address@)->0;
            let round = sweep.round_of(vtxo, parents, nonce)->0;
            lemma_recorded(state, row);
            if state.payouts_noted() {
                crate::transaction_processor::lemma_recorded_payouts_noted(state, row);
            }
            if state.rounds_follow_rules(sweep.max_payout_sats) {
                crate::games::lemma_roll_range(game_type, nonce, vtxo.txid@, multiplier);
                if vtxo.amount <= donation_threshold(sweep.max_payout_sats, multiplier) {
                    lemma_payout_within_cap(sweep.max_payout_sats, multiplier, vtxo.amount);
                }
                assert(crate::transaction_processor::follows_rules_of(
                    row,
                    sweep.max_payout_sats,
                    game_type,
                    multiplier,
                    nonce,
                ));
                crate::transaction_processor::lemma_recorded_follows_rules(
                    state,
                    row,
                    sweep.max_payout_sats,
                );
            }
        },
        None => {},
    }
}

/// A whole sweep for missed deposits keeps the ledger well formed, names no
/// payout and keeps every round within the rules.
pub proof fn lemma_missed_games_keep_ledger_sound(
    sweep: MissedGames,
    state: LedgerState,
    vtxos: Seq<VtxoOutPoint>,
    parents: Seq<Vec<String>>,
    nonce: u64,
    now: i64,
    n: nat,
)
    requires
        state.wf(),
        n <= vtxos.len(),
        parents.len() == vtxos.len(),
        sweep.max_payout_sats <= i64::MAX,
        forall|i: int| 0 <= i < vtxos.len() ==> (#[trigger] vtxos[i]).amount <= i64::MAX,
    ensures
        sweep.ledger_after(state, vtxos, parents, nonce, now, n).wf(),
        state.payouts_noted() ==> sweep.ledger_after(
            state,
            vtxos,
            parents,
            nonce,
            now,
            n,
        ).payouts_noted(),
        state.rounds_follow_rules(sweep.max_payout_sats) ==> sweep.ledger_after(
            state,
            vtxos,
            parents,
            nonce,
            now,
            n,
        ).rounds_follow_rules(sweep.max_payout_sats),
    decreases n,
{
    if n > 0 {
        lemma_missed_games_keep_ledger_sound(
            sweep,
            state,
            vtxos,
            parents,
            nonce,
            now,
            (n - 1) as nat,
        );
        lemma_missed_game_keeps_ledger_sound(
            sweep,
            sweep.ledger_after(state, vtxos, parents, nonce, now, (n - 1) as nat),
            vtxos[n - 1],
            parents[n - 1]@,
            nonce,
            now,
        );
    }
}

/// After the sweep has dealt with the first `n` outputs the ledger is well
/// formed and the sweep passes each of them over.
pub proof fn lemma_sweep_settles(
    sweep: MissedGames,
    state: LedgerState,
    vtxos: Seq<VtxoOutPoint>,
    parents: Seq<Vec<String>>,
    nonce: u64,
    now: i64,
    n: nat,
)
    requires
        state.wf(),
        n <= vtxos.len(),
        parents.len() == vtxos.len(),
    ensures
        sweep.ledger_after(state, vtxos, parents, nonce, now, n).wf(),
        forall|i: int|
            0 <= i < n ==> sweep.passes_over(
                sweep.ledger_after(state, vtxos, parents, nonce, now, n),
                #[trigger] vtxos[i],
                parents[i]@,
            ),
    decreases n,
{
    if n > 0 {
        let before = sweep.ledger_after(state, vtxos, parents, nonce, now, (n - 1) as nat);
        let after = sweep.ledger_after(state, vtxos, parents, nonce, now, n);
        lemma_sweep_settles(sweep, state, vtxos, parents, nonce, now, (n - 1) as nat);
        match sweep.row_for(before, vtxos[n - 1], parents[n - 1]@, nonce, now) {
            Some(row) => {
                lemma_recorded(before, row);
            },
            None => {},
        }
        assert forall|i: int| 0 <= i < n implies sweep.passes_over(
            after,
            #[trigger] vtxos[i],
            parents[i]@,
        ) by {
            if i == n - 1 {
                lemma_dealt_with_is_passed_over(sweep, before, vtxos[i], parents[i]@, nonce, now);
            } else {
                lemma_passed_over_stays(
                    sweep,
                    before,
                    vtxos[i],
                    parents[i]@,
                    vtxos[n - 1],
                    parents[n - 1]@,
                    nonce,
                    now,
                );
            }
        }
    }
}

/// A sweep over outputs that are all passed over changes nothing.
pub proof fn lemma_sweep_of_settled_is_idle(
    sweep: MissedGames,
    state: LedgerState,
    vtxos: Seq<VtxoOutPoint>,
    parents: Seq<Vec<String>>,
    nonce: u64,
    now: i64,
    n: nat,
)
    requires
        n <= vtxos.len(),
        parents.len() == vtxos.len(),
        forall|i: int| 0 <= i < n ==> sweep.passes_over(state, #[trigger] vtxos[i], parents[i]@),
    ensures
        sweep.ledger_after(state, vtxos, parents, nonce, now, n) == state,
    decreases n,
{
    if n > 0 {
        lemma_sweep_of_settled_is_idle(sweep, state, vtxos, parents, nonce, now, (n - 1) as nat);
        lemma_passed_over_unchanged(sweep, state, vtxos[n - 1], parents[n - 1]@, nonce, now);
    }
}

/// Running the sweep for missed deposits twice over the same outputs gives
/// the ledger that running it once gives, whatever nonce is current and
/// whatever time it is during the second run.
pub proof fn lemma_missed_games_twice(
    sweep: MissedGames,
    state: LedgerState,
    vtxos: Seq<VtxoOutPoint>,
    parents: Seq<Vec<String>>,
    nonce: u64,
    now: i64,
    nonce_again: u64,
    later: i64,
)
    requires
        state.wf(),
        parents.len() == vtxos.len(),
    ensures
        ({
            let once = sweep.ledger_after(state, vtxos, parents, nonce, now, vtxos.len());
            sweep.ledger_after(once, vtxos, parents, nonce_again, later, vtxos.len()) == once
        }),
{
    let once = sweep.ledger_after(state, vtxos, parents, nonce, now, vtxos.len());
    lemma_sweep_settles(sweep, state, vtxos, parents, nonce, now, vtxos.len());
    lemma_sweep_of_settled_is_idle(sweep, once, vtxos, parents, nonce_again, later, vtxos.len());
}

/// The sweep for missed deposits. Every output of `vtxos` is dealt with in
/// turn, with `parents[i]` as the addresses that funded `vtxos[i]`: what has
/// a round or is the house's own is passed over, and what is left is
/// evaluated under the current nonce and recorded, winners as still to be
/// paid. In a dry run the ledger stays as it is.
pub fn process_missed_games(
    sweep: &MissedGames,
    ledger: &mut Ledger,
    vtxos: &Vec<VtxoOutPoint>,
    parents: &Vec<Vec<String>>,
    current_nonce: u64,
    now: i64,
) -> (report: MissedGamesReport)
    requires
        old(ledger)@.wf(),
        parents@.len() == vtxos@.len(),
        sweep.max_payout_sats <= i64::MAX,
        forall|i: int| 0 <= i < vtxos@.len() ==> (#[trigger] vtxos@[i]).amount <= i64::MAX,
    ensures
        final(ledger)@.wf(),
        final(ledger)@ == sweep.ledger_after(
            old(ledger)@,
            vtxos@,
            parents@,
            current_nonce,
            now,
            vtxos@.len(),
        ),
        report.tally() == sweep.tally_after(
            old(ledger)@,
            vtxos@,
            parents@,
            current_nonce,
            now,
            vtxos@.len(),
        ),
{
    let mut report = MissedGamesReport {
        new_games: 0,
        already_processed: 0,
        own_transactions: 0,
        new_winners: 0,
        donation_count: 0,
        total_payout_amount: 0,
    };
    let mut i: usize = 0;
    while i < vtxos.len()
        invariant
            i <= vtxos@.len(),
            parents@.len() == vtxos@.len(),
            sweep.max_payout_sats <= i64::MAX,
            forall|k: int| 0 <= k < vtxos@.len() ==> (#[trigger] vtxos@[k]).amount <= i64::MAX,
            ledger@.wf(),
            ledger@ == sweep.ledger_after(
                old(ledger)@,
                vtxos@,
                parents@,
                current_nonce,
                now,
                i as nat,
            ),
            report.tally() == sweep.tally_after(
                old(ledger)@,
                vtxos@,
                parents@,
                current_nonce,
                now,
                i as nat,
            ),
            report.new_games <= i,
            report.already_processed <= i,
            report.own_transactions <= i,
            report.new_winners <= i,
            report.donation_count <= i,
            report.total_payout_amount <= i * 0x1_0000_0000_0000_0000,
        decreases vtxos.len() - i,
    {
        let (fate, payout_sats, counted) = sweep.recover_vtxo(
            ledger,
            &vtxos[i],
            &parents[i],
            current_nonce,
            now,
        );
        match fate {
            Fate::AlreadyProcessed => {
                report.already_processed += 1;
            },
            Fate::OwnTransaction => {
                report.own_transactions += 1;
            },
            Fate::UnknownScript | Fate::NoSender | Fate::Loser => {
                report.new_games += 1;
            },
            Fate::Donation => {
                report.new_games += 1;
                report.donation_count += 1;
            },
            Fate::Winner => {
                report.new_games += 1;
                report.total_payout_amount += payout_sats as u128;
                if counted {
                    report.new_winners += 1;
                }
            },
        }
        i += 1;
    }
    report
}

/// What a sweep for unpaid winners did.
#[derive(Debug, Clone, Copy, PartialEq, Eq, Structural)]
pub struct MissedPayoutsReport {
    /// Winners that the sweep dealt with.
    pub retry_payouts: usize,
    /// Payouts that were sent or, in a dry run, would have been attempted.
    pub successful_payouts: usize,
    /// Payouts that could not be sent.
    pub failed_payouts: usize,
    /// What the winners were owed in all, in satoshis.
    pub total_payout_amount: u128,
}

/// Why a sweep did not reach its end.
#[derive(Debug, Clone, Copy, PartialEq, Eq, Structural)]
pub enum RecoveryError {
    /// As many payouts could not be sent.
    PayoutsFailed { failed: usize },
}

/// What an unpaid winner is owed in satoshis: the winning amount of the row,
/// and nothing where the row has none.
pub open spec fn owed(row: GameRow) -> u64 {
    match row.winning_amount {
        Some(amount) => amount as u64,
        None => 0,
    }
}

/// What an unpaid winner is owed in satoshis.
pub fn payout_owed(winner: &GameResult) -> (payout_sats: u64)
    ensures
        payout_sats == owed(winner@),
{
    match winner.winning_amount {
        Some(amount) => #[verifier::truncate]
        (amount as u64),
        None => 0,
    }
}

/// The ledger after the payout to the round `id` has come to an end: with
/// `payout` as the transaction that paid it, the transaction is noted as
/// the house's own and the round is marked as paid; without one nothing
/// changes.
pub open spec fn after_retry(state: LedgerState, id: i64, payout: Option<Seq<char>>, now: i64)
    -> LedgerState {
    match payout {
        Some(tx) => state.noted(tx, "retry_payout"@, now).with_payment(id, tx),
        None => state,
    }
}

/// The ledger after the first `n` of the winners have been dealt with.
pub open spec fn retries_after(
    state: LedgerState,
    winners: Seq<GameResult>,
    payouts: Seq<Option<String>>,
    dry_run: bool,
    now: i64,
    n: nat,
) -> LedgerState
    decreases n,
{
    if n == 0 || dry_run {
        state
    } else {
        after_retry(
            retries_after(state, winners, payouts, dry_run, now, (n - 1) as nat),
            winners[n - 1].id,
            crate::db::text_of(payouts[n - 1]),
            now,
        )
    }
}

/// How many of the first `n` payouts came to nothing.
pub open spec fn failures_among(payouts: Seq<Option<String>>, n: nat) -> nat
    decreases n,
{
    if n == 0 {
        0
    } else {
        failures_among(payouts, (n - 1) as nat) + if payouts[n - 1] is None {
            1nat
        } else {
            0nat
        }
    }
}

/// What the first `n` of the winners are owed in all.
pub open spec fn owed_among(winners: Seq<GameResult>, n: nat) -> nat
    decreases n,
{
    if n == 0 {
        0
    } else {
        owed_among(winners, (n - 1) as nat) + owed(winners[n - 1]@) as nat
    }
}

/// Whether the round with the id `id` is a winner that waits for its payout.
pub open spec fn waits(state: LedgerState, id: i64) -> bool {
    exists|i: int|
        0 <= i < state.games.len() && (#[trigger] state.games[i]).id == id && unpaid_since(None)(
            state.games[i],
        )
}

/// Recording the end of a payout keeps the ledger well formed, leaves every
/// payout recorded as a transaction of the house as long as the ledger has
/// room for one, and keeps every round within the rules.
pub proof fn lemma_retry_keeps_ledger_sound(
    state: LedgerState,
    id: i64,
    payout: Option<Seq<char>>,
    now: i64,
    max_payout_sats: u64,
)
    requires
        state.wf(),
    ensures
        after_retry(state, id, payout, now).wf(),
        state.payouts_noted() && state.own_transactions.len() < i64::MAX ==> after_retry(
            state,
            id,
            payout,
            now,
        ).payouts_noted(),
        state.rounds_follow_rules(max_payout_sats) ==> after_retry(
            state,
            id,
            payout,
            now,
        ).rounds_follow_rules(max_payout_sats),
        after_retry(state, id, payout, now).games.len() == state.games.len(),
        after_retry(state, id, payout, now).own_transactions.len() <= state.own_transactions.len()
            + 1,
{
    match payout {
        Some(tx) => {
            let noted = state.noted(tx, "retry_payout"@, now);
            crate::transaction_processor::lemma_noted(state, tx, "retry_payout"@, now);
            crate::db::lemma_with_payment_wf(noted, id, tx);
            if state.payouts_noted() && state.own_transactions.len() < i64::MAX {
                crate::transaction_processor::lemma_noted_payouts_noted(
                    state,
                    tx,
                    "retry_payout"@,
                    now,
                );
                crate::db::lemma_with_payment_payouts_noted(noted, id, tx);
            }
            if state.rounds_follow_rules(max_payout_sats) {
                assert(noted.rounds_follow_rules(max_payout_sats));
                crate::transaction_processor::lemma_with_payment_follows_rules(
                    noted,
                    id,
                    tx,
                    max_payout_sats,
                );
            }
        },
        None => {},
    }
}

/// A whole sweep for unpaid winners keeps the ledger well formed, leaves
/// every payout recorded as a transaction of the house as long as the ledger
/// has room for those of the sweep, and keeps every round within the rules.
pub proof fn lemma_missed_payouts_keep_ledger_sound(
    state: LedgerState,
    winners: Seq<GameResult>,
    payouts: Seq<Option<String>>,
    dry_run: bool,
    now: i64,
    n: nat,
    max_payout_sats: u64,
)
    requires
        state.wf(),
        n <= winners.len(),
        payouts.len() == winners.len(),
    ensures
        retries_after(state, winners, payouts, dry_run, now, n).wf(),
        retries_after(state, winners, payouts, dry_run, now, n).own_transactions.len()
            <= state.own_transactions.len() + n,
        state.payouts_noted() && state.own_transactions.len() + n <= i64::MAX ==> retries_after(
            state,
            winners,
            payouts,
            dry_run,
            now,
            n,
        ).payouts_noted(),
        state.rounds_follow_rules(max_payout_sats) ==> retries_after(
            state,
            winners,
            payouts,
            dry_run,
            now,
            n,
        ).rounds_follow_rules(max_payout_sats),
    decreases n,
{
    if n > 0 && !dry_run {
        let before = retries_after(state, winners, payouts, dry_run, now, (n - 1) as nat);
        lemma_missed_payouts_keep_ledger_sound(
            state,
            winners,
            payouts,
            dry_run,
            now,
            (n - 1) as nat,
            max_payout_sats,
        );
        lemma_retry_keeps_ledger_sound(
            before,
            winners[n - 1].id,
            crate::db::text_of(payouts[n - 1]),
            now,
            max_payout_sats,
        );
    }
}

/// A winner that was paid no longer waits, and no round starts to wait
/// because another one was paid.
pub proof fn lemma_retry_settles(
    state: LedgerState,
    id: i64,
    payout: Option<Seq<char>>,
    now: i64,
)
    ensures
        payout is Some ==> !waits(after_retry(state, id, payout, now), id),
        forall|other: i64|
            waits(after_retry(state, id, payout, now), other) ==> #[trigger] waits(state, other),
{
    let after = after_retry(state, id, payout, now);
    match payout {
        Some(tx) => {
            let noted = state.noted(tx, "retry_payout"@, now);
            assert(noted.games == state.games);
            assert forall|other: i64| waits(after, other) implies #[trigger] waits(state, other) by {
                let i = choose|i: int|
                    0 <= i < after.games.len() && (#[trigger] after.games[i]).id == other
                        && unpaid_since(None)(after.games[i]);
                assert(state.games[i].id == other && unpaid_since(None)(state.games[i]));
            }
        },
        None => {},
    }
}

/// After the sweep has dealt with the first `n` winners, none of them that
/// was paid waits any longer, and no round waits that did not wait before.
pub proof fn lemma_missed_payouts_settle(
    state: LedgerState,
    winners: Seq<GameResult>,
    payouts: Seq<Option<String>>,
    now: i64,
    n: nat,
)
    requires
        n <= winners.len(),
        payouts.len() == winners.len(),
    ensures
        forall|i: int|
            0 <= i < n && payouts[i] is Some ==> !waits(
                retries_after(state, winners, payouts, false, now, n),
                (#[trigger] winners[i]).id,
            ),
        forall|id: i64|
            waits(retries_after(state, winners, payouts, false, now, n), id) ==> #[trigger] waits(
                state,
                id,
            ),
    decreases n,
{
    if n > 0 {
        let before = retries_after(state, winners, payouts, false, now, (n - 1) as nat);
        let after = retries_after(state, winners, payouts, false, now, n);
        lemma_missed_payouts_settle(state, winners, payouts, now, (n - 1) as nat);
        lemma_retry_settles(before, winners[n - 1].id, crate::db::text_of(payouts[n - 1]), now);
        assert forall|i: int| 0 <= i < n && payouts[i] is Some implies !waits(
            after,
            (#[trigger] winners[i]).id,
        ) by {
            if i < n - 1 {
                if waits(after, winners[i].id) {
                    assert(waits(before, winners[i].id));
                }
            }
        }
        assert forall|id: i64| waits(after, id) implies #[trigger] waits(state, id) by {
            assert(waits(before, id));
        }
    }
}

/// Where no payout failed, each of them came to a transaction.
pub proof fn lemma_no_failures(payouts: Seq<Option<String>>, n: nat)
    requires
        failures_among(payouts, n) == 0,
    ensures
        forall|i: int| 0 <= i < n ==> (#[trigger] payouts[i]) is Some,
    decreases n,
{
    if n > 0 {
        lemma_no_failures(payouts, (n - 1) as nat);
    }
}

/// Running the sweep for unpaid winners twice gives the ledger that
/// running it once gives, as far as the payouts went through: after a sweep
/// over all the winners that waited in which every payout was sent, no
/// winner waits, so that the next sweep has nothing to pay and nothing to
/// record.
pub proof fn lemma_missed_payouts_twice(
    state: LedgerState,
    winners: Seq<GameResult>,
    payouts: Seq<Option<String>>,
    now: i64,
)
    requires
        crate::db::game_rows(winners) == state.unpaid_winners(),
        payouts.len() == winners.len(),
        failures_among(payouts, winners.len()) == 0,
    ensures
        retries_after(state, winners, payouts, false, now, winners.len()).unpaid_winners().len()
            == 0,
{
    let after = retries_after(state, winners, payouts, false, now, winners.len());
    lemma_missed_payouts_settle(state, winners, payouts, now, winners.len());
    lemma_no_failures(payouts, winners.len());
    assert forall|k: int| 0 <= k < after.games.len() implies !unpaid_since(None)(
        #[trigger] after.games[k],
    ) by {
        if unpaid_since(None)(after.games[k]) {
            let id = after.games[k].id;
            assert(waits(after, id));
            assert(waits(state, id));
            let j = choose|j: int|
                0 <= j < state.games.len() && (#[trigger] state.games[j]).id == id && unpaid_since(
                    None,
                )(state.games[j]);
            state.games.lemma_filter_contains(unpaid_since(None), j);
            let found = state.unpaid_winners();
            let i = choose|i: int| 0 <= i < found.len() && found[i] == state.games[j];
            assert(crate::db::game_rows(winners)[i] == winners[i]@);
            assert(winners[i].id == id);
            assert(payouts[i] is Some);
        }
    }
    assert(after.games.all(|row: GameRow| !unpaid_since(None)(row)));
    after.games.lemma_all_neg_filter_empty(unpaid_since(None));
}

/// Records how the payout to an unpaid winner ended. A payout that was sent
/// is noted as a transaction of the house before the round is marked as paid.
pub fn settle_retry(ledger: &mut Ledger, winner: &GameResult, payout_txid: Option<&str>, now: i64)
    requires
        old(ledger)@.wf(),
    ensures
        final(ledger)@.wf(),
        final(ledger)@ == after_retry(
            old(ledger)@,
            winner.id,
            match payout_txid {
                Some(tx) => Some(tx@),
                None => None,
            },
            now,
        ),
{
    match payout_txid {
        Some(tx) => {
            let _ = insert_own_transaction(ledger, tx, "retry_payout", now);
            let _ = mark_payment_successful(ledger, winner.id, tx);
        },
        None => {},
    }
}

/// What a sweep for unpaid winners came to.
pub open spec fn payouts_outcome(
    winners: Seq<GameResult>,
    payouts: Seq<Option<String>>,
    dry_run: bool,
) -> Result<MissedPayoutsReport, RecoveryError> {
    let failed = if dry_run {
        0
    } else {
        failures_among(payouts, winners.len())
    };
    if failed > 0 {
        Err(RecoveryError::PayoutsFailed { failed: failed as usize })
    } else {
        Ok(
            MissedPayoutsReport {
                retry_payouts: winners.len() as usize,
                successful_payouts: winners.len() as usize,
                failed_payouts: 0,
                total_payout_amount: owed_among(winners, winners.len()) as u128,
            },
        )
    }
}

/// Sums up a sweep for unpaid winners: `payouts[i]` is the transaction that
/// paid `winners[i]`, or nothing where every attempt failed. In a dry run
/// every winner counts as a success. The sweep fails where a payout failed.
pub fn missed_payouts_report(
    winners: &Vec<GameResult>,
    payouts: &Vec<Option<String>>,
    dry_run: bool,
) -> (result: Result<MissedPayoutsReport, RecoveryError>)
    requires
        payouts@.len() == winners@.len(),
    ensures
        result == payouts_outcome(winners@, payouts@, dry_run),
{
    let mut failed_payouts: usize = 0;
    let mut total_payout_amount: u128 = 0;
    let mut i: usize = 0;
    while i < winners.len()
        invariant
            i <= winners@.len(),
            payouts@.len() == winners@.len(),
            failed_payouts <= i,
            failed_payouts == if dry_run {
                0
            } else {
                failures_among(payouts@, i as nat)
            },
            total_payout_amount == owed_among(winners@, i as nat),
            total_payout_amount <= i * 0x1_0000_0000_0000_0000,
        decreases winners.len() - i,
    {
        total_payout_amount += payout_owed(&winners[i]) as u128;
        if !dry_run && payouts[i].is_none() {
            failed_payouts += 1;
        }
        i += 1;
    }
    if failed_payouts > 0 {
        Err(RecoveryError::PayoutsFailed { failed: failed_payouts })
    } else {
        Ok(
            MissedPayoutsReport {
                retry_payouts: winners.len(),
                successful_payouts: winners.len(),
                failed_payouts: 0,
                total_payout_amount,
            },
        )
    }
}

/// The sweep for unpaid winners, once the payouts have been attempted:
/// `payouts[i]` is the transaction that paid `winners[i]`, or nothing where
/// every attempt failed. Each payout that was sent is recorded. In a dry run
/// nothing is recorded and every winner counts as a success. The sweep fails
/// where a payout failed.
pub fn process_missed_payouts(
    ledger: &mut Ledger,
    winners: &Vec<GameResult>,
    payouts: &Vec<Option<String>>,
    dry_run: bool,
    now: i64,
) -> (result: Result<MissedPayoutsReport, RecoveryError>)
    requires
        old(ledger)@.wf(),
        payouts@.len() == winners@.len(),
    ensures
        final(ledger)@.wf(),
        final(ledger)@ == retries_after(
            old(ledger)@,
            winners@,
            payouts@,
            dry_run,
            now,
            winners@.len(),
        ),
        result == payouts_outcome(winners@, payouts@, dry_run),
{
    let mut i: usize = 0;
    while i < winners.len()
        invariant
            i <= winners@.len(),
            payouts@.len() == winners@.len(),
            ledger@.wf(),
            ledger@ == retries_after(old(ledger)@, winners@, payouts@, dry_run, now, i as nat),
        decreases winners.len() - i,
    {
        if !dry_run {
            match &payouts[i] {
                Some(tx) => {
                    settle_retry(ledger, &winners[i], Some(tx.as_str()), now);
                },
                None => {
                    settle_retry(ledger, &winners[i], None, now);
                },
            }
        }
        i += 1;
    }
    missed_payouts_report(winners, payouts, dry_run)
}

} // verus!
