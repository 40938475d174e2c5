//! The ledger: every nonce the house committed to, every round it settled and
//! every transaction it sent itself. A deposit enters the ledger at most once.
//!
//! The ledger is held in memory. A program that wants it to outlast a restart
//! writes each row to disk as it is recorded, under the id that the ledger
//! gave it, and loads the rows again in the order of their ids.

use crate::text::same_text;
use vstd::prelude::*;
use vstd::string::*;

verus! {

/// A committed nonce as it is stored.
#[derive(Debug)]
pub struct Nonce {
    pub id: i64,
    pub nonce: String,
    pub nonce_hash: String,
    pub created_at: i64,
    pub expires_at: i64,
}

/// A settled round as it is stored. A donation carries the roll `-1`.
#[derive(Debug)]
pub struct GameResult {
    pub id: i64,
    pub nonce: String,
    pub rolled_number: i64,
    pub input_tx_id: String,
    pub output_tx_id: Option<String>,
    pub bet_amount: i64,
    pub winning_amount: Option<i64>,
    pub player_address: String,
    pub is_winner: bool,
    pub payment_successful: bool,
    pub timestamp: i64,
    pub multiplier: i64,
}

/// A transaction the house produced itself.
#[derive(Debug)]
pub struct OwnTransaction {
    pub id: i64,
    pub tx_id: String,
    pub transaction_type: String,
    pub created_at: i64,
}

/// Why the ledger refused a write.
#[derive(Debug, Clone, Copy, PartialEq, Eq, Structural)]
pub enum LedgerError {
    /// A row with the same transaction id is already there.
    Unique,
    /// The table cannot take another row.
    Write,
    /// A total over the rows does not fit the number it is reported in.
    Read,
}

/// Totals over all rounds; donations count towards none of them but the winners.
#[derive(Debug, Clone, Copy, PartialEq, Eq, Structural)]
pub struct DatabaseStats {
    pub total_games: i64,
    pub total_winners: i64,
    pub total_losers: i64,
    pub unpaid_winners: i64,
    pub total_bet_amount: i64,
    pub total_payout_amount: i64,
    pub total_house_profit: i64,
}

/// Totals over the rounds of one multiplier.
#[derive(Debug, Clone, Copy, PartialEq, Eq, Structural)]
pub struct MultiplierStats {
    pub multiplier: i64,
    pub total_games: i64,
    pub total_winners: i64,
    pub total_losers: i64,
    pub total_bet_amount: i64,
    pub total_payout_amount: i64,
}

/// A nonce row as a value.
pub struct NonceRow {
    pub id: i64,
    pub nonce: Seq<char>,
    pub nonce_hash: Seq<char>,
    pub created_at: i64,
    pub expires_at: i64,
}

/// A game row as a value.
pub struct GameRow {
    pub id: i64,
    pub nonce: Seq<char>,
    pub rolled_number: i64,
    pub input_tx_id: Seq<char>,
    pub output_tx_id: Option<Seq<char>>,
    pub bet_amount: i64,
    pub winning_amount: Option<i64>,
    pub player_address: Seq<char>,
    pub is_winner: bool,
    pub payment_successful: bool,
    pub timestamp: i64,
    pub multiplier: i64,
}

/// An own-transaction row as a value.
pub struct OwnRow {
    pub id: i64,
    pub tx_id: Seq<char>,
    pub transaction_type: Seq<char>,
    pub created_at: i64,
}

impl View for Nonce {
    type V = NonceRow;

    open spec fn view(&self) -> NonceRow {
        NonceRow {
            id: self.id,
            nonce: self.nonce@,
            nonce_hash: self.nonce_hash@,
            created_at: self.created_at,
            expires_at: self.expires_at,
        }
    }
}

/// The value of an optional text.
pub open spec fn text_of(text: Option<String>) -> Option<Seq<char>> {
    match text {
        Some(t) => Some(t@),
        None => None,
    }
}

impl View for GameResult {
    type V = GameRow;

    open spec fn view(&self) -> GameRow {
        GameRow {
            id: self.id,
            nonce: self.nonce@,
            rolled_number: self.rolled_number,
            input_tx_id: self.input_tx_id@,
            output_tx_id: text_of(self.output_tx_id),
            bet_amount: self.bet_amount,
            winning_amount: self.winning_amount,
            player_address: self.player_address@,
            is_winner: self.is_winner,
            payment_successful: self.payment_successful,
            timestamp: self.timestamp,
            multiplier: self.multiplier,
        }
    }
}

impl View for OwnTransaction {
    type V = OwnRow;

    open spec fn view(&self) -> OwnRow {
        OwnRow {
            id: self.id,
            tx_id: self.tx_id@,
            transaction_type: self.transaction_type@,
            created_at: self.created_at,
        }
    }
}

/// The rows that a list of stored nonces stands for.
pub open spec fn nonce_rows(stored: Seq<Nonce>) -> Seq<NonceRow> {
    Seq::new(stored.len(), |i: int| stored[i]@)
}

/// The rows that a list of stored rounds stands for.
pub open spec fn game_rows(stored: Seq<GameResult>) -> Seq<GameRow> {
    Seq::new(stored.len(), |i: int| stored[i]@)
}

/// The rows that a list of stored own transactions stands for.
pub open spec fn own_rows(stored: Seq<OwnTransaction>) -> Seq<OwnRow> {
    Seq::new(stored.len(), |i: int| stored[i]@)
}

/// Where a round created at `timestamp` is filed: behind every round that is
/// not younger, so that the rounds stay ordered by time and, at equal times,
/// by arrival.
pub open spec fn slot(games: Seq<GameRow>, timestamp: i64) -> int
    decreases games.len(),
{
    if games.len() == 0 || games.last().timestamp <= timestamp {
        games.len() as int
    } else {
        slot(games.drop_last(), timestamp)
    }
}

/// The whole content of a ledger.
pub struct LedgerState {
    /// Nonces, in order of arrival.
    pub nonces: Seq<NonceRow>,
    /// Rounds, oldest first.
    pub games: Seq<GameRow>,
    /// Own transactions, in order of arrival.
    pub own_transactions: Seq<OwnRow>,
}

impl LedgerState {
    /// Whether a round for the deposit `tx` is recorded.
    pub open spec fn has_game(self, tx: Seq<char>) -> bool {
        exists|i: int| 0 <= i < self.games.len() && #[trigger] self.games[i].input_tx_id == tx
    }

    /// Whether `tx` is recorded as a transaction of the house.
    pub open spec fn has_own(self, tx: Seq<char>) -> bool {
        exists|i: int|
            0 <= i < self.own_transactions.len() && #[trigger] self.own_transactions[i].tx_id == tx
    }

    /// What every ledger satisfies: no deposit and no own transaction occurs
    /// twice, ids are never reused, and rounds are ordered by time.
    pub open spec fn wf(self) -> bool {
        &&& self.games.len() <= i64::MAX
        &&& self.own_transactions.len() <= i64::MAX
        &&& self.nonces.len() <= i64::MAX
        &&& forall|i: int, j: int|
            #![trigger self.games[i], self.games[j]]
            0 <= i < j < self.games.len() ==> {
                &&& self.games[i].input_tx_id != self.games[j].input_tx_id
                &&& self.games[i].id != self.games[j].id
                &&& self.games[i].timestamp <= self.games[j].timestamp
            }
        &&& forall|i: int|
            0 <= i < self.games.len() ==> 1 <= (#[trigger] self.games[i]).id <= self.games.len()
        &&& forall|i: int, j: int|
            #![trigger self.own_transactions[i], self.own_transactions[j]]
            0 <= i < j < self.own_transactions.len() ==> self.own_transactions[i].tx_id
                != self.own_transactions[j].tx_id
        &&& forall|i: int|
            0 <= i < self.own_transactions.len() ==> (#[trigger] self.own_transactions[i]).id == i
                + 1
        &&& forall|i: int| 0 <= i < self.nonces.len() ==> (#[trigger] self.nonces[i]).id == i + 1
    }

    /// The ledger with one more round, filed by its time.
    pub open spec fn with_game(self, row: GameRow) -> LedgerState {
        LedgerState { games: self.games.insert(slot(self.games, row.timestamp), row), ..self }
    }

    /// The ledger with one more own transaction.
    pub open spec fn with_own(self, row: OwnRow) -> LedgerState {
        LedgerState { own_transactions: self.own_transactions.push(row), ..self }
    }

    /// The ledger with one more nonce.
    pub open spec fn with_nonce(self, row: NonceRow) -> LedgerState {
        LedgerState { nonces: self.nonces.push(row), ..self }
    }

    /// The ledger after the round with the id `id`, if there is one, has been
    /// marked as paid by the transaction `output`.
    pub open spec fn with_payment(self, id: i64, output: Seq<char>) -> LedgerState {
        LedgerState {
            games: Seq::new(
                self.games.len(),
                |i: int|
                    if self.games[i].id == id {
                        paid(self.games[i], output)
                    } else {
                        self.games[i]
                    },
            ),
            ..self
        }
    }

    /// Whether a nonce row for `nonce` is there that expires after `now`.
    pub open spec fn has_valid_nonce(self, nonce: Seq<char>, now: i64) -> bool {
        exists|i: int|
            0 <= i < self.nonces.len() && (#[trigger] self.nonces[i]).nonce == nonce
                && self.nonces[i].expires_at > now
    }

    /// Whether every payout that a round names is recorded as a transaction
    /// of the house.
    pub open spec fn payouts_noted(self) -> bool {
        forall|i: int| 0 <= i < self.games.len() ==> self.payout_noted(#[trigger] self.games[i])
    }

    /// Whether the payout that a round names, if it names one, is recorded
    /// as a transaction of the house.
    pub open spec fn payout_noted(self, row: GameRow) -> bool {
        match row.output_tx_id {
            Some(tx) => self.has_own(tx),
            None => true,
        }
    }

    /// The winners that still wait for their payout, oldest first.
    pub open spec fn unpaid_winners(self) -> Seq<GameRow> {
        self.games.filter(unpaid_since(None))
    }

    /// One page of the rounds, newest first. Pages count from one; a
    /// position before the first round counts as the first, and a negative
    /// page size sets no limit.
    pub open spec fn page(self, page: i64, page_size: i64) -> Seq<GameRow> {
        let first = page_start(self.games.len() as int, page, page_size);
        let end = page_end(self.games.len() as int, page, page_size);
        Seq::new((end - first) as nat, |i: int| self.games[self.games.len() - 1 - first - i])
    }
}

/// The position, counted from the newest round, at which a page starts.
pub open spec fn page_start(count: int, page: i64, page_size: i64) -> int {
    let offset = (page - 1) * page_size;
    if offset < 0 {
        0
    } else if offset > count {
        count
    } else {
        offset
    }
}

/// The position, counted from the newest round, before which a page ends.
pub open spec fn page_end(count: int, page: i64, page_size: i64) -> int {
    let first = page_start(count, page, page_size);
    if page_size < 0 || first + page_size > count {
        count
    } else {
        first + page_size
    }
}

/// Whether a row is a round that was played, not a donation.
pub open spec fn played(row: GameRow) -> bool {
    row.rolled_number != -1
}

/// How many of the rows satisfy `wanted`.
pub open spec fn count_of(rows: Seq<GameRow>, wanted: spec_fn(GameRow) -> bool) -> int
    decreases rows.len(),
{
    if rows.len() == 0 {
        0
    } else {
        count_of(rows.drop_last(), wanted) + if wanted(rows.last()) {
            1int
        } else {
            0int
        }
    }
}

/// The sum of `amount` over the rows that satisfy `wanted`.
pub open spec fn sum_of(
    rows: Seq<GameRow>,
    wanted: spec_fn(GameRow) -> bool,
    amount: spec_fn(GameRow) -> int,
) -> int
    decreases rows.len(),
{
    if rows.len() == 0 {
        0
    } else {
        sum_of(rows.drop_last(), wanted, amount) + if wanted(rows.last()) {
            amount(rows.last())
        } else {
            0int
        }
    }
}

/// What a row's player bet.
pub open spec fn bet_of() -> spec_fn(GameRow) -> int {
    |row: GameRow| row.bet_amount as int
}

/// What a row's player won, nothing where no winning amount is recorded.
pub open spec fn payout_of() -> spec_fn(GameRow) -> int {
    |row: GameRow|
        match row.winning_amount {
            Some(amount) => amount as int,
            None => 0int,
        }
}

/// Selects the rounds that were played.
pub open spec fn any_played() -> spec_fn(GameRow) -> bool {
    |row: GameRow| played(row)
}

/// Selects the winners.
pub open spec fn any_winner() -> spec_fn(GameRow) -> bool {
    |row: GameRow| row.is_winner
}

/// Selects the rounds that were played and lost.
pub open spec fn any_loser() -> spec_fn(GameRow) -> bool {
    |row: GameRow| !row.is_winner && played(row)
}

/// Selects the rounds that were played at a multiplier.
pub open spec fn played_at(multiplier: i64) -> spec_fn(GameRow) -> bool {
    |row: GameRow| played(row) && row.multiplier == multiplier
}

/// Selects the rounds that were played at a multiplier and won.
pub open spec fn won_at(multiplier: i64) -> spec_fn(GameRow) -> bool {
    |row: GameRow| played(row) && row.multiplier == multiplier && row.is_winner
}

/// Selects the rounds that were played at a multiplier and lost.
pub open spec fn lost_at(multiplier: i64) -> spec_fn(GameRow) -> bool {
    |row: GameRow| played(row) && row.multiplier == multiplier && !row.is_winner
}

/// Whether the totals of the rounds played at a multiplier fit the numbers
/// they are reported in.
pub open spec fn totals_fit(rows: Seq<GameRow>, multiplier: i64) -> bool {
    &&& i64::MIN <= sum_of(rows, played_at(multiplier), bet_of()) <= i64::MAX
    &&& i64::MIN <= sum_of(rows, played_at(multiplier), payout_of()) <= i64::MAX
}

/// Whether `stats` holds the totals of the rounds that were played at its
/// multiplier.
pub open spec fn totals_of(stats: MultiplierStats, rows: Seq<GameRow>) -> bool {
    &&& stats.total_games == count_of(rows, played_at(stats.multiplier))
    &&& stats.total_winners == count_of(rows, won_at(stats.multiplier))
    &&& stats.total_losers == count_of(rows, lost_at(stats.multiplier))
    &&& stats.total_bet_amount == sum_of(rows, played_at(stats.multiplier), bet_of())
    &&& stats.total_payout_amount == sum_of(rows, played_at(stats.multiplier), payout_of())
}

/// Whether `stats` are the totals by multiplier of `rows`: in ascending
/// order of the multipliers, one entry for every multiplier that a round was
/// played at, and each entry with the totals of its multiplier.
pub open spec fn summarizes(stats: Seq<MultiplierStats>, rows: Seq<GameRow>) -> bool {
    &&& forall|a: int, b: int|
        #![trigger stats[a], stats[b]]
        0 <= a < b < stats.len() ==> stats[a].multiplier < stats[b].multiplier
    &&& forall|k: int| 0 <= k < stats.len() ==> totals_of(#[trigger] stats[k], rows)
    &&& forall|k: int| 0 <= k < stats.len() ==> (#[trigger] stats[k]).total_games > 0
    &&& forall|j: int|
        0 <= j < rows.len() && played(#[trigger] rows[j]) ==> exists|k: int|
            0 <= k < stats.len() && (#[trigger] stats[k]).multiplier == rows[j].multiplier
}

/// A count is never negative and never above the number of rows.
pub proof fn lemma_count_bounds(rows: Seq<GameRow>, wanted: spec_fn(GameRow) -> bool)
    ensures
        0 <= count_of(rows, wanted) <= rows.len(),
    decreases rows.len(),
{
    if rows.len() > 0 {
        lemma_count_bounds(rows.drop_last(), wanted);
    }
}

/// The earliest time that lies within the last `hours` hours before `now`,
/// as far as a time can reach back.
pub open spec fn earliest_within(hours: u64, now: i64) -> Option<i64> {
    if now - hours * 3600 >= i64::MIN {
        Some((now - hours * 3600) as i64)
    } else {
        None
    }
}

/// A round after its payout: paid, by the transaction `output`.
pub open spec fn paid(row: GameRow, output: Seq<char>) -> GameRow {
    GameRow { payment_successful: true, output_tx_id: Some(output), ..row }
}

/// Selects the winners that wait for their payout and, with a bound, were
/// recorded at or after it.
pub open spec fn unpaid_since(earliest: Option<i64>) -> spec_fn(GameRow) -> bool {
    |row: GameRow|
        row.is_winner && !row.payment_successful && match earliest {
            Some(bound) => row.timestamp >= bound,
            None => true,
        }
}

/// Whether rows are ordered by time, oldest first.
pub open spec fn oldest_first(rows: Seq<GameRow>) -> bool {
    forall|i: int, j: int|
        #![trigger rows[i], rows[j]]
        0 <= i < j < rows.len() ==> rows[i].timestamp <= rows[j].timestamp
}

/// Whether rows are ordered by time, newest first.
pub open spec fn newest_first(rows: Seq<GameRow>) -> bool {
    forall|i: int, j: int|
        #![trigger rows[i], rows[j]]
        0 <= i < j < rows.len() ==> rows[i].timestamp >= rows[j].timestamp
}

/// A page of a well-formed ledger shows its rounds newest first.
pub proof fn lemma_page_newest_first(state: LedgerState, page: i64, page_size: i64)
    requires
        state.wf(),
    ensures
        newest_first(state.page(page, page_size)),
{
    let shown = state.page(page, page_size);
    let first = page_start(state.games.len() as int, page, page_size);
    assert forall|i: int, j: int|
        #![trigger shown[i], shown[j]]
        0 <= i < j < shown.len() implies shown[i].timestamp >= shown[j].timestamp by {
        let a = state.games.len() - 1 - first - j;
        let b = state.games.len() - 1 - first - i;
        assert(shown[j] == state.games[a]);
        assert(shown[i] == state.games[b]);
        assert(state.games[a].timestamp <= state.games[b].timestamp);
    }
}

/// A slot lies within the rounds, everything before it is not younger and
/// everything from it on is younger.
pub proof fn lemma_slot(games: Seq<GameRow>, timestamp: i64)
    ensures
        0 <= slot(games, timestamp) <= games.len(),
        forall|i: int|
            slot(games, timestamp) <= i < games.len() ==> (#[trigger] games[i]).timestamp
                > timestamp,
        slot(games, timestamp) > 0 ==> games[slot(games, timestamp) - 1].timestamp <= timestamp,
    decreases games.len(),
{
    if !(games.len() == 0 || games.last().timestamp <= timestamp) {
        let front = games.drop_last();
        lemma_slot(front, timestamp);
        assert forall|i: int| slot(games, timestamp) <= i < games.len() implies (
        #[trigger] games[i]).timestamp > timestamp by {
            if i < front.len() {
                assert(front[i] == games[i]);
            }
        }
        if slot(games, timestamp) > 0 {
            assert(front[slot(games, timestamp) - 1] == games[slot(games, timestamp) - 1]);
        }
    }
}

/// Selects the rounds for the deposit `tx`.
pub open spec fn for_deposit(tx: Seq<char>) -> spec_fn(GameRow) -> bool {
    |row: GameRow| row.input_tx_id == tx
}

/// Where some rows are counted, one of them can be named.
pub proof fn lemma_counted_row(rows: Seq<GameRow>, wanted: spec_fn(GameRow) -> bool) -> (i: int)
    requires
        count_of(rows, wanted) > 0,
    ensures
        0 <= i < rows.len(),
        wanted(rows[i]),
    decreases rows.len(),
{
    if wanted(rows.last()) {
        rows.len() - 1
    } else {
        let i = lemma_counted_row(rows.drop_last(), wanted);
        assert(rows.drop_last()[i] == rows[i]);
        i
    }
}

/// Among rows no two of which are for the same deposit, at most one is for
/// any given deposit.
pub proof fn lemma_at_most_one(rows: Seq<GameRow>, tx: Seq<char>)
    requires
        forall|i: int, j: int|
            #![trigger rows[i], rows[j]]
            0 <= i < j < rows.len() ==> rows[i].input_tx_id != rows[j].input_tx_id,
    ensures
        count_of(rows, for_deposit(tx)) <= 1,
    decreases rows.len(),
{
    if rows.len() > 0 {
        let front = rows.drop_last();
        assert forall|i: int, j: int|
            #![trigger front[i], front[j]]
            0 <= i < j < front.len() implies front[i].input_tx_id != front[j].input_tx_id by {
            assert(front[i] == rows[i]);
            assert(front[j] == rows[j]);
        }
        lemma_at_most_one(front, tx);
        if for_deposit(tx)(rows.last()) && count_of(front, for_deposit(tx)) > 0 {
            let i = lemma_counted_row(front, for_deposit(tx));
            assert(front[i] == rows[i]);
            assert(rows[i].input_tx_id != rows[rows.len() - 1].input_tx_id);
        }
    }
}

/// Exactly once: a well-formed ledger holds at most one round for any deposit.
pub proof fn lemma_exactly_once(state: LedgerState, tx: Seq<char>)
    requires
        state.wf(),
    ensures
        count_of(state.games, for_deposit(tx)) <= 1,
{
    lemma_at_most_one(state.games, tx);
}

/// Whether a payout is recorded depends on the recorded transactions alone.
pub proof fn lemma_same_own(before: LedgerState, after: LedgerState, row: GameRow)
    requires
        before.own_transactions == after.own_transactions,
    ensures
        before.payout_noted(row) == after.payout_noted(row),
{
    if let Some(tx) = row.output_tx_id {
        if before.has_own(tx) {
            let j = choose|j: int|
                0 <= j < before.own_transactions.len() && #[trigger] before.own_transactions[j].tx_id
                    == tx;
            assert(after.own_transactions[j].tx_id == tx);
        }
        if after.has_own(tx) {
            let j = choose|j: int|
                0 <= j < after.own_transactions.len() && #[trigger] after.own_transactions[j].tx_id
                    == tx;
            assert(before.own_transactions[j].tx_id == tx);
        }
    }
}

/// A round that names no payout, or one that is recorded as the house's own,
/// can be filed without any payout going unrecorded.
pub proof fn lemma_with_game_payouts_noted(state: LedgerState, row: GameRow)
    requires
        state.payouts_noted(),
        state.payout_noted(row),
    ensures
        state.with_game(row).payouts_noted(),
{
    let k = slot(state.games, row.timestamp);
    lemma_slot(state.games, row.timestamp);
    let after = state.with_game(row);
    assert forall|i: int| 0 <= i < after.games.len() implies after.payout_noted(
        #[trigger] after.games[i],
    ) by {
        if i != k {
            let a = if i < k {
                i
            } else {
                i - 1
            };
            assert(after.games[i] == state.games[a]);
            assert(state.payout_noted(state.games[a]));
        } else {
            assert(after.games[i] == row);
        }
        lemma_same_own(state, after, after.games[i]);
    }
}

/// Recording one more transaction of the house leaves no payout unrecorded.
pub proof fn lemma_with_own_payouts_noted(state: LedgerState, row: OwnRow)
    requires
        state.payouts_noted(),
    ensures
        state.with_own(row).payouts_noted(),
        state.with_own(row).has_own(row.tx_id),
{
    let after = state.with_own(row);
    assert(after.own_transactions[state.own_transactions.len() as int].tx_id == row.tx_id);
    assert forall|i: int| 0 <= i < after.games.len() implies after.payout_noted(
        #[trigger] after.games[i],
    ) by {
        assert(state.payout_noted(state.games[i]));
        if let Some(tx) = after.games[i].output_tx_id {
            let j = choose|j: int|
                0 <= j < state.own_transactions.len() && #[trigger] state.own_transactions[j].tx_id
                    == tx;
            assert(after.own_transactions[j].tx_id == tx);
        }
    }
}

/// Marking a round as paid by a transaction that is recorded as the house's
/// own leaves no payout unrecorded.
pub proof fn lemma_with_payment_payouts_noted(state: LedgerState, id: i64, output: Seq<char>)
    requires
        state.payouts_noted(),
        state.has_own(output),
    ensures
        state.with_payment(id, output).payouts_noted(),
{
    let after = state.with_payment(id, output);
    assert forall|i: int| 0 <= i < after.games.len() implies after.payout_noted(
        #[trigger] after.games[i],
    ) by {
        assert(state.payout_noted(state.games[i]));
        lemma_same_own(state, after, state.games[i]);
        lemma_same_own(state, after, paid(state.games[i], output));
    }
}

/// The one position with nothing younger before it and only younger rounds
/// from it on is the slot.
pub proof fn lemma_slot_found(games: Seq<GameRow>, timestamp: i64, k: int)
    requires
        0 <= k <= games.len(),
        forall|i: int| k <= i < games.len() ==> (#[trigger] games[i]).timestamp > timestamp,
        k > 0 ==> games[k - 1].timestamp <= timestamp,
    ensures
        slot(games, timestamp) == k,
    decreases games.len(),
{
    if k < games.len() {
        let front = games.drop_last();
        assert(games.last() == games[games.len() - 1]);
        assert forall|i: int| k <= i < front.len() implies (#[trigger] front[i]).timestamp
            > timestamp by {
            assert(front[i] == games[i]);
        }
        if k > 0 {
            assert(front[k - 1] == games[k - 1]);
        }
        lemma_slot_found(front, timestamp, k);
    }
}

/// Marking a round as paid keeps the ledger well formed and neither adds nor
/// removes a deposit.
pub proof fn lemma_with_payment_wf(state: LedgerState, id: i64, output: Seq<char>)
    requires
        state.wf(),
    ensures
        state.with_payment(id, output).wf(),
        forall|tx: Seq<char>| state.with_payment(id, output).has_game(tx) == state.has_game(tx),
{
    let after = state.with_payment(id, output);
    assert forall|tx: Seq<char>| after.has_game(tx) == state.has_game(tx) by {
        if state.has_game(tx) {
            let i = choose|i: int|
                0 <= i < state.games.len() && #[trigger] state.games[i].input_tx_id == tx;
            assert(after.games[i].input_tx_id == tx);
        }
        if after.has_game(tx) {
            let i = choose|i: int|
                0 <= i < after.games.len() && #[trigger] after.games[i].input_tx_id == tx;
            assert(state.games[i].input_tx_id == tx);
        }
    }
    assert forall|i: int, j: int|
        #![trigger after.games[i], after.games[j]]
        0 <= i < j < after.games.len() implies {
        &&& after.games[i].input_tx_id != after.games[j].input_tx_id
        &&& after.games[i].id != after.games[j].id
        &&& after.games[i].timestamp <= after.games[j].timestamp
    } by {
        assert(after.games[i].id == state.games[i].id);
        assert(after.games[j].id == state.games[j].id);
    }
    assert forall|i: int| 0 <= i < after.games.len() implies 1 <= (#[trigger] after.games[i]).id
        <= after.games.len() by {
        assert(after.games[i].id == state.games[i].id);
    }
}

/// Filing a round for a deposit that is not yet recorded, under the next free
/// id, keeps the ledger well formed.
pub proof fn lemma_with_game_wf(state: LedgerState, row: GameRow)
    requires
        state.wf(),
        !state.has_game(row.input_tx_id),
        row.id == state.games.len() + 1,
        state.games.len() < i64::MAX,
    ensures
        state.with_game(row).wf(),
        state.with_game(row).has_game(row.input_tx_id),
{
    let k = slot(state.games, row.timestamp);
    lemma_slot(state.games, row.timestamp);
    let after = state.with_game(row);
    assert(after.games[k] == row);
    assert forall|i: int, j: int|
        #![trigger after.games[i], after.games[j]]
        0 <= i < j < after.games.len() implies {
        &&& after.games[i].input_tx_id != after.games[j].input_tx_id
        &&& after.games[i].id != after.games[j].id
        &&& after.games[i].timestamp <= after.games[j].timestamp
    } by {
        let a = if i < k { i } else { i - 1 };
        let b = if j < k { j } else { j - 1 };
        if i != k && j != k {
            assert(after.games[i] == state.games[a]);
            assert(after.games[j] == state.games[b]);
        } else if i == k {
            assert(after.games[j] == state.games[b]);
        } else {
            assert(after.games[i] == state.games[a]);
            if k > 0 {
                assert(state.games[a].timestamp <= state.games[k - 1].timestamp);
            }
        }
    }
    assert forall|i: int| 0 <= i < after.games.len() implies 1 <= (#[trigger] after.games[i]).id
        <= after.games.len() by {
        if i != k {
            let a = if i < k { i } else { i - 1 };
            assert(after.games[i] == state.games[a]);
        }
    }
}

/// The ledger itself.
pub struct Ledger {
    nonces: Vec<Nonce>,
    games: Vec<GameResult>,
    own_transactions: Vec<OwnTransaction>,
}

impl View for Ledger {
    type V = LedgerState;

    closed spec fn view(&self) -> LedgerState {
        LedgerState {
            nonces: nonce_rows(self.nonces@),
            games: game_rows(self.games@),
            own_transactions: own_rows(self.own_transactions@),
        }
    }
}

impl Ledger {
    /// An empty ledger.
    pub fn new() -> (ledger: Ledger)
        ensures
            ledger@.wf(),
            ledger@.nonces.len() == 0,
            ledger@.games.len() == 0,
            ledger@.own_transactions.len() == 0,
    {
        Ledger { nonces: Vec::new(), games: Vec::new(), own_transactions: Vec::new() }
    }
}

/// Whether a round for the deposit `input_tx_id` is recorded.
pub fn is_transaction_processed(ledger: &Ledger, input_tx_id: &str) -> (processed: bool)
    ensures
        processed == ledger@.has_game(input_tx_id@),
{
    let mut i: usize = 0;
    while i < ledger.games.len()
        invariant
            i <= ledger.games@.len(),
            forall|j: int| 0 <= j < i ==> (#[trigger] ledger@.games[j]).input_tx_id != input_tx_id@,
        decreases ledger.games.len() - i,
    {
        if same_text(ledger.games[i].input_tx_id.as_str(), input_tx_id) {
            assert(ledger@.games[i as int].input_tx_id == input_tx_id@);
            return true;
        }
        i += 1;
    }
    false
}

/// The round that is recorded for the deposit `input_tx_id`, if one is.
pub fn get_game_result(ledger: &Ledger, input_tx_id: &str) -> (found: Option<GameResult>)
    ensures
        match found {
            Some(row) => exists|i: int|
                0 <= i < ledger@.games.len() && #[trigger] ledger@.games[i] == row@
                    && row@.input_tx_id == input_tx_id@,
            None => !ledger@.has_game(input_tx_id@),
        },
{
    let mut i: usize = 0;
    while i < ledger.games.len()
        invariant
            i <= ledger.games@.len(),
            forall|j: int| 0 <= j < i ==> (#[trigger] ledger@.games[j]).input_tx_id != input_tx_id@,
        decreases ledger.games.len() - i,
    {
        if same_text(ledger.games[i].input_tx_id.as_str(), input_tx_id) {
            let row = copy_game(&ledger.games[i]);
            assert(ledger@.games[i as int] == row@);
            return Some(row);
        }
        i += 1;
    }
    None
}

/// Whether `tx_id` is recorded as a transaction of the house.
pub fn is_own_transaction(ledger: &Ledger, tx_id: &str) -> (own: bool)
    ensures
        own == ledger@.has_own(tx_id@),
{
    let mut i: usize = 0;
    while i < ledger.own_transactions.len()
        invariant
            i <= ledger.own_transactions@.len(),
            forall|j: int| 0 <= j < i ==> (#[trigger] ledger@.own_transactions[j]).tx_id != tx_id@,
        decreases ledger.own_transactions.len() - i,
    {
        if same_text(ledger.own_transactions[i].tx_id.as_str(), tx_id) {
            assert(ledger@.own_transactions[i as int].tx_id == tx_id@);
            return true;
        }
        i += 1;
    }
    false
}

/// The row under which `tx_id` is recorded as a transaction of the house, if it is.
pub fn get_own_transaction(ledger: &Ledger, tx_id: &str) -> (found: Option<OwnTransaction>)
    ensures
        match found {
            Some(row) => exists|i: int|
                0 <= i < ledger@.own_transactions.len() && #[trigger] ledger@.own_transactions[i]
                    == row@ && row@.tx_id == tx_id@,
            None => !ledger@.has_own(tx_id@),
        },
{
    let mut i: usize = 0;
    while i < ledger.own_transactions.len()
        invariant
            i <= ledger.own_transactions@.len(),
            forall|j: int| 0 <= j < i ==> (#[trigger] ledger@.own_transactions[j]).tx_id != tx_id@,
        decreases ledger.own_transactions.len() - i,
    {
        let stored = &ledger.own_transactions[i];
        if same_text(stored.tx_id.as_str(), tx_id) {
            let row = OwnTransaction {
                id: stored.id,
                tx_id: stored.tx_id.clone(),
                transaction_type: stored.transaction_type.clone(),
                created_at: stored.created_at,
            };
            assert(ledger@.own_transactions[i as int] == row@);
            return Some(row);
        }
        i += 1;
    }
    None
}

/// Records a transaction of the house. A transaction that is already recorded
/// is refused and the ledger stays as it was.
pub fn insert_own_transaction(ledger: &mut Ledger, tx_id: &str, transaction_type: &str, now: i64)
    -> (result: Result<i64, LedgerError>)
    requires
        old(ledger)@.wf(),
    ensures
        final(ledger)@.wf(),
        match result {
            Ok(id) => {
                &&& !old(ledger)@.has_own(tx_id@)
                &&& id == old(ledger)@.own_transactions.len() + 1
                &&& final(ledger)@ == old(ledger)@.with_own(
                    OwnRow {
                        id,
                        tx_id: tx_id@,
                        transaction_type: transaction_type@,
                        created_at: now,
                    },
                )
            },
            Err(LedgerError::Unique) => old(ledger)@.has_own(tx_id@) && final(ledger)@ == old(
                ledger,
            )@,
            Err(LedgerError::Write) => {
                &&& !old(ledger)@.has_own(tx_id@)
                &&& old(ledger)@.own_transactions.len() == i64::MAX
                &&& final(ledger)@ == old(ledger)@
            },
            Err(LedgerError::Read) => false,
        },
{
    if is_own_transaction(ledger, tx_id) {
        return Err(LedgerError::Unique);
    }
    let count: usize = ledger.own_transactions.len();
    if count as u64 >= i64::MAX as u64 {
        return Err(LedgerError::Write);
    }
    let id: i64 = count as i64 + 1;
    let row = OwnTransaction {
        id,
        tx_id: tx_id.to_owned(),
        transaction_type: transaction_type.to_owned(),
        created_at: now,
    };
    ledger.own_transactions.push(row);
    proof {
        let expected = old(ledger)@.with_own(
            OwnRow { id, tx_id: tx_id@, transaction_type: transaction_type@, created_at: now },
        );
        assert(ledger@.own_transactions =~= expected.own_transactions);
        assert(ledger@.games =~= expected.games);
        assert(ledger@.nonces =~= expected.nonces);
    }
    Ok(id)
}

fn copy_text(text: &Option<String>) -> (copy: Option<String>)
    ensures
        text_of(copy) == text_of(*text),
{
    match text {
        Some(t) => Some(t.clone()),
        None => None,
    }
}

fn copy_game(row: &GameResult) -> (copy: GameResult)
    ensures
        copy@ == row@,
{
    GameResult {
        id: row.id,
        nonce: row.nonce.clone(),
        rolled_number: row.rolled_number,
        input_tx_id: row.input_tx_id.clone(),
        output_tx_id: copy_text(&row.output_tx_id),
        bet_amount: row.bet_amount,
        winning_amount: row.winning_amount,
        player_address: row.player_address.clone(),
        is_winner: row.is_winner,
        payment_successful: row.payment_successful,
        timestamp: row.timestamp,
        multiplier: row.multiplier,
    }
}

/// Records a round. A deposit that already has a round is refused and the
/// ledger stays as it was.
pub fn insert_game_result(
    ledger: &mut Ledger,
    nonce: &str,
    rolled_number: i64,
    input_tx_id: &str,
    output_tx_id: Option<&str>,
    bet_amount: i64,
    winning_amount: Option<i64>,
    player_address: &str,
    is_winner: bool,
    payment_successful: bool,
    multiplier: i64,
    now: i64,
) -> (result: Result<i64, LedgerError>)
    requires
        old(ledger)@.wf(),
    ensures
        final(ledger)@.wf(),
        match result {
            Ok(id) => {
                &&& !old(ledger)@.has_game(input_tx_id@)
                &&& id == old(ledger)@.games.len() + 1
                &&& final(ledger)@ == old(ledger)@.with_game(
                    GameRow {
                        id,
                        nonce: nonce@,
                        rolled_number,
                        input_tx_id: input_tx_id@,
                        output_tx_id: match output_tx_id {
                            Some(tx) => Some(tx@),
                            None => None,
                        },
                        bet_amount,
                        winning_amount,
                        player_address: player_address@,
                        is_winner,
                        payment_successful,
                        timestamp: now,
                        multiplier,
                    },
                )
                &&& final(ledger)@.has_game(input_tx_id@)
            },
            Err(LedgerError::Unique) => old(ledger)@.has_game(input_tx_id@) && final(ledger)@
                == old(ledger)@,
            Err(LedgerError::Write) => {
                &&& !old(ledger)@.has_game(input_tx_id@)
                &&& old(ledger)@.games.len() == i64::MAX
                &&& final(ledger)@ == old(ledger)@
            },
            Err(LedgerError::Read) => false,
        },
{
    if is_transaction_processed(ledger, input_tx_id) {
        return Err(LedgerError::Unique);
    }
    let count: usize = ledger.games.len();
    if count as u64 >= i64::MAX as u64 {
        return Err(LedgerError::Write);
    }
    let id: i64 = count as i64 + 1;
    let row = GameResult {
        id,
        nonce: nonce.to_owned(),
        rolled_number,
        input_tx_id: input_tx_id.to_owned(),
        output_tx_id: match output_tx_id {
            Some(tx) => Some(tx.to_owned()),
            None => None,
        },
        bet_amount,
        winning_amount,
        player_address: player_address.to_owned(),
        is_winner,
        payment_successful,
        timestamp: now,
        multiplier,
    };
    let mut k: usize = count;
    while k > 0 && ledger.games[k - 1].timestamp > now
        invariant
            k <= count,
            count == ledger.games@.len(),
            *ledger == *old(ledger),
            forall|i: int| k <= i < count ==> (#[trigger] ledger@.games[i]).timestamp > now,
        decreases k,
    {
        k -= 1;
    }
    proof {
        lemma_slot_found(ledger@.games, now, k as int);
        lemma_with_game_wf(ledger@, row@);
    }
    ledger.games.insert(k, row);
    proof {
        let expected = old(ledger)@.with_game(row@);
        assert(ledger@.games =~= expected.games);
        assert(ledger@.own_transactions =~= expected.own_transactions);
        assert(ledger@.nonces =~= expected.nonces);
    }
    Ok(id)
}

/// Records a nonce with its commitment and its expiry.
pub fn insert_nonce(ledger: &mut Ledger, nonce: &str, nonce_hash: &str, expires_at: i64, now: i64)
    -> (result: Result<i64, LedgerError>)
    requires
        old(ledger)@.wf(),
    ensures
        final(ledger)@.wf(),
        match result {
            Ok(id) => {
                &&& id == old(ledger)@.nonces.len() + 1
                &&& final(ledger)@ == old(ledger)@.with_nonce(
                    NonceRow {
                        id,
                        nonce: nonce@,
                        nonce_hash: nonce_hash@,
                        created_at: now,
                        expires_at,
                    },
                )
            },
            Err(error) => {
                &&& error == LedgerError::Write
                &&& old(ledger)@.nonces.len() == i64::MAX
                &&& final(ledger)@ == old(ledger)@
            },
        },
{
    let count: usize = ledger.nonces.len();
    if count as u64 >= i64::MAX as u64 {
        return Err(LedgerError::Write);
    }
    let id: i64 = count as i64 + 1;
    let row = Nonce {
        id,
        nonce: nonce.to_owned(),
        nonce_hash: nonce_hash.to_owned(),
        created_at: now,
        expires_at,
    };
    ledger.nonces.push(row);
    proof {
        let expected = old(ledger)@.with_nonce(row@);
        assert(ledger@.nonces =~= expected.nonces);
        assert(ledger@.games =~= expected.games);
        assert(ledger@.own_transactions =~= expected.own_transactions);
    }
    Ok(id)
}

/// The first row stored for `nonce`, if there is one.
pub fn get_nonce(ledger: &Ledger, nonce: &str) -> (found: Option<Nonce>)
    ensures
        match found {
            Some(row) => exists|i: int|
                {
                    &&& 0 <= i < ledger@.nonces.len()
                    &&& #[trigger] ledger@.nonces[i] == row@
                    &&& row@.nonce == nonce@
                    &&& forall|j: int| 0 <= j < i ==> (#[trigger] ledger@.nonces[j]).nonce != nonce@
                },
            None => forall|i: int|
                0 <= i < ledger@.nonces.len() ==> (#[trigger] ledger@.nonces[i]).nonce != nonce@,
        },
{
    let mut i: usize = 0;
    while i < ledger.nonces.len()
        invariant
            i <= ledger.nonces@.len(),
            forall|j: int| 0 <= j < i ==> (#[trigger] ledger@.nonces[j]).nonce != nonce@,
        decreases ledger.nonces.len() - i,
    {
        let stored = &ledger.nonces[i];
        if same_text(stored.nonce.as_str(), nonce) {
            let row = Nonce {
                id: stored.id,
                nonce: stored.nonce.clone(),
                nonce_hash: stored.nonce_hash.clone(),
                created_at: stored.created_at,
                expires_at: stored.expires_at,
            };
            assert(ledger@.nonces[i as int] == row@);
            return Some(row);
        }
        i += 1;
    }
    None
}

/// Whether `nonce` is stored with an expiry after `now`.
pub fn is_nonce_valid(ledger: &Ledger, nonce: &str, now: i64) -> (valid: bool)
    ensures
        valid == ledger@.has_valid_nonce(nonce@, now),
{
    let mut i: usize = 0;
    while i < ledger.nonces.len()
        invariant
            i <= ledger.nonces@.len(),
            forall|j: int|
                0 <= j < i ==> !((#[trigger] ledger@.nonces[j]).nonce == nonce@
                    && ledger@.nonces[j].expires_at > now),
        decreases ledger.nonces.len() - i,
    {
        let stored = &ledger.nonces[i];
        if stored.expires_at > now && same_text(stored.nonce.as_str(), nonce) {
            assert(ledger@.nonces[i as int].nonce == nonce@);
            return true;
        }
        i += 1;
    }
    false
}

/// Marks the round with the id `game_id` as paid by `output_tx_id`. Without
/// such a round the ledger stays as it was.
pub fn mark_payment_successful(ledger: &mut Ledger, game_id: i64, output_tx_id: &str) -> (result:
    Result<(), LedgerError>)
    requires
        old(ledger)@.wf(),
    ensures
        final(ledger)@.wf(),
        result.is_ok(),
        final(ledger)@ == old(ledger)@.with_payment(game_id, output_tx_id@),
{
    let mut i: usize = 0;
    while i < ledger.games.len()
        invariant
            i <= ledger.games@.len(),
            *ledger == *old(ledger),
            ledger@.wf(),
            forall|j: int| 0 <= j < i ==> (#[trigger] ledger@.games[j]).id != game_id,
        decreases ledger.games.len() - i,
    {
        if ledger.games[i].id == game_id {
            let stored = ledger.games.remove(i);
            let row = GameResult {
                id: stored.id,
                nonce: stored.nonce,
                rolled_number: stored.rolled_number,
                input_tx_id: stored.input_tx_id,
                output_tx_id: Some(output_tx_id.to_owned()),
                bet_amount: stored.bet_amount,
                winning_amount: stored.winning_amount,
                player_address: stored.player_address,
                is_winner: stored.is_winner,
                payment_successful: true,
                timestamp: stored.timestamp,
                multiplier: stored.multiplier,
            };
            ledger.games.insert(i, row);
            proof {
                let before = old(ledger)@;
                let expected = before.with_payment(game_id, output_tx_id@);
                assert(row@ == paid(before.games[i as int], output_tx_id@));
                assert forall|j: int| 0 <= j < expected.games.len() implies ledger@.games[j]
                    == expected.games[j] by {
                    if j != i {
                        assert(before.games[j].id != game_id) by {
                            if j > i {
                                assert(before.games[i as int].id != before.games[j].id);
                            }
                        }
                    }
                }
                assert(ledger@.games =~= expected.games);
                assert(ledger@.own_transactions =~= expected.own_transactions);
                assert(ledger@.nonces =~= expected.nonces);
                lemma_with_payment_wf(before, game_id, output_tx_id@);
            }
            return Ok(());
        }
        i += 1;
    }
    proof {
        let expected = old(ledger)@.with_payment(game_id, output_tx_id@);
        assert(ledger@.games =~= expected.games);
        lemma_with_payment_wf(old(ledger)@, game_id, output_tx_id@);
    }
    Ok(())
}

fn select_unpaid(ledger: &Ledger, earliest: Option<i64>) -> (winners: Vec<GameResult>)
    requires
        ledger@.wf(),
    ensures
        game_rows(winners@) == ledger@.games.filter(unpaid_since(earliest)),
        oldest_first(game_rows(winners@)),
{
    let mut winners: Vec<GameResult> = Vec::new();
    let mut i: usize = 0;
    proof {
        reveal(Seq::filter);
        assert(ledger@.games.take(0).filter(unpaid_since(earliest)) =~= game_rows(winners@));
    }
    while i < ledger.games.len()
        invariant
            i <= ledger.games@.len(),
            ledger@.wf(),
            game_rows(winners@) == ledger@.games.take(i as int).filter(unpaid_since(earliest)),
            oldest_first(game_rows(winners@)),
            forall|j: int|
                0 <= j < winners@.len() ==> exists|k: int|
                    0 <= k < i && ledger@.games[k] == #[trigger] game_rows(winners@)[j],
        decreases ledger.games.len() - i,
    {
        let row = &ledger.games[i];
        let recent = match earliest {
            Some(bound) => row.timestamp >= bound,
            None => true,
        };
        let ghost before = game_rows(winners@);
        proof {
            reveal(Seq::filter);
            let upto = ledger@.games.take(i + 1);
            assert(upto.drop_last() =~= ledger@.games.take(i as int));
            assert(upto.last() == row@);
        }
        if row.is_winner && !row.payment_successful && recent {
            winners.push(copy_game(row));
            proof {
                let after = game_rows(winners@);
                assert(after =~= before.push(row@));
                assert forall|a: int, b: int|
                    #![trigger after[a], after[b]]
                    0 <= a < b < after.len() implies after[a].timestamp <= after[b].timestamp by {
                    if b == after.len() - 1 {
                        let k = choose|k: int| 0 <= k < i && ledger@.games[k] == before[a];
                        assert(ledger@.games[k].timestamp <= ledger@.games[i as int].timestamp);
                    } else {
                        assert(after[a] == before[a]);
                        assert(after[b] == before[b]);
                    }
                }
                assert forall|j: int| 0 <= j < winners@.len() implies exists|k: int|
                    0 <= k < i + 1 && ledger@.games[k] == #[trigger] after[j] by {
                    if j == after.len() - 1 {
                        assert(ledger@.games[i as int] == after[j]);
                    } else {
                        let k = choose|k: int| 0 <= k < i && ledger@.games[k] == before[j];
                        assert(ledger@.games[k] == after[j]);
                    }
                }
            }
        } else {
            proof {
                assert forall|j: int| 0 <= j < winners@.len() implies exists|k: int|
                    0 <= k < i + 1 && ledger@.games[k] == #[trigger] before[j] by {
                    let k = choose|k: int| 0 <= k < i && ledger@.games[k] == before[j];
                    assert(ledger@.games[k] == before[j]);
                }
            }
        }
        i += 1;
    }
    assert(ledger@.games.take(i as int) =~= ledger@.games);
    winners
}

/// The winners that still wait for their payout, oldest first.
pub fn get_unpaid_winners(ledger: &Ledger) -> (winners: Vec<GameResult>)
    requires
        ledger@.wf(),
    ensures
        game_rows(winners@) == ledger@.unpaid_winners(),
        oldest_first(game_rows(winners@)),
{
    select_unpaid(ledger, None)
}

/// The winners that wait for their payout and were recorded within the last
/// `hours` hours before `now`, oldest first.
pub fn get_unpaid_winners_within_hours(ledger: &Ledger, hours: u64, now: i64) -> (winners: Vec<
    GameResult,
>)
    requires
        ledger@.wf(),
    ensures
        game_rows(winners@) == ledger@.games.filter(unpaid_since(earliest_within(hours, now))),
        oldest_first(game_rows(winners@)),
{
    let reach: i128 = now as i128 - hours as i128 * 3600;
    let earliest: Option<i64> = if reach >= i64::MIN as i128 {
        Some(reach as i64)
    } else {
        None
    };
    select_unpaid(ledger, earliest)
}

/// One page of the rounds, newest first.
pub fn get_game_results_paginated(ledger: &Ledger, page: i64, page_size: i64) -> (results: Vec<
    GameResult,
>)
    requires
        ledger@.wf(),
    ensures
        game_rows(results@) == ledger@.page(page, page_size),
        newest_first(game_rows(results@)),
{
    proof {
        lemma_page_newest_first(ledger@, page, page_size);
    }
    let count: usize = ledger.games.len();
    assert((page - 1) * page_size <= 0x8000_0000_0000_0001 * 0x8000_0000_0000_0000 && (page - 1)
        * page_size >= -0x8000_0000_0000_0001 * 0x8000_0000_0000_0000) by (nonlinear_arith)
        requires
            -0x8000_0000_0000_0001 <= page - 1 <= 0x8000_0000_0000_0001,
            -0x8000_0000_0000_0000 <= page_size <= 0x8000_0000_0000_0000,
    ;
    let offset: i128 = (page as i128 - 1) * page_size as i128;
    let first: usize = if offset < 0 {
        0
    } else if offset > count as i128 {
        count
    } else {
        offset as usize
    };
    let end: usize = if page_size < 0 || first as i128 + page_size as i128 > count as i128 {
        count
    } else {
        first + page_size as usize
    };
    let mut results: Vec<GameResult> = Vec::new();
    let mut k: usize = first;
    while k < end
        invariant
            first <= k <= end <= count,
            count == ledger.games@.len(),
            results@.len() == k - first,
            forall|i: int|
                0 <= i < k - first ==> (#[trigger] game_rows(results@)[i]) == ledger@.games[count
                    - 1 - first - i],
        decreases end - k,
    {
        let ghost before = game_rows(results@);
        results.push(copy_game(&ledger.games[count - 1 - k]));
        proof {
            let after = game_rows(results@);
            assert forall|i: int| 0 <= i < k + 1 - first implies (#[trigger] after[i])
                == ledger@.games[count - 1 - first - i] by {
                if i < k - first {
                    assert(after[i] == before[i]);
                }
            }
        }
        k += 1;
    }
    assert(game_rows(results@) =~= ledger@.page(page, page_size));
    results
}

/// Totals over the whole ledger. Fails where the bets, the payouts or their
/// difference do not fit a signed 64-bit number.
pub fn get_database_stats(ledger: &Ledger) -> (result: Result<DatabaseStats, LedgerError>)
    requires
        ledger@.wf(),
    ensures
        ({
            let rows = ledger@.games;
            let bets = sum_of(rows, any_played(), bet_of());
            let payouts = sum_of(rows, any_played(), payout_of());
            let fits = i64::MIN <= bets <= i64::MAX && i64::MIN <= payouts <= i64::MAX && i64::MIN
                <= bets - payouts <= i64::MAX;
            match result {
                Ok(stats) => {
                    &&& fits
                    &&& stats.total_games == count_of(rows, any_played())
                    &&& stats.total_winners == count_of(rows, any_winner())
                    &&& stats.total_losers == count_of(rows, any_loser())
                    &&& stats.unpaid_winners == count_of(rows, unpaid_since(None))
                    &&& stats.total_bet_amount == bets
                    &&& stats.total_payout_amount == payouts
                    &&& stats.total_house_profit == bets - payouts
                },
                Err(error) => error == LedgerError::Read && !fits,
            }
        }),
{
    let mut total_games: i64 = 0;
    let mut total_winners: i64 = 0;
    let mut total_losers: i64 = 0;
    let mut unpaid_winners: i64 = 0;
    let mut bets: i128 = 0;
    let mut payouts: i128 = 0;
    let mut i: usize = 0;
    while i < ledger.games.len()
        invariant
            i <= ledger.games@.len(),
            ledger@.wf(),
            total_games == count_of(ledger@.games.take(i as int), any_played()),
            total_winners == count_of(ledger@.games.take(i as int), any_winner()),
            total_losers == count_of(ledger@.games.take(i as int), any_loser()),
            unpaid_winners == count_of(ledger@.games.take(i as int), unpaid_since(None)),
            bets == sum_of(ledger@.games.take(i as int), any_played(), bet_of()),
            payouts == sum_of(ledger@.games.take(i as int), any_played(), payout_of()),
            -(i * 0x8000_0000_0000_0000) <= bets <= i * 0x8000_0000_0000_0000,
            -(i * 0x8000_0000_0000_0000) <= payouts <= i * 0x8000_0000_0000_0000,
        decreases ledger.games.len() - i,
    {
        let row = &ledger.games[i];
        proof {
            let upto = ledger@.games.take(i + 1);
            let before = ledger@.games.take(i as int);
            assert(upto.drop_last() =~= before);
            assert(upto.last() == row@);
            lemma_count_bounds(before, any_played());
            lemma_count_bounds(before, any_winner());
            lemma_count_bounds(before, any_loser());
            lemma_count_bounds(before, unpaid_since(None));
        }
        if row.rolled_number != -1 {
            total_games += 1;
            bets += row.bet_amount as i128;
            match row.winning_amount {
                Some(amount) => {
                    payouts += amount as i128;
                },
                None => {},
            }
            if !row.is_winner {
                total_losers += 1;
            }
        }
        if row.is_winner {
            total_winners += 1;
            if !row.payment_successful {
                unpaid_winners += 1;
            }
        }
        i += 1;
    }
    assert(ledger@.games.take(i as int) =~= ledger@.games);
    let profit: i128 = bets - payouts;
    if bets < i64::MIN as i128 || bets > i64::MAX as i128 || payouts < i64::MIN as i128 || payouts
        > i64::MAX as i128 || profit < i64::MIN as i128 || profit > i64::MAX as i128 {
        return Err(LedgerError::Read);
    }
    Ok(
        DatabaseStats {
            total_games,
            total_winners,
            total_losers,
            unpaid_winners,
            total_bet_amount: bets as i64,
            total_payout_amount: payouts as i64,
            total_house_profit: profit as i64,
        },
    )
}

struct Subtotal {
    multiplier: i64,
    games: i64,
    winners: i64,
    losers: i64,
    bets: i128,
    payouts: i128,
}

impl Subtotal {
    spec fn counts(&self, rows: Seq<GameRow>) -> bool {
        &&& self.games == count_of(rows, played_at(self.multiplier))
        &&& self.winners == count_of(rows, won_at(self.multiplier))
        &&& self.losers == count_of(rows, lost_at(self.multiplier))
        &&& self.bets == sum_of(rows, played_at(self.multiplier), bet_of())
        &&& self.payouts == sum_of(rows, played_at(self.multiplier), payout_of())
        &&& self.games > 0
        &&& -(rows.len() * 0x8000_0000_0000_0000) <= self.bets <= rows.len()
            * 0x8000_0000_0000_0000
        &&& -(rows.len() * 0x8000_0000_0000_0000) <= self.payouts <= rows.len()
            * 0x8000_0000_0000_0000
    }
}

spec fn subtotalled(subtotals: Seq<Subtotal>, rows: Seq<GameRow>) -> bool {
    &&& forall|a: int, b: int|
        #![trigger subtotals[a], subtotals[b]]
        0 <= a < b < subtotals.len() ==> subtotals[a].multiplier < subtotals[b].multiplier
    &&& forall|k: int| 0 <= k < subtotals.len() ==> (#[trigger] subtotals[k]).counts(rows)
    &&& forall|j: int|
        0 <= j < rows.len() && played(#[trigger] rows[j]) ==> exists|k: int|
            0 <= k < subtotals.len() && (#[trigger] subtotals[k]).multiplier == rows[j].multiplier
}

proof fn lemma_subtotal_step(subtotal: Subtotal, rows: Seq<GameRow>, row: GameRow)
    requires
        subtotal.counts(rows),
        rows.len() < i64::MAX,
        !(played(row) && row.multiplier == subtotal.multiplier),
    ensures
        subtotal.counts(rows.push(row)),
{
    let more = rows.push(row);
    assert(more.drop_last() =~= rows);
    assert(more.last() == row);
}

spec fn won(row: GameRow) -> int {
    if row.is_winner {
        1
    } else {
        0
    }
}

proof fn lemma_subtotal_updated(
    before: Seq<Subtotal>,
    p: int,
    updated: Subtotal,
    rows: Seq<GameRow>,
    row: GameRow,
)
    requires
        subtotalled(before, rows),
        rows.len() < i64::MAX,
        played(row),
        0 <= p < before.len(),
        before[p].multiplier == row.multiplier,
        updated.multiplier == row.multiplier,
        updated.games == before[p].games + 1,
        updated.winners == before[p].winners + won(row),
        updated.losers == before[p].losers + 1 - won(row),
        updated.bets == before[p].bets + row.bet_amount,
        updated.payouts == before[p].payouts + payout_of()(row),
    ensures
        subtotalled(before.update(p, updated), rows.push(row)),
{
    let more = rows.push(row);
    let after = before.update(p, updated);
    assert(more.drop_last() =~= rows);
    assert(more.last() == row);
    assert(before[p].counts(rows));
    assert(updated.counts(more));
    assert forall|k: int| 0 <= k < after.len() implies (#[trigger] after[k]).counts(more) by {
        if k != p {
            assert(after[k] == before[k]);
            assert(before[k].counts(rows));
            if k < p {
                assert(before[k].multiplier < before[p].multiplier);
            } else {
                assert(before[p].multiplier < before[k].multiplier);
            }
            lemma_subtotal_step(before[k], rows, row);
        }
    }
    assert forall|a: int, b: int|
        #![trigger after[a], after[b]]
        0 <= a < b < after.len() implies after[a].multiplier < after[b].multiplier by {
        assert(after[a].multiplier == before[a].multiplier);
        assert(after[b].multiplier == before[b].multiplier);
        assert(before[a].multiplier < before[b].multiplier);
    }
    assert forall|j: int| 0 <= j < more.len() && played(#[trigger] more[j]) implies exists|
        k: int,
    |
        0 <= k < after.len() && (#[trigger] after[k]).multiplier == more[j].multiplier by {
        if j < rows.len() {
            assert(more[j] == rows[j]);
            let k = choose|k: int|
                0 <= k < before.len() && (#[trigger] before[k]).multiplier == rows[j].multiplier;
            assert(after[k].multiplier == before[k].multiplier);
        } else {
            assert(after[p].multiplier == more[j].multiplier);
        }
    }
}

proof fn lemma_subtotal_inserted(
    before: Seq<Subtotal>,
    p: int,
    fresh: Subtotal,
    rows: Seq<GameRow>,
    row: GameRow,
)
    requires
        subtotalled(before, rows),
        rows.len() < i64::MAX,
        played(row),
        0 <= p <= before.len(),
        forall|k: int| 0 <= k < p ==> (#[trigger] before[k]).multiplier < row.multiplier,
        p < before.len() ==> before[p].multiplier > row.multiplier,
        fresh.multiplier == row.multiplier,
        fresh.games == 1,
        fresh.winners == won(row),
        fresh.losers == 1 - won(row),
        fresh.bets == row.bet_amount,
        fresh.payouts == payout_of()(row),
    ensures
        subtotalled(before.insert(p, fresh), rows.push(row)),
{
    let more = rows.push(row);
    let after = before.insert(p, fresh);
    assert(more.drop_last() =~= rows);
    assert(more.last() == row);
    assert forall|k: int| 0 <= k < before.len() implies (#[trigger] before[k]).multiplier
        != row.multiplier by {
        if k >= p {
            if k > p {
                assert(before[p].multiplier < before[k].multiplier);
            }
        }
    }
    lemma_unplayed_multiplier(rows, fresh.multiplier, before);
    assert(after[p] == fresh);
    assert(fresh.counts(more));
    assert forall|k: int| 0 <= k < after.len() implies (#[trigger] after[k]).counts(more) by {
        if k != p {
            let a = if k < p {
                k
            } else {
                k - 1
            };
            assert(after[k] == before[a]);
            assert(before[a].counts(rows));
            assert(before[a].multiplier != row.multiplier);
            lemma_subtotal_step(before[a], rows, row);
        }
    }
    assert forall|a: int, b: int|
        #![trigger after[a], after[b]]
        0 <= a < b < after.len() implies after[a].multiplier < after[b].multiplier by {
        let x = if a < p {
            a
        } else {
            a - 1
        };
        let y = if b < p {
            b
        } else {
            b - 1
        };
        if a != p && b != p {
            assert(after[a] == before[x]);
            assert(after[b] == before[y]);
            assert(before[x].multiplier < before[y].multiplier);
        } else if a == p {
            assert(after[b] == before[y]);
            if y > p {
                assert(before[p].multiplier < before[y].multiplier);
            }
        } else {
            assert(after[a] == before[x]);
        }
    }
    assert forall|j: int| 0 <= j < more.len() && played(#[trigger] more[j]) implies exists|
        k: int,
    |
        0 <= k < after.len() && (#[trigger] after[k]).multiplier == more[j].multiplier by {
        if j < rows.len() {
            assert(more[j] == rows[j]);
            let k = choose|k: int|
                0 <= k < before.len() && (#[trigger] before[k]).multiplier == rows[j].multiplier;
            let moved = if k < p {
                k
            } else {
                k + 1
            };
            assert(after[moved] == before[k]);
        } else {
            assert(after[p].multiplier == more[j].multiplier);
        }
    }
}

fn count_round(subtotals: &mut Vec<Subtotal>, row: &GameResult, Ghost(rows): Ghost<Seq<GameRow>>)
    requires
        subtotalled(old(subtotals)@, rows),
        rows.len() < i64::MAX,
        played(row@),
    ensures
        subtotalled(final(subtotals)@, rows.push(row@)),
{
    let won: i64 = if row.is_winner {
        1
    } else {
        0
    };
    let payout: i128 = match row.winning_amount {
        Some(amount) => amount as i128,
        None => 0,
    };
    let mut p: usize = 0;
    while p < subtotals.len() && subtotals[p].multiplier < row.multiplier
        invariant
            p <= subtotals@.len(),
            *subtotals == *old(subtotals),
            forall|k: int| 0 <= k < p ==> (#[trigger] subtotals@[k]).multiplier < row.multiplier,
        decreases subtotals.len() - p,
    {
        p += 1;
    }
    let ghost before = subtotals@;
    if p < subtotals.len() && subtotals[p].multiplier == row.multiplier {
        let found = subtotals.remove(p);
        proof {
            assert(found == before[p as int]);
            assert(found.counts(rows));
            lemma_count_bounds(rows, played_at(found.multiplier));
            lemma_count_bounds(rows, won_at(found.multiplier));
            lemma_count_bounds(rows, lost_at(found.multiplier));
        }
        let updated = Subtotal {
            multiplier: found.multiplier,
            games: found.games + 1,
            winners: found.winners + won,
            losers: found.losers + (1 - won),
            bets: found.bets + row.bet_amount as i128,
            payouts: found.payouts + payout,
        };
        subtotals.insert(p, updated);
        proof {
            assert(subtotals@ =~= before.update(p as int, updated));
            lemma_subtotal_updated(before, p as int, updated, rows, row@);
        }
    } else {
        let fresh = Subtotal {
            multiplier: row.multiplier,
            games: 1,
            winners: won,
            losers: 1 - won,
            bets: row.bet_amount as i128,
            payouts: payout,
        };
        subtotals.insert(p, fresh);
        proof {
            lemma_subtotal_inserted(before, p as int, fresh, rows, row@);
        }
    }
}

proof fn lemma_unplayed_multiplier(rows: Seq<GameRow>, multiplier: i64, subtotals: Seq<Subtotal>)
    requires
        forall|j: int|
            0 <= j < rows.len() && played(#[trigger] rows[j]) ==> exists|k: int|
                0 <= k < subtotals.len() && (#[trigger] subtotals[k]).multiplier == rows[j].multiplier,
        forall|k: int| 0 <= k < subtotals.len() ==> (#[trigger] subtotals[k]).multiplier != multiplier,
    ensures
        count_of(rows, played_at(multiplier)) == 0,
        count_of(rows, won_at(multiplier)) == 0,
        count_of(rows, lost_at(multiplier)) == 0,
        sum_of(rows, played_at(multiplier), bet_of()) == 0,
        sum_of(rows, played_at(multiplier), payout_of()) == 0,
    decreases rows.len(),
{
    if rows.len() > 0 {
        let front = rows.drop_last();
        assert forall|j: int| 0 <= j < front.len() && played(#[trigger] front[j]) implies exists|
            k: int,
        |
            0 <= k < subtotals.len() && (#[trigger] subtotals[k]).multiplier == front[j].multiplier by {
            assert(front[j] == rows[j]);
        }
        lemma_unplayed_multiplier(front, multiplier, subtotals);
        let last = rows[rows.len() - 1];
        if played(last) {
            let k = choose|k: int|
                0 <= k < subtotals.len() && (#[trigger] subtotals[k]).multiplier == last.multiplier;
        }
    }
}

/// Totals by multiplier over the rounds that were played, in ascending
/// order of the multipliers. Fails where the bets or the payouts of a
/// multiplier do not fit a signed 64-bit number.
pub fn get_stats_by_multiplier(ledger: &Ledger) -> (result: Result<
    Vec<MultiplierStats>,
    LedgerError,
>)
    requires
        ledger@.wf(),
    ensures
        match result {
            Ok(stats) => summarizes(stats@, ledger@.games),
            Err(error) => error == LedgerError::Read && exists|j: int|
                0 <= j < ledger@.games.len() && played(#[trigger] ledger@.games[j]) && !totals_fit(
                    ledger@.games,
                    ledger@.games[j].multiplier,
                ),
        },
{
    let mut subtotals: Vec<Subtotal> = Vec::new();
    let mut i: usize = 0;
    while i < ledger.games.len()
        invariant
            i <= ledger.games@.len(),
            ledger@.wf(),
            subtotalled(subtotals@, ledger@.games.take(i as int)),
        decreases ledger.games.len() - i,
    {
        let row = &ledger.games[i];
        proof {
            let upto = ledger@.games.take(i + 1);
            assert(upto =~= ledger@.games.take(i as int).push(row@));
        }
        if row.rolled_number != -1 {
            count_round(&mut subtotals, row, Ghost(ledger@.games.take(i as int)));
        } else {
            proof {
                let rows = ledger@.games.take(i as int);
                let more = rows.push(row@);
                assert forall|k: int| 0 <= k < subtotals@.len() implies (#[trigger] subtotals@[k]).counts(
                    more,
                ) by {
                    lemma_subtotal_step(subtotals@[k], rows, row@);
                }
                assert forall|j: int| 0 <= j < more.len() && played(#[trigger] more[j]) implies exists|
                    k: int,
                |
                    0 <= k < subtotals@.len() && (#[trigger] subtotals@[k]).multiplier
                        == more[j].multiplier by {
                    assert(more[j] == rows[j]);
                }
            }
        }
        i += 1;
    }
    proof {
        assert(ledger@.games.take(i as int) =~= ledger@.games);
    }
    let mut stats: Vec<MultiplierStats> = Vec::new();
    let mut k: usize = 0;
    while k < subtotals.len()
        invariant
            k <= subtotals@.len(),
            subtotalled(subtotals@, ledger@.games),
            stats@.len() == k,
            forall|a: int|
                0 <= a < k ==> (#[trigger] stats@[a]).multiplier == subtotals@[a].multiplier
                    && totals_of(stats@[a], ledger@.games) && stats@[a].total_games > 0,
        decreases subtotals.len() - k,
    {
        let subtotal = &subtotals[k];
        assert(subtotal.counts(ledger@.games));
        if subtotal.bets < i64::MIN as i128 || subtotal.bets > i64::MAX as i128 || subtotal.payouts
            < i64::MIN as i128 || subtotal.payouts > i64::MAX as i128 {
            proof {
                lemma_counted_row_exists(ledger@.games, subtotal.multiplier);
            }
            return Err(LedgerError::Read);
        }
        stats.push(
            MultiplierStats {
                multiplier: subtotal.multiplier,
                total_games: subtotal.games,
                total_winners: subtotal.winners,
                total_losers: subtotal.losers,
                total_bet_amount: subtotal.bets as i64,
                total_payout_amount: subtotal.payouts as i64,
            },
        );
        k += 1;
    }
    proof {
        assert forall|j: int|
            0 <= j < ledger@.games.len() && played(#[trigger] ledger@.games[j]) implies exists|
            k: int,
        |
            0 <= k < stats@.len() && (#[trigger] stats@[k]).multiplier
                == ledger@.games[j].multiplier by {
            let t = choose|t: int|
                0 <= t < subtotals@.len() && (#[trigger] subtotals@[t]).multiplier
                    == ledger@.games[j].multiplier;
            assert(stats@[t].multiplier == subtotals@[t].multiplier);
        }
        assert forall|a: int, b: int|
            #![trigger stats@[a], stats@[b]]
            0 <= a < b < stats@.len() implies stats@[a].multiplier < stats@[b].multiplier by {
            assert(subtotals@[a].multiplier < subtotals@[b].multiplier);
        }
        assert forall|k: int| 0 <= k < stats@.len() implies totals_of(
            #[trigger] stats@[k],
            ledger@.games,
        ) by {}
        assert forall|k: int| 0 <= k < stats@.len() implies (#[trigger] stats@[k]).total_games
            > 0 by {}
        assert(summarizes(stats@, ledger@.games));
    }
    Ok(stats)
}

proof fn lemma_counted_row_exists(rows: Seq<GameRow>, multiplier: i64)
    requires
        count_of(rows, played_at(multiplier)) > 0,
    ensures
        exists|j: int|
            0 <= j < rows.len() && played(#[trigger] rows[j]) && rows[j].multiplier == multiplier,
{
    let j = lemma_counted_row(rows, played_at(multiplier));
    assert(played(rows[j]) && rows[j].multiplier == multiplier);
}

/// How many rounds are recorded, donations included.
pub fn get_total_game_count(ledger: &Ledger) -> (count: i64)
    requires
        ledger@.wf(),
    ensures
        count == ledger@.games.len(),
{
    ledger.games.len() as i64
}

/// The chats that are registered for notifications, each once, in the order
/// in which they registered.
#[derive(Debug)]
pub struct TelegramRegistrations {
    chats: Vec<String>,
}

/// The chat ids without the id `chat_id`, in their order.
pub open spec fn without_chat(chats: Seq<Seq<char>>, chat_id: Seq<char>) -> Seq<Seq<char>>
    decreases chats.len(),
{
    if chats.len() == 0 {
        chats
    } else if chats.last() == chat_id {
        without_chat(chats.drop_last(), chat_id)
    } else {
        without_chat(chats.drop_last(), chat_id).push(chats.last())
    }
}

/// What is left without a chat id is what was there before, but for that id.
pub proof fn lemma_without_chat(chats: Seq<Seq<char>>, chat_id: Seq<char>, other: Seq<char>)
    ensures
        without_chat(chats, chat_id).contains(other) <==> chats.contains(other) && other != chat_id,
    decreases chats.len(),
{
    let left = without_chat(chats, chat_id);
    if chats.len() > 0 {
        let front = chats.drop_last();
        lemma_without_chat(front, chat_id, other);
        if chats.contains(other) && other != chat_id {
            let i = choose|i: int| 0 <= i < chats.len() && chats[i] == other;
            if i < front.len() {
                assert(front[i] == other);
                let j = choose|j: int|
                    0 <= j < without_chat(front, chat_id).len() && without_chat(front, chat_id)[j]
                        == other;
                assert(left[j] == other);
            } else {
                assert(left[left.len() - 1] == other);
            }
        }
        if left.contains(other) {
            let j = choose|j: int| 0 <= j < left.len() && left[j] == other;
            if chats.last() != chat_id && j == left.len() - 1 {
                assert(chats[chats.len() - 1] == other);
            } else {
                assert(without_chat(front, chat_id)[j] == other);
                let i = choose|i: int| 0 <= i < front.len() && front[i] == other;
                assert(chats[i] == other);
            }
        }
    }
}

impl View for TelegramRegistrations {
    type V = Seq<Seq<char>>;

    closed spec fn view(&self) -> Seq<Seq<char>> {
        Seq::new(self.chats@.len(), |i: int| self.chats@[i]@)
    }
}

impl TelegramRegistrations {
    /// No chat is registered.
    pub fn new() -> (registrations: TelegramRegistrations)
        ensures
            registrations@.len() == 0,
    {
        TelegramRegistrations { chats: Vec::new() }
    }
}

/// Whether a chat is registered.
pub fn is_telegram_chat_registered(registrations: &TelegramRegistrations, chat_id: &str) -> (
    registered: bool)
    ensures
        registered == registrations@.contains(chat_id@),
{
    let mut i: usize = 0;
    while i < registrations.chats.len()
        invariant
            i <= registrations.chats@.len(),
            forall|j: int| 0 <= j < i ==> registrations@[j] != chat_id@,
        decreases registrations.chats.len() - i,
    {
        if same_text(registrations.chats[i].as_str(), chat_id) {
            assert(registrations@[i as int] == chat_id@);
            return true;
        }
        i += 1;
    }
    false
}

/// Registers a chat. A chat that is registered already stays registered once.
pub fn register_telegram_chat(registrations: &mut TelegramRegistrations, chat_id: &str)
    ensures
        final(registrations)@ == if old(registrations)@.contains(chat_id@) {
            old(registrations)@
        } else {
            old(registrations)@.push(chat_id@)
        },
{
    if !is_telegram_chat_registered(registrations, chat_id) {
        registrations.chats.push(chat_id.to_owned());
        assert(registrations@ =~= old(registrations)@.push(chat_id@));
    }
}

/// Takes a chat off the list, wherever it stands on it.
pub fn unregister_telegram_chat(registrations: &mut TelegramRegistrations, chat_id: &str)
    ensures
        final(registrations)@ == without_chat(old(registrations)@, chat_id@),
{
    let mut kept: Vec<String> = Vec::new();
    let mut i: usize = 0;
    while i < registrations.chats.len()
        invariant
            i <= registrations.chats@.len(),
            *registrations == *old(registrations),
            Seq::new(kept@.len(), |k: int| kept@[k]@) == without_chat(
                registrations@.take(i as int),
                chat_id@,
            ),
        decreases registrations.chats.len() - i,
    {
        let ghost before = Seq::new(kept@.len(), |k: int| kept@[k]@);
        proof {
            let upto = registrations@.take(i + 1);
            assert(upto.drop_last() =~= registrations@.take(i as int));
            assert(upto.last() == registrations@[i as int]);
        }
        if !same_text(registrations.chats[i].as_str(), chat_id) {
            kept.push(registrations.chats[i].clone());
            assert(Seq::new(kept@.len(), |k: int| kept@[k]@) =~= before.push(
                registrations@[i as int],
            ));
        }
        i += 1;
    }
    proof {
        assert(registrations@.take(i as int) =~= registrations@);
    }
    registrations.chats = kept;
    assert(registrations@ =~= without_chat(old(registrations)@, chat_id@));
}

/// The chats that are registered, in the order in which they registered.
pub fn get_registered_telegram_chats(registrations: &TelegramRegistrations) -> (chats: Vec<String>)
    ensures
        chats@.len() == registrations@.len(),
        forall|i: int| 0 <= i < chats@.len() ==> (#[trigger] chats@[i])@ == registrations@[i],
{
    let mut chats: Vec<String> = Vec::new();
    let mut i: usize = 0;
    while i < registrations.chats.len()
        invariant
            i <= registrations.chats@.len(),
            chats@.len() == i,
            forall|j: int| 0 <= j < i ==> (#[trigger] chats@[j])@ == registrations@[j],
        decreases registrations.chats.len() - i,
    {
        chats.push(registrations.chats[i].clone());
        i += 1;
    }
    chats
}

} // verus!
