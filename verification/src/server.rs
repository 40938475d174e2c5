//! What the house publishes: its game addresses with their rules, and the
//! history of rounds with the commitments that let a player check them.

use crate::client::ArkClient;
use crate::client::GameArkAddress;
use crate::client::VtxoOutPoint;
use crate::db::game_rows;
use crate::text::same_bytes;
use crate::transaction_processor::donation_threshold;
use crate::transaction_processor::follows_rules;
use crate::transaction_processor::follows_rules_of;
use crate::transaction_processor::max_bet_amount;
use crate::db::get_game_results_paginated;
use crate::db::get_total_game_count;
use crate::db::text_of;
use crate::db::GameResult;
use crate::db::GameRow;
use crate::db::Ledger;
use crate::games::outcome_of;
use crate::games::GameType;
use crate::key_derivation::Multiplier;
use crate::nonce_service::commitment;
use crate::nonce_service::commitment_of_text;
use crate::nonce_service::hash_nonce_text;
use crate::nonce_service::NonceService;
use crate::text::decimal;
use crate::text::decimal_string;
use vstd::prelude::*;
use vstd::string::*;

verus! {

/// A round as it is shown to players. The multiplier is given per hundred
/// units bet; the nonce is there only once it may be revealed.
#[derive(Debug)]
pub struct GameHistoryItem {
    pub id: String,
    pub amount_sent: u64,
    pub multiplier: i64,
    pub result_number: i64,
    pub target_number: i64,
    pub is_win: bool,
    pub payout: Option<u64>,
    pub input_tx_id: String,
    pub output_tx_id: Option<String>,
    pub nonce: Option<String>,
    pub nonce_hash: String,
    pub timestamp: i64,
}

/// A donation as it is shown to players.
#[derive(Debug)]
pub struct DonationItem {
    pub id: String,
    pub amount: u64,
    pub sender: String,
    pub input_tx_id: String,
    pub timestamp: i64,
}

/// What is sent to the listeners of the live feed.
#[derive(Debug)]
pub enum WebSocketMessage {
    GameResult(GameHistoryItem),
    Donation(DonationItem),
}

/// A shown round as a value.
pub struct HistoryEntry {
    pub id: Seq<char>,
    pub amount_sent: u64,
    pub multiplier: i64,
    pub result_number: i64,
    pub target_number: i64,
    pub is_win: bool,
    pub payout: Option<u64>,
    pub input_tx_id: Seq<char>,
    pub output_tx_id: Option<Seq<char>>,
    pub nonce: Option<Seq<char>>,
    pub nonce_hash: Seq<char>,
    pub timestamp: i64,
}

/// A shown donation as a value.
pub struct DonationEntry {
    pub id: Seq<char>,
    pub amount: u64,
    pub sender: Seq<char>,
    pub input_tx_id: Seq<char>,
    pub timestamp: i64,
}

impl View for GameHistoryItem {
    type V = HistoryEntry;

    open spec fn view(&self) -> HistoryEntry {
        HistoryEntry {
            id: self.id@,
            amount_sent: self.amount_sent,
            multiplier: self.multiplier,
            result_number: self.result_number,
            target_number: self.target_number,
            is_win: self.is_win,
            payout: self.payout,
            input_tx_id: self.input_tx_id@,
            output_tx_id: text_of(self.output_tx_id),
            nonce: text_of(self.nonce),
            nonce_hash: self.nonce_hash@,
            timestamp: self.timestamp,
        }
    }
}

impl View for DonationItem {
    type V = DonationEntry;

    open spec fn view(&self) -> DonationEntry {
        DonationEntry {
            id: self.id@,
            amount: self.amount,
            sender: self.sender@,
            input_tx_id: self.input_tx_id@,
            timestamp: self.timestamp,
        }
    }
}

/// The number shown as the target of a multiplier given per hundred: the
/// quotient of 65 536 000 by it, rounded towards zero, and the largest
/// number there is where the multiplier is zero.
pub open spec fn target_of(multiplier: i64) -> int {
    if multiplier > 0 {
        65_536_000int / (multiplier as int)
    } else if multiplier == 0 {
        i64::MAX as int
    } else {
        -(65_536_000int / (-(multiplier as int)))
    }
}

/// The nonce of a round as far as it may be shown while `current` is the
/// current nonce.
pub open spec fn revealed(nonce: Seq<char>, current: u64) -> Option<Seq<char>> {
    if nonce == decimal(current as nat) {
        None
    } else {
        Some(nonce)
    }
}

/// How a stored round is shown while `current` is the current nonce.
pub open spec fn entry_of_row(row: GameRow, current: u64) -> HistoryEntry {
    HistoryEntry {
        id: if row.id >= 0 {
            decimal(row.id as nat)
        } else {
            seq!['-'] + decimal((-row.id) as nat)
        },
        amount_sent: row.bet_amount as u64,
        multiplier: row.multiplier,
        result_number: row.rolled_number,
        target_number: target_of(row.multiplier) as i64,
        is_win: row.is_winner,
        payout: match row.winning_amount {
            Some(amount) => Some(amount as u64),
            None => None,
        },
        input_tx_id: row.input_tx_id,
        output_tx_id: row.output_tx_id,
        nonce: revealed(row.nonce, current),
        nonce_hash: commitment_of_text(row.nonce),
        timestamp: row.timestamp,
    }
}

/// Whether a shown round reveals the nonce `nonce` and stands up to a check
/// with it: the commitment shown is the hash of the nonce, and the roll
/// shown is the one that the game gives the nonce and the deposit, unless
/// the round is a donation.
pub open spec fn checks_out(
    entry: HistoryEntry,
    game_type: GameType,
    multiplier: Multiplier,
    nonce: u64,
) -> bool {
    &&& entry.nonce == Some(decimal(nonce as nat))
    &&& entry.nonce_hash == commitment(nonce)
    &&& entry.multiplier == multiplier.ratio()
    &&& entry.result_number == -1 || entry.result_number == outcome_of(
        game_type,
        nonce,
        entry.input_tx_id,
        multiplier,
    ).rolled_value
}

/// Commit and reveal: a round that was settled by the rules and whose nonce
/// is revealed stands up to a check with that nonce.
pub proof fn lemma_commit_reveal(row: GameRow, current: u64, max_payout_sats: u64)
    requires
        follows_rules(row, max_payout_sats),
        entry_of_row(row, current).nonce is Some,
    ensures
        exists|game_type: GameType, multiplier: Multiplier, nonce: u64| #[trigger]
            checks_out(entry_of_row(row, current), game_type, multiplier, nonce),
{
    let (game_type, multiplier, nonce) = choose|
        game_type: GameType,
        multiplier: Multiplier,
        nonce: u64,
    |
        #[trigger] follows_rules_of(row, max_payout_sats, game_type, multiplier, nonce);
    assert(checks_out(entry_of_row(row, current), game_type, multiplier, nonce));
}

/// A shown round stands up to a check with one nonce at most: the nonce
/// that is revealed is the number that was committed to.
pub proof fn lemma_revealed_nonce_is_unique(
    entry: HistoryEntry,
    game_type: GameType,
    multiplier: Multiplier,
    nonce: u64,
    other_game_type: GameType,
    other_multiplier: Multiplier,
    other_nonce: u64,
)
    requires
        checks_out(entry, game_type, multiplier, nonce),
        checks_out(entry, other_game_type, other_multiplier, other_nonce),
    ensures
        nonce == other_nonce,
{
    crate::text::lemma_decimal_injective(nonce as nat, other_nonce as nat);
}

/// The nonce of a round is shown only once it is no longer the current one.
pub proof fn lemma_current_nonce_is_withheld(row: GameRow, current: u64)
    ensures
        entry_of_row(row, current).nonce is Some <==> row.nonce != decimal(current as nat),
        entry_of_row(row, current).nonce matches Some(nonce) ==> nonce == row.nonce,
{
}

/// The number shown as the target of a multiplier given per hundred.
pub fn target_number(multiplier: i64) -> (target: i64)
    ensures
        target == target_of(multiplier),
{
    if multiplier > 0 {
        65_536_000 / multiplier
    } else if multiplier == 0 {
        i64::MAX
    } else {
        let size: i128 = -(multiplier as i128);
        let quotient: i128 = 65_536_000 / size;
        (-quotient) as i64
    }
}

fn signed_decimal(n: i64) -> (text: String)
    ensures
        text@ == if n >= 0 {
            decimal(n as nat)
        } else {
            seq!['-'] + decimal((-n) as nat)
        },
{
    if n >= 0 {
        decimal_string(n as u64)
    } else {
        let size: u64 = (-(n as i128)) as u64;
        let mut text = String::from_str("-");
        proof {
            reveal_strlit("-");
            assert("-"@ =~= seq!['-']);
        }
        let digits = decimal_string(size);
        text.append(digits.as_str());
        text
    }
}

/// Shows a stored round. The nonce is left out while it is still current;
/// the commitment shown is that of the round's own nonce either way.
pub fn history_item(row: &GameResult, nonce_service: &NonceService) -> (item: GameHistoryItem)
    ensures
        item@ == entry_of_row(row@, nonce_service.current()),
{
    let revealable_nonce = nonce_service.get_revealable_nonce(row.nonce.as_str());
    let nonce_hash = if revealable_nonce.is_some() {
        hash_nonce_text(row.nonce.as_str())
    } else {
        nonce_service.get_current_nonce_hash()
    };
    GameHistoryItem {
        id: signed_decimal(row.id),
        amount_sent: #[verifier::truncate]
        (row.bet_amount as u64),
        multiplier: row.multiplier,
        result_number: row.rolled_number,
        target_number: target_number(row.multiplier),
        is_win: row.is_winner,
        payout: match row.winning_amount {
            Some(amount) => Some(#[verifier::truncate] (amount as u64)),
            None => None,
        },
        input_tx_id: row.input_tx_id.clone(),
        output_tx_id: match &row.output_tx_id {
            Some(tx) => Some(tx.clone()),
            None => None,
        },
        nonce: revealable_nonce,
        nonce_hash,
        timestamp: row.timestamp,
    }
}

/// A game address as it is advertised, with the rules that hold at it.
#[derive(Debug)]
pub struct GameAddressInfo {
    pub game_type: u8,
    pub address: String,
    pub multiplier: String,
    /// The payout per hundred units bet.
    pub multiplier_value: u64,
    /// A roll wins when it is below this bound.
    pub max_roll: u16,
    /// The largest bet that is taken, in satoshis.
    pub max_bet_amount: u64,
}

/// Advertises a game address under a cap on payouts.
pub fn game_address_info(entry: &GameArkAddress, max_payout_sats: u64) -> (info: GameAddressInfo)
    ensures
        info.game_type == 0,
        info.address@ == entry.address@,
        info.multiplier@ == entry.multiplier.shown(),
        info.multiplier_value == entry.multiplier.ratio(),
        info.max_roll == entry.multiplier.threshold(),
        info.max_bet_amount == donation_threshold(max_payout_sats, entry.multiplier),
{
    GameAddressInfo {
        game_type: entry.game_type.code(),
        address: entry.address.clone(),
        multiplier: entry.multiplier.display(),
        multiplier_value: entry.multiplier.multiplier(),
        max_roll: entry.multiplier.get_lower_than(),
        max_bet_amount: max_bet_amount(max_payout_sats, &entry.multiplier),
    }
}

/// Advertises every game address of the house, in their order.
pub fn get_game_addresses(client: &ArkClient, max_payout_sats: u64) -> (listed: Vec<
    GameAddressInfo,
>)
    ensures
        listed@.len() == client.games().len(),
        forall|i: int|
            0 <= i < listed@.len() ==> {
                &&& (#[trigger] listed@[i]).address@ == client.games()[i].address@
                &&& listed@[i].game_type == 0
                &&& listed@[i].multiplier@ == client.games()[i].multiplier.shown()
                &&& listed@[i].multiplier_value == client.games()[i].multiplier.ratio()
                &&& listed@[i].max_roll == client.games()[i].multiplier.threshold()
                &&& listed@[i].max_bet_amount == donation_threshold(
                    max_payout_sats,
                    client.games()[i].multiplier,
                )
            },
{
    let addresses = client.game_addresses();
    let mut listed: Vec<GameAddressInfo> = Vec::new();
    let mut i: usize = 0;
    while i < addresses.len()
        invariant
            i <= addresses@.len(),
            addresses@ == client.games(),
            listed@.len() == i,
            forall|j: int|
                0 <= j < i ==> {
                    &&& (#[trigger] listed@[j]).address@ == client.games()[j].address@
                    &&& listed@[j].game_type == 0
                    &&& listed@[j].multiplier@ == client.games()[j].multiplier.shown()
                    &&& listed@[j].multiplier_value == client.games()[j].multiplier.ratio()
                    &&& listed@[j].max_roll == client.games()[j].multiplier.threshold()
                    &&& listed@[j].max_bet_amount == donation_threshold(
                        max_payout_sats,
                        client.games()[j].multiplier,
                    )
                },
        decreases addresses.len() - i,
    {
        listed.push(game_address_info(&addresses[i], max_payout_sats));
        i += 1;
    }
    listed
}

/// The page that is shown where `page` is asked for: the first one unless a
/// later one is named.
pub open spec fn page_shown(page: Option<i64>) -> i64 {
    match page {
        Some(p) if p >= 1 => p,
        _ => 1,
    }
}

/// The number of rounds on a page where `page_size` is asked for: twenty
/// unless a number is named, and never fewer than one or more than a hundred.
pub open spec fn page_size_shown(page_size: Option<i64>) -> i64 {
    match page_size {
        Some(n) => if n < 1 {
            1
        } else if n > 100 {
            100
        } else {
            n
        },
        None => 20,
    }
}

/// The number of pages that `total` rounds fill.
pub open spec fn pages_of(total: int, page_size: int) -> int
    recommends
        page_size >= 1,
{
    (total + page_size - 1) / page_size
}

/// One page of the history of rounds, with what it takes to leaf through it.
#[derive(Debug)]
pub struct GameHistoryResponse {
    pub games: Vec<GameHistoryItem>,
    pub total: i64,
    pub page: i64,
    pub page_size: i64,
    pub total_pages: i64,
}

/// The rounds that are shown for the stored rounds while `current` is the
/// current nonce.
pub open spec fn entries_of(rows: Seq<GameRow>, current: u64) -> Seq<HistoryEntry> {
    Seq::new(rows.len(), |i: int| entry_of_row(rows[i], current))
}

/// The entries that a list of shown rounds stands for.
pub open spec fn history_entries(items: Seq<GameHistoryItem>) -> Seq<HistoryEntry> {
    Seq::new(items.len(), |i: int| items[i]@)
}

/// A page of the history of rounds, newest first.
pub fn get_games(
    ledger: &Ledger,
    nonce_service: &NonceService,
    page: Option<i64>,
    page_size: Option<i64>,
) -> (response: GameHistoryResponse)
    requires
        ledger@.wf(),
    ensures
        response.page == page_shown(page),
        response.page_size == page_size_shown(page_size),
        response.total == ledger@.games.len(),
        response.total_pages == pages_of(response.total as int, response.page_size as int),
        history_entries(response.games@) == entries_of(
            ledger@.page(response.page, response.page_size),
            nonce_service.current(),
        ),
{
    let page: i64 = match page {
        Some(p) => if p >= 1 {
            p
        } else {
            1
        },
        None => 1,
    };
    let page_size: i64 = match page_size {
        Some(n) => if n < 1 {
            1
        } else if n > 100 {
            100
        } else {
            n
        },
        None => 20,
    };
    let games = get_game_results_paginated(ledger, page, page_size);
    let total: i64 = get_total_game_count(ledger);
    assert(0 <= (total + page_size - 1) / (page_size as int) <= total) by (nonlinear_arith)
        requires
            total >= 0,
            page_size >= 1,
    ;
    let total_pages: i64 = ((total as i128 + page_size as i128 - 1) / page_size as i128) as i64;
    let mut game_items: Vec<GameHistoryItem> = Vec::new();
    let mut i: usize = 0;
    while i < games.len()
        invariant
            i <= games@.len(),
            game_items@.len() == i,
            forall|j: int|
                0 <= j < i ==> (#[trigger] game_items@[j])@ == entry_of_row(
                    games@[j]@,
                    nonce_service.current(),
                ),
        decreases games.len() - i,
    {
        game_items.push(history_item(&games[i], nonce_service));
        i += 1;
    }
    proof {
        let shown = entries_of(ledger@.page(page, page_size), nonce_service.current());
        assert forall|j: int| 0 <= j < shown.len() implies history_entries(game_items@)[j]
            == shown[j] by {
            assert(game_rows(games@)[j] == games@[j]@);
        }
        assert(history_entries(game_items@) =~= shown);
    }
    GameHistoryResponse { games: game_items, total, page, page_size, total_pages }
}

/// What was received at one game address.
#[derive(Debug)]
pub struct GameStatsItem {
    pub game_type: String,
    pub multiplier: String,
    pub address: String,
    pub number_of_games: usize,
    /// The sum of what was received, in satoshis.
    pub total_received: u128,
}

/// What was received at the game addresses.
#[derive(Debug)]
pub struct StatsResponse {
    pub total_games: usize,
    pub game_stats: Vec<GameStatsItem>,
}

/// How many of the outputs pay to `script`.
pub open spec fn paid_to(vtxos: Seq<VtxoOutPoint>, script: Seq<u8>) -> nat
    decreases vtxos.len(),
{
    if vtxos.len() == 0 {
        0
    } else {
        paid_to(vtxos.drop_last(), script) + if vtxos.last().script@ == script {
            1nat
        } else {
            0nat
        }
    }
}

/// The sum of the outputs that pay to `script`.
pub open spec fn received_at(vtxos: Seq<VtxoOutPoint>, script: Seq<u8>) -> nat
    decreases vtxos.len(),
{
    if vtxos.len() == 0 {
        0
    } else {
        received_at(vtxos.drop_last(), script) + if vtxos.last().script@ == script {
            vtxos.last().amount as nat
        } else {
            0nat
        }
    }
}

/// What was received at one game address in its usual script.
pub fn address_stats(entry: &GameArkAddress, vtxos: &Vec<VtxoOutPoint>) -> (item: GameStatsItem)
    ensures
        item.game_type@ == "satoshis-number"@,
        item.multiplier@ == entry.multiplier.shown(),
        item.address@ == entry.address@,
        item.number_of_games == paid_to(vtxos@, entry.p2tr_script_pubkey@),
        item.total_received == received_at(vtxos@, entry.p2tr_script_pubkey@),
{
    let mut number_of_games: usize = 0;
    let mut total_received: u128 = 0;
    let mut i: usize = 0;
    while i < vtxos.len()
        invariant
            i <= vtxos@.len(),
            number_of_games == paid_to(vtxos@.take(i as int), entry.p2tr_script_pubkey@),
            total_received == received_at(vtxos@.take(i as int), entry.p2tr_script_pubkey@),
            number_of_games <= i,
            total_received <= i * 0x1_0000_0000_0000_0000,
        decreases vtxos.len() - i,
    {
        proof {
            let upto = vtxos@.take(i + 1);
            assert(upto.drop_last() =~= vtxos@.take(i as int));
            assert(upto.last() == vtxos@[i as int]);
        }
        if same_bytes(vtxos[i].script.as_slice(), entry.p2tr_script_pubkey.as_slice()) {
            number_of_games += 1;
            total_received += vtxos[i].amount as u128;
        }
        i += 1;
    }
    assert(vtxos@.take(i as int) =~= vtxos@);
    GameStatsItem {
        game_type: entry.game_type.display(),
        multiplier: entry.multiplier.display(),
        address: entry.address.clone(),
        number_of_games,
        total_received,
    }
}

/// What was received at the game addresses, given all the outputs that the
/// server lists for them.
pub fn get_stats(client: &ArkClient, vtxos: &Vec<VtxoOutPoint>) -> (response: StatsResponse)
    ensures
        response.total_games == vtxos@.len(),
        response.game_stats@.len() == client.games().len(),
        forall|i: int|
            0 <= i < response.game_stats@.len() ==> {
                &&& (#[trigger] response.game_stats@[i]).address@ == client.games()[i].address@
                &&& response.game_stats@[i].multiplier@ == client.games()[i].multiplier.shown()
                &&& response.game_stats@[i].number_of_games == paid_to(
                    vtxos@,
                    client.games()[i].p2tr_script_pubkey@,
                )
                &&& response.game_stats@[i].total_received == received_at(
                    vtxos@,
                    client.games()[i].p2tr_script_pubkey@,
                )
            },
{
    let addresses = client.game_addresses();
    let mut game_stats: Vec<GameStatsItem> = Vec::new();
    let mut i: usize = 0;
    while i < addresses.len()
        invariant
            i <= addresses@.len(),
            addresses@ == client.games(),
            game_stats@.len() == i,
            forall|j: int|
                0 <= j < i ==> {
                    &&& (#[trigger] game_stats@[j]).address@ == client.games()[j].address@
                    &&& game_stats@[j].multiplier@ == client.games()[j].multiplier.shown()
                    &&& game_stats@[j].number_of_games == paid_to(
                        vtxos@,
                        client.games()[j].p2tr_script_pubkey@,
                    )
                    &&& game_stats@[j].total_received == received_at(
                        vtxos@,
                        client.games()[j].p2tr_script_pubkey@,
                    )
                },
        decreases addresses.len() - i,
    {
        game_stats.push(address_stats(&addresses[i], vtxos));
        i += 1;
    }
    StatsResponse { total_games: vtxos.len(), game_stats }
}

} // verus!
