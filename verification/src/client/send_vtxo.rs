//! Choosing the coins that a payment is made of.

use ark_core::coin_select::select_vtxos;
use ark_core::coin_select::VirtualTxOutPoint;
use bitcoin::Amount;
use bitcoin::OutPoint;
use bitcoin::ScriptBuf;
use bitcoin::Txid;
use crate::search::first_where;
use crate::search::lemma_first_where_is;
use crate::search::lemma_first_where_none;
use crate::text::same_bytes;
use vstd::prelude::*;

verus! {

#[verifier::external_type_specification]
#[verifier::external_body]
pub struct ExArkError(ark_core::Error);

/// A coin that can be spent: an output of a virtual transaction with its
/// expiry and its amount in satoshis.
#[derive(Debug, Clone, Copy, PartialEq, Eq)]
pub struct Coin {
    pub txid: [u8; 32],
    pub vout: u32,
    pub expire_at: i64,
    pub amount: u64,
}

/// The coins of one address of the house, with the script that pays to it.
#[derive(Debug)]
pub struct CoinGroup {
    pub script_pubkey: Vec<u8>,
    pub coins: Vec<Coin>,
}

/// A coin that was selected for a payment, with the position of the group
/// that it belongs to.
#[derive(Debug, Clone, Copy, PartialEq, Eq)]
pub struct SelectedInput {
    pub coin: Coin,
    pub owner: usize,
}

/// Why no coins were selected.
#[derive(Debug, Clone, Copy, PartialEq, Eq, Structural)]
pub enum SendError {
    /// All coins together hold less than the amount.
    InsufficientFunds,
    /// All coins together hold more than an amount can express.
    Overflow,
}

/// What coins hold in all.
pub open spec fn total_amount(coins: Seq<Coin>) -> nat
    decreases coins.len(),
{
    if coins.len() == 0 {
        0
    } else {
        total_amount(coins.drop_last()) + coins.last().amount as nat
    }
}

/// The coins of all groups, group after group.
pub open spec fn all_coins(groups: Seq<CoinGroup>) -> Seq<Coin>
    decreases groups.len(),
{
    if groups.len() == 0 {
        Seq::empty()
    } else {
        all_coins(groups.drop_last()) + groups.last().coins@
    }
}

/// Selects the groups that hold the coin `coin`.
pub open spec fn holder_of(coin: Coin) -> spec_fn(CoinGroup) -> bool {
    |group: CoinGroup| group.coins@.contains(coin)
}

/// Selects the groups that are paid to by `script_pubkey`.
pub open spec fn paid_by(script_pubkey: Seq<u8>) -> spec_fn(CoinGroup) -> bool {
    |group: CoinGroup| group.script_pubkey@ == script_pubkey
}

/// Calls `ark_core::coin_select::select_vtxos` with sorting by expiry on,
/// each coin handed over with an empty script and without assets. It adds
/// up coins until the amount is reached, so it fails exactly where all coins
/// together hold less; what it selects are coins that it was given, and they
/// hold the amount at least. The outside code aborts where its running sum
/// leaves the range of an amount, so the total must stay within it.
#[verifier::external_body]
fn select_coins(candidates: &Vec<Coin>, amount: u64, dust: u64) -> (result: Result<
    Vec<Coin>,
    ark_core::Error,
>)
    requires
        total_amount(candidates@) <= u64::MAX,
    ensures
        match result {
            Ok(selected) => {
                &&& total_amount(candidates@) >= amount
                &&& total_amount(selected@) >= amount
                &&& forall|i: int|
                    0 <= i < selected@.len() ==> candidates@.contains(#[trigger] selected@[i])
            },
            Err(_) => total_amount(candidates@) < amount,
        },
{
    let coins = candidates.iter().map(|c| VirtualTxOutPoint {
        outpoint: OutPoint::new(<Txid as bitcoin::hashes::Hash>::from_byte_array(c.txid), c.vout),
        script_pubkey: ScriptBuf::new(),
        expire_at: c.expire_at,
        amount: Amount::from_sat(c.amount),
        assets: Vec::new(),
    }).collect();
    let selected = select_vtxos(coins, Amount::from_sat(amount), Amount::from_sat(dust), true)?;
    Ok(selected.iter().map(|s| Coin {
        txid: bitcoin::hashes::Hash::to_byte_array(s.outpoint.txid),
        vout: s.outpoint.vout,
        expire_at: s.expire_at,
        amount: s.amount.to_sat(),
    }).collect())
}

/// A coin among the coins of all groups is held by one of the groups.
pub proof fn lemma_coin_has_holder(groups: Seq<CoinGroup>, coin: Coin)
    requires
        all_coins(groups).contains(coin),
    ensures
        first_where(groups, holder_of(coin)) is Some,
    decreases groups.len(),
{
    crate::search::lemma_first_where(groups, holder_of(coin));
    if groups.len() > 0 {
        let front = groups.drop_last();
        let i = choose|i: int| 0 <= i < all_coins(groups).len() && all_coins(groups)[i] == coin;
        if i < all_coins(front).len() {
            assert(all_coins(front)[i] == coin);
            lemma_coin_has_holder(front, coin);
            crate::search::lemma_first_where(front, holder_of(coin));
            let g = first_where(front, holder_of(coin))->0;
            assert(front[g] == groups[g]);
            assert(holder_of(coin)(groups[g]));
        } else {
            let last = groups[groups.len() - 1];
            assert(last.coins@[i - all_coins(front).len()] == coin);
            assert(holder_of(coin)(last));
        }
    }
}

fn holds(group: &CoinGroup, coin: &Coin) -> (held: bool)
    ensures
        held == group.coins@.contains(*coin),
{
    let mut i: usize = 0;
    while i < group.coins.len()
        invariant
            i <= group.coins@.len(),
            forall|j: int| 0 <= j < i ==> group.coins@[j] != *coin,
        decreases group.coins.len() - i,
    {
        let other = &group.coins[i];
        if same_bytes(other.txid.as_slice(), coin.txid.as_slice()) && other.vout == coin.vout
            && other.expire_at == coin.expire_at && other.amount == coin.amount {
            assert(other.txid@ =~= coin.txid@);
            assert(other.txid == coin.txid);
            assert(group.coins@[i as int] == *coin);
            return true;
        }
        i += 1;
    }
    false
}

/// The first group that holds a coin.
pub fn find_owner(groups: &Vec<CoinGroup>, coin: &Coin) -> (owner: Option<usize>)
    ensures
        match owner {
            Some(g) => first_where(groups@, holder_of(*coin)) == Some(g as int),
            None => first_where(groups@, holder_of(*coin)) is None,
        },
{
    let mut g: usize = 0;
    while g < groups.len()
        invariant
            g <= groups@.len(),
            forall|j: int| 0 <= j < g ==> !holder_of(*coin)(#[trigger] groups@[j]),
        decreases groups.len() - g,
    {
        if holds(&groups[g], coin) {
            proof {
                lemma_first_where_is(groups@, holder_of(*coin), g as int);
            }
            return Some(g);
        }
        g += 1;
    }
    proof {
        lemma_first_where_none(groups@, holder_of(*coin));
    }
    None
}

/// The first group that a script pays to: the one whose key signs for an
/// input with that script.
pub fn find_signer(groups: &Vec<CoinGroup>, script_pubkey: &[u8]) -> (signer: Option<usize>)
    ensures
        match signer {
            Some(g) => first_where(groups@, paid_by(script_pubkey@)) == Some(g as int),
            None => first_where(groups@, paid_by(script_pubkey@)) is None,
        },
{
    let mut g: usize = 0;
    while g < groups.len()
        invariant
            g <= groups@.len(),
            forall|j: int| 0 <= j < g ==> !paid_by(script_pubkey@)(#[trigger] groups@[j]),
        decreases groups.len() - g,
    {
        if same_bytes(groups[g].script_pubkey.as_slice(), script_pubkey) {
            proof {
                lemma_first_where_is(groups@, paid_by(script_pubkey@), g as int);
            }
            return Some(g);
        }
        g += 1;
    }
    proof {
        lemma_first_where_none(groups@, paid_by(script_pubkey@));
    }
    None
}

/// What the selected inputs hold in all.
pub open spec fn input_total(inputs: Seq<SelectedInput>) -> nat
    decreases inputs.len(),
{
    if inputs.len() == 0 {
        0
    } else {
        input_total(inputs.drop_last()) + inputs.last().coin.amount as nat
    }
}

/// Selects the coins for a payment of `amount` satoshis from the coins of
/// the house, and names for each the group that it belongs to. Fails where
/// the coins do not hold the amount.
pub fn select_inputs(groups: &Vec<CoinGroup>, amount: u64, dust: u64) -> (result: Result<
    Vec<SelectedInput>,
    SendError,
>)
    ensures
        match result {
            Ok(inputs) => {
                &&& amount <= total_amount(all_coins(groups@)) <= u64::MAX
                &&& input_total(inputs@) >= amount
                &&& forall|k: int|
                    0 <= k < inputs@.len() ==> first_where(
                        groups@,
                        holder_of((#[trigger] inputs@[k]).coin),
                    ) == Some(inputs@[k].owner as int)
            },
            Err(SendError::InsufficientFunds) => total_amount(all_coins(groups@)) < amount,
            Err(SendError::Overflow) => total_amount(all_coins(groups@)) > u64::MAX,
        },
{
    let mut candidates: Vec<Coin> = Vec::new();
    let mut total: u64 = 0;
    let mut g: usize = 0;
    while g < groups.len()
        invariant
            g <= groups@.len(),
            candidates@ == all_coins(groups@.take(g as int)),
            total == total_amount(candidates@),
        decreases groups.len() - g,
    {
        let group = &groups[g];
        let ghost before = candidates@;
        let mut j: usize = 0;
        while j < group.coins.len()
            invariant
                j <= group.coins@.len(),
                g < groups@.len(),
                group == &groups@[g as int],
                candidates@ == before + group.coins@.take(j as int),
                total == total_amount(candidates@),
                before == all_coins(groups@.take(g as int)),
            decreases group.coins.len() - j,
        {
            let coin = group.coins[j];
            proof {
                let more = before + group.coins@.take(j + 1);
                assert(more.drop_last() =~= candidates@);
                assert(more.last() == coin);
            }
            total = match total.checked_add(coin.amount) {
                Some(sum) => sum,
                None => {
                    proof {
                        lemma_total_grows(groups@, g as int, (j + 1) as int);
                    }
                    return Err(SendError::Overflow);
                },
            };
            candidates.push(coin);
            assert(candidates@ =~= before + group.coins@.take(j + 1));
            j += 1;
        }
        proof {
            assert(group.coins@.take(j as int) =~= group.coins@);
            let upto = groups@.take(g + 1);
            assert(upto.drop_last() =~= groups@.take(g as int));
            assert(upto.last() == groups@[g as int]);
        }
        g += 1;
    }
    assert(groups@.take(g as int) =~= groups@);
    let selected = match select_coins(&candidates, amount, dust) {
        Ok(selected) => selected,
        Err(_) => {
            return Err(SendError::InsufficientFunds);
        },
    };
    let mut inputs: Vec<SelectedInput> = Vec::new();
    let mut k: usize = 0;
    while k < selected.len()
        invariant
            k <= selected@.len(),
            candidates@ == all_coins(groups@),
            forall|i: int|
                0 <= i < selected@.len() ==> candidates@.contains(#[trigger] selected@[i]),
            inputs@.len() == k,
            forall|i: int| 0 <= i < k ==> (#[trigger] inputs@[i]).coin == selected@[i],
            forall|i: int|
                0 <= i < k ==> first_where(groups@, holder_of((#[trigger] inputs@[i]).coin))
                    == Some(inputs@[i].owner as int),
        decreases selected.len() - k,
    {
        let coin = selected[k];
        proof {
            lemma_coin_has_holder(groups@, coin);
        }
        match find_owner(groups, &coin) {
            Some(owner) => {
                inputs.push(SelectedInput { coin, owner });
            },
            None => {
                assert(false);
            },
        }
        k += 1;
    }
    proof {
        lemma_same_total(inputs@, selected@);
    }
    Ok(inputs)
}

/// Inputs hold what their coins hold.
pub proof fn lemma_same_total(inputs: Seq<SelectedInput>, coins: Seq<Coin>)
    requires
        inputs.len() == coins.len(),
        forall|i: int| 0 <= i < inputs.len() ==> (#[trigger] inputs[i]).coin == coins[i],
    ensures
        input_total(inputs) == total_amount(coins),
    decreases inputs.len(),
{
    if inputs.len() > 0 {
        assert(inputs.last().coin == coins.last());
        assert forall|i: int| 0 <= i < inputs.drop_last().len() implies (
        #[trigger] inputs.drop_last()[i]).coin == coins.drop_last()[i] by {
            assert(inputs.drop_last()[i] == inputs[i]);
        }
        lemma_same_total(inputs.drop_last(), coins.drop_last());
    }
}

/// The coins of the first groups and the first coins of the next group
/// never hold more than all coins together.
pub proof fn lemma_total_grows(groups: Seq<CoinGroup>, g: int, j: int)
    requires
        0 <= g < groups.len(),
        0 <= j <= groups[g].coins@.len(),
    ensures
        total_amount(all_coins(groups.take(g)) + groups[g].coins@.take(j)) <= total_amount(
            all_coins(groups),
        ),
{
    let head = all_coins(groups.take(g)) + groups[g].coins@.take(j);
    let rest = groups[g].coins@.skip(j);
    assert(groups.take(g + 1).drop_last() =~= groups.take(g));
    assert(groups.take(g + 1).last() == groups[g]);
    assert(all_coins(groups.take(g + 1)) =~= head + rest);
    lemma_total_of_concat(head, rest);
    lemma_prefix_total(groups, g + 1);
}

/// What two lists of coins hold together is the sum of what each holds.
pub proof fn lemma_total_of_concat(first: Seq<Coin>, second: Seq<Coin>)
    ensures
        total_amount(first + second) == total_amount(first) + total_amount(second),
    decreases second.len(),
{
    if second.len() == 0 {
        assert(first + second =~= first);
    } else {
        assert((first + second).drop_last() =~= first + second.drop_last());
        assert((first + second).last() == second.last());
        lemma_total_of_concat(first, second.drop_last());
    }
}

/// The coins of the first groups never hold more than all coins together.
pub proof fn lemma_prefix_total(groups: Seq<CoinGroup>, n: int)
    requires
        0 <= n <= groups.len(),
    ensures
        total_amount(all_coins(groups.take(n))) <= total_amount(all_coins(groups)),
    decreases groups.len() - n,
{
    if n == groups.len() {
        assert(groups.take(n) =~= groups);
    } else {
        lemma_prefix_total(groups, n + 1);
        assert(groups.take(n + 1).drop_last() =~= groups.take(n));
        lemma_total_of_concat(all_coins(groups.take(n)), groups[n].coins@);
    }
}

} // verus!
