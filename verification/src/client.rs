//! What the house sees of the Ark network: its own addresses, the deposits
//! that arrive at them and the coins it can spend.

pub mod parents;
pub mod send_vtxo;

use crate::games::GameType;
use crate::key_derivation::Multiplier;
use crate::search::first_where;
use crate::search::lemma_first_where_is;
use crate::search::lemma_first_where_none;
use crate::text::same_bytes;
use crate::text::same_text;
use vstd::prelude::*;
use vstd::string::*;

verus! {

/// The house's funds in satoshis, by where they are and what state they are in.
#[derive(Debug, Clone, Copy, PartialEq, Eq, Structural)]
pub struct Balance {
    pub offchain_spendable: u64,
    pub offchain_expired: u64,
    pub boarding_spendable: u64,
    pub boarding_expired: u64,
    pub boarding_pending: u64,
}

/// A deposit that the network reports: an output of the transaction `txid`
/// that pays `amount` satoshis to `script_pubkey`.
#[derive(Debug)]
pub struct SubscriptionEvent {
    pub txid: String,
    pub vout: u32,
    pub amount: u64,
    pub script_pubkey: Vec<u8>,
}

/// An output held on the Ark layer, as the server lists it.
#[derive(Debug)]
pub struct VtxoOutPoint {
    pub txid: String,
    pub vout: u32,
    pub amount: u64,
    pub script: Vec<u8>,
    pub expires_at: i64,
    pub is_recoverable: bool,
}

/// The address of one game: its encoded form and the two scripts that pay
/// to it, the usual one and the one for amounts below the dust limit.
#[derive(Debug)]
pub struct GameArkAddress {
    pub game_type: GameType,
    pub multiplier: Multiplier,
    pub address: String,
    pub p2tr_script_pubkey: Vec<u8>,
    pub sub_dust_script_pubkey: Vec<u8>,
}

impl GameArkAddress {
    /// Whether `script` is one of the two scripts of this address.
    pub open spec fn owns(&self, script: Seq<u8>) -> bool {
        self.p2tr_script_pubkey@ == script || self.sub_dust_script_pubkey@ == script
    }

    /// Whether `script` is one of the two scripts of this address.
    pub fn has_script(&self, script: &[u8]) -> (owned: bool)
        ensures
            owned == self.owns(script@),
    {
        same_bytes(self.p2tr_script_pubkey.as_slice(), script) || same_bytes(
            self.sub_dust_script_pubkey.as_slice(),
            script,
        )
    }
}

/// Selects the address whose encoded form is `address`.
pub open spec fn encoded_as(address: Seq<char>) -> spec_fn(GameArkAddress) -> bool {
    |entry: GameArkAddress| entry.address@ == address
}

/// Selects the addresses one of whose scripts is `script`.
pub open spec fn owner_of(script: Seq<u8>) -> spec_fn(GameArkAddress) -> bool {
    |entry: GameArkAddress| entry.owns(script)
}

/// The game and the multiplier of the address at a position that was found.
pub open spec fn game_at(addresses: Seq<GameArkAddress>, found: Option<int>) -> Option<
    (GameType, Multiplier),
> {
    match found {
        Some(i) => Some((addresses[i].game_type, addresses[i].multiplier)),
        None => None,
    }
}

fn find_game_info(addresses: &Vec<GameArkAddress>, address: &str) -> (found: Option<
    (GameType, Multiplier),
>)
    ensures
        found == game_at(addresses@, first_where(addresses@, encoded_as(address@))),
{
    let mut i: usize = 0;
    while i < addresses.len()
        invariant
            i <= addresses@.len(),
            forall|j: int| 0 <= j < i ==> !encoded_as(address@)(#[trigger] addresses@[j]),
        decreases addresses.len() - i,
    {
        let entry = &addresses[i];
        if same_text(entry.address.as_str(), address) {
            proof {
                lemma_first_where_is(addresses@, encoded_as(address@), i as int);
            }
            return Some((entry.game_type, entry.multiplier));
        }
        i += 1;
    }
    proof {
        lemma_first_where_none(addresses@, encoded_as(address@));
    }
    None
}

/// The game whose address a script belongs to, in either of its two forms:
/// that of the first game address that owns the script.
pub fn find_game_for_script(addresses: &Vec<GameArkAddress>, script: &[u8]) -> (found: Option<
    (GameType, Multiplier),
>)
    ensures
        found == game_at(addresses@, first_where(addresses@, owner_of(script@))),
{
    let mut i: usize = 0;
    while i < addresses.len()
        invariant
            i <= addresses@.len(),
            forall|j: int| 0 <= j < i ==> !owner_of(script@)(#[trigger] addresses@[j]),
        decreases addresses.len() - i,
    {
        let entry = &addresses[i];
        if entry.has_script(script) {
            proof {
                lemma_first_where_is(addresses@, owner_of(script@), i as int);
            }
            return Some((entry.game_type, entry.multiplier));
        }
        i += 1;
    }
    proof {
        lemma_first_where_none(addresses@, owner_of(script@));
    }
    None
}

/// The house as it stands on the Ark network: its addresses and the dust
/// limit of the server it talks to.
#[derive(Debug)]
pub struct ArkClient {
    main_address: String,
    boarding_address: String,
    dust: u64,
    game_addresses: Vec<GameArkAddress>,
}

/// The deposit that an output is reported as.
pub open spec fn reports(event: SubscriptionEvent, vtxo: VtxoOutPoint) -> bool {
    &&& event.txid@ == vtxo.txid@
    &&& event.vout == vtxo.vout
    &&& event.amount == vtxo.amount
    &&& event.script_pubkey@ == vtxo.script@
}

/// How many of `addresses` own `script`.
pub open spec fn owners(addresses: Seq<GameArkAddress>, script: Seq<u8>) -> nat
    decreases addresses.len(),
{
    if addresses.len() == 0 {
        0
    } else {
        owners(addresses.drop_last(), script) + if addresses.last().owns(script) {
            1nat
        } else {
            0nat
        }
    }
}

fn copy_bytes(bytes: &Vec<u8>) -> (copy: Vec<u8>)
    ensures
        copy@ == bytes@,
{
    let mut copy: Vec<u8> = Vec::new();
    let mut i: usize = 0;
    while i < bytes.len()
        invariant
            i <= bytes@.len(),
            copy@ == bytes@.take(i as int),
        decreases bytes.len() - i,
    {
        copy.push(bytes[i]);
        assert(copy@ =~= bytes@.take(i + 1));
        i += 1;
    }
    assert(bytes@.take(i as int) =~= bytes@);
    copy
}

impl ArkClient {
    /// The house's main address.
    pub closed spec fn address(&self) -> Seq<char> {
        self.main_address@
    }

    /// The address that funds are boarded at.
    pub closed spec fn boarding(&self) -> Seq<char> {
        self.boarding_address@
    }

    /// The dust limit of the server.
    pub closed spec fn dust_limit(&self) -> u64 {
        self.dust
    }

    /// The game addresses, in the order in which they were given.
    pub closed spec fn games(&self) -> Seq<GameArkAddress> {
        self.game_addresses@
    }

    pub fn new(
        main_address: String,
        boarding_address: String,
        dust: u64,
        game_addresses: Vec<GameArkAddress>,
    ) -> (client: ArkClient)
        ensures
            client.address() == main_address@,
            client.boarding() == boarding_address@,
            client.dust_limit() == dust,
            client.games() == game_addresses@,
    {
        ArkClient { main_address, boarding_address, dust, game_addresses }
    }

    pub fn get_address(&self) -> (address: String)
        ensures
            address@ == self.address(),
    {
        self.main_address.clone()
    }

    pub fn get_boarding_address(&self) -> (address: String)
        ensures
            address@ == self.boarding(),
    {
        self.boarding_address.clone()
    }

    pub fn dust_value(&self) -> (dust: u64)
        ensures
            dust == self.dust_limit(),
    {
        self.dust
    }

    /// The game addresses as they are held.
    pub fn game_addresses(&self) -> (addresses: &Vec<GameArkAddress>)
        ensures
            addresses@ == self.games(),
    {
        &self.game_addresses
    }

    /// Every game address with its game and its multiplier.
    pub fn get_game_addresses(&self) -> (listed: Vec<(GameType, Multiplier, String)>)
        ensures
            listed@.len() == self.games().len(),
            forall|i: int|
                0 <= i < listed@.len() ==> {
                    &&& (#[trigger] listed@[i]).0 == self.games()[i].game_type
                    &&& listed@[i].1 == self.games()[i].multiplier
                    &&& listed@[i].2@ == self.games()[i].address@
                },
    {
        let mut listed: Vec<(GameType, Multiplier, String)> = Vec::new();
        let mut i: usize = 0;
        while i < self.game_addresses.len()
            invariant
                i <= self.game_addresses@.len(),
                listed@.len() == i,
                forall|j: int|
                    0 <= j < i ==> {
                        &&& (#[trigger] listed@[j]).0 == self.games()[j].game_type
                        &&& listed@[j].1 == self.games()[j].multiplier
                        &&& listed@[j].2@ == self.games()[j].address@
                    },
            decreases self.game_addresses.len() - i,
        {
            let entry = &self.game_addresses[i];
            listed.push((entry.game_type, entry.multiplier, entry.address.clone()));
            i += 1;
        }
        listed
    }

    /// Every game address with its multiplier.
    pub fn get_game_addresses_legacy(&self) -> (listed: Vec<(Multiplier, String)>)
        ensures
            listed@.len() == self.games().len(),
            forall|i: int|
                0 <= i < listed@.len() ==> {
                    &&& (#[trigger] listed@[i]).0 == self.games()[i].multiplier
                    &&& listed@[i].1@ == self.games()[i].address@
                },
    {
        let mut listed: Vec<(Multiplier, String)> = Vec::new();
        let mut i: usize = 0;
        while i < self.game_addresses.len()
            invariant
                i <= self.game_addresses@.len(),
                listed@.len() == i,
                forall|j: int|
                    0 <= j < i ==> {
                        &&& (#[trigger] listed@[j]).0 == self.games()[j].multiplier
                        &&& listed@[j].1@ == self.games()[j].address@
                    },
            decreases self.game_addresses.len() - i,
        {
            let entry = &self.game_addresses[i];
            listed.push((entry.multiplier, entry.address.clone()));
            i += 1;
        }
        listed
    }

    /// The game and the multiplier that an encoded address stands for.
    pub fn find_game_info(&self, address: &str) -> (found: Option<(GameType, Multiplier)>)
        ensures
            found == game_at(self.games(), first_where(self.games(), encoded_as(address@))),
    {
        find_game_info(&self.game_addresses, address)
    }

    /// The deposits that a new output is reported as: one for every game
    /// address that owns its script, in either form.
    pub fn events_for(&self, vtxo: &VtxoOutPoint) -> (events: Vec<SubscriptionEvent>)
        ensures
            events@.len() == owners(self.games(), vtxo.script@),
            forall|i: int| 0 <= i < events@.len() ==> reports(#[trigger] events@[i], *vtxo),
    {
        let mut events: Vec<SubscriptionEvent> = Vec::new();
        let mut i: usize = 0;
        while i < self.game_addresses.len()
            invariant
                i <= self.game_addresses@.len(),
                events@.len() == owners(self.games().take(i as int), vtxo.script@),
                forall|j: int| 0 <= j < events@.len() ==> reports(#[trigger] events@[j], *vtxo),
            decreases self.game_addresses.len() - i,
        {
            proof {
                let upto = self.games().take(i + 1);
                assert(upto.drop_last() =~= self.games().take(i as int));
                assert(upto.last() == self.games()[i as int]);
            }
            if self.game_addresses[i].has_script(vtxo.script.as_slice()) {
                events.push(
                    SubscriptionEvent {
                        txid: vtxo.txid.clone(),
                        vout: vtxo.vout,
                        amount: vtxo.amount,
                        script_pubkey: copy_bytes(&vtxo.script),
                    },
                );
            }
            i += 1;
        }
        assert(self.games().take(i as int) =~= self.games());
        events
    }
}

} // verus!
