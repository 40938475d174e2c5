//! The multipliers a player can bet on, and the keys derived for them.

use std::str::FromStr;
use vstd::prelude::*;
use vstd::string::*;

verus! {

#[verifier::external_type_specification]
#[verifier::external_body]
pub struct ExFromHexError(hex::FromHexError);

#[verifier::external_type_specification]
#[verifier::external_body]
pub struct ExBip32Error(bitcoin::bip32::Error);

/// The payout ratios offered by the house.
#[derive(Debug, Clone, Copy, PartialEq, Eq, Hash, Structural)]
pub enum Multiplier {
    X105,
    X110,
    X133,
    X150,
    X200,
    X300,
    X1000,
    X2500,
    X5000,
    X10000,
    X100000,
}

impl Multiplier {
    /// Payout per hundred units bet.
    pub open spec fn ratio(self) -> nat {
        match self {
            Multiplier::X105 => 105,
            Multiplier::X110 => 110,
            Multiplier::X133 => 133,
            Multiplier::X150 => 150,
            Multiplier::X200 => 200,
            Multiplier::X300 => 300,
            Multiplier::X1000 => 1000,
            Multiplier::X2500 => 2500,
            Multiplier::X5000 => 5000,
            Multiplier::X10000 => 10000,
            Multiplier::X100000 => 100000,
        }
    }

    /// Position among the multipliers, used as the last step of the key path.
    pub open spec fn code(self) -> nat {
        match self {
            Multiplier::X105 => 0,
            Multiplier::X110 => 1,
            Multiplier::X133 => 2,
            Multiplier::X150 => 3,
            Multiplier::X200 => 4,
            Multiplier::X300 => 5,
            Multiplier::X1000 => 6,
            Multiplier::X2500 => 7,
            Multiplier::X5000 => 8,
            Multiplier::X10000 => 9,
            Multiplier::X100000 => 10,
        }
    }

    /// A roll wins when it is strictly below this bound; rolls range over `[0, 65536)`.
    pub open spec fn threshold(self) -> nat {
        match self {
            Multiplier::X105 => 60_541,
            Multiplier::X110 => 57_789,
            Multiplier::X133 => 47_796,
            Multiplier::X150 => 42_379,
            Multiplier::X200 => 31_784,
            Multiplier::X300 => 21_189,
            Multiplier::X1000 => 6_356,
            Multiplier::X2500 => 2_542,
            Multiplier::X5000 => 1_271,
            Multiplier::X10000 => 635,
            Multiplier::X100000 => 64,
        }
    }

    /// The multipliers in ascending order of ratio.
    pub open spec fn listing() -> Seq<Multiplier> {
        seq![
            Multiplier::X105,
            Multiplier::X110,
            Multiplier::X133,
            Multiplier::X150,
            Multiplier::X200,
            Multiplier::X300,
            Multiplier::X1000,
            Multiplier::X2500,
            Multiplier::X5000,
            Multiplier::X10000,
            Multiplier::X100000,
        ]
    }

    /// The multiplier as it is shown: with two decimals below two, and as a
    /// whole number from two on.
    pub open spec fn shown(self) -> Seq<char> {
        match self {
            Multiplier::X105 => "1.05x"@,
            Multiplier::X110 => "1.10x"@,
            Multiplier::X133 => "1.33x"@,
            Multiplier::X150 => "1.50x"@,
            Multiplier::X200 => "2x"@,
            Multiplier::X300 => "3x"@,
            Multiplier::X1000 => "10x"@,
            Multiplier::X2500 => "25x"@,
            Multiplier::X5000 => "50x"@,
            Multiplier::X10000 => "100x"@,
            Multiplier::X100000 => "1000x"@,
        }
    }

    /// The multiplier as it is shown.
    pub fn display(&self) -> (text: String)
        ensures
            text@ == self.shown(),
    {
        match self {
            Multiplier::X105 => "1.05x".to_owned(),
            Multiplier::X110 => "1.10x".to_owned(),
            Multiplier::X133 => "1.33x".to_owned(),
            Multiplier::X150 => "1.50x".to_owned(),
            Multiplier::X200 => "2x".to_owned(),
            Multiplier::X300 => "3x".to_owned(),
            Multiplier::X1000 => "10x".to_owned(),
            Multiplier::X2500 => "25x".to_owned(),
            Multiplier::X5000 => "50x".to_owned(),
            Multiplier::X10000 => "100x".to_owned(),
            Multiplier::X100000 => "1000x".to_owned(),
        }
    }

    pub fn multiplier(&self) -> (value: u64)
        ensures
            value == self.ratio(),
    {
        match self {
            Multiplier::X105 => 105,
            Multiplier::X110 => 110,
            Multiplier::X133 => 133,
            Multiplier::X150 => 150,
            Multiplier::X200 => 200,
            Multiplier::X300 => 300,
            Multiplier::X1000 => 1000,
            Multiplier::X2500 => 2500,
            Multiplier::X5000 => 5000,
            Multiplier::X10000 => 10000,
            Multiplier::X100000 => 100000,
        }
    }

    pub fn index(&self) -> (position: u32)
        ensures
            position == self.code(),
    {
        match self {
            Multiplier::X105 => 0,
            Multiplier::X110 => 1,
            Multiplier::X133 => 2,
            Multiplier::X150 => 3,
            Multiplier::X200 => 4,
            Multiplier::X300 => 5,
            Multiplier::X1000 => 6,
            Multiplier::X2500 => 7,
            Multiplier::X5000 => 8,
            Multiplier::X10000 => 9,
            Multiplier::X100000 => 10,
        }
    }

    pub fn get_lower_than(&self) -> (bound: u16)
        ensures
            bound == self.threshold(),
    {
        match self {
            Multiplier::X105 => 60_541,
            Multiplier::X110 => 57_789,
            Multiplier::X133 => 47_796,
            Multiplier::X150 => 42_379,
            Multiplier::X200 => 31_784,
            Multiplier::X300 => 21_189,
            Multiplier::X1000 => 6_356,
            Multiplier::X2500 => 2_542,
            Multiplier::X5000 => 1_271,
            Multiplier::X10000 => 635,
            Multiplier::X100000 => 64,
        }
    }

    pub fn is_win(&self, rolled_number: u16) -> (win: bool)
        ensures
            win == (rolled_number < self.threshold()),
    {
        rolled_number < self.get_lower_than()
    }

    pub fn from_index(index: u32) -> (found: Option<Multiplier>)
        ensures
            match found {
                Some(m) => m.code() == index,
                None => forall|m: Multiplier| m.code() != index,
            },
    {
        match index {
            0 => Some(Multiplier::X105),
            1 => Some(Multiplier::X110),
            2 => Some(Multiplier::X133),
            3 => Some(Multiplier::X150),
            4 => Some(Multiplier::X200),
            5 => Some(Multiplier::X300),
            6 => Some(Multiplier::X1000),
            7 => Some(Multiplier::X2500),
            8 => Some(Multiplier::X5000),
            9 => Some(Multiplier::X10000),
            10 => Some(Multiplier::X100000),
            _ => None,
        }
    }

    pub fn all() -> (every: Vec<Multiplier>)
        ensures
            every@ == Multiplier::listing(),
    {
        let mut every: Vec<Multiplier> = Vec::new();
        every.push(Multiplier::X105);
        every.push(Multiplier::X110);
        every.push(Multiplier::X133);
        every.push(Multiplier::X150);
        every.push(Multiplier::X200);
        every.push(Multiplier::X300);
        every.push(Multiplier::X1000);
        every.push(Multiplier::X2500);
        every.push(Multiplier::X5000);
        every.push(Multiplier::X10000);
        every.push(Multiplier::X100000);
        assert(every@ =~= Multiplier::listing());
        every
    }

    pub fn from_value(value: u64) -> (found: Option<Multiplier>)
        ensures
            match found {
                Some(m) => m.ratio() == value,
                None => forall|m: Multiplier| m.ratio() != value,
            },
    {
        match value {
            105 => Some(Multiplier::X105),
            110 => Some(Multiplier::X110),
            133 => Some(Multiplier::X133),
            150 => Some(Multiplier::X150),
            200 => Some(Multiplier::X200),
            300 => Some(Multiplier::X300),
            1000 => Some(Multiplier::X1000),
            2500 => Some(Multiplier::X2500),
            5000 => Some(Multiplier::X5000),
            10000 => Some(Multiplier::X10000),
            100000 => Some(Multiplier::X100000),
            _ => None,
        }
    }
}

/// The value of a hexadecimal digit given as a byte of text, in either case.
pub open spec fn hex_value(c: u8) -> Option<int> {
    if 48 <= c <= 57 {
        Some(c - 48)
    } else if 97 <= c <= 102 {
        Some(c - 87)
    } else if 65 <= c <= 70 {
        Some(c - 55)
    } else {
        None
    }
}

/// Whether a text is a sequence of hexadecimal digit pairs.
pub open spec fn is_hex(text: Seq<u8>) -> bool {
    &&& text.len() % 2 == 0
    &&& forall|i: int| 0 <= i < text.len() ==> hex_value(#[trigger] text[i]) is Some
}

/// The bytes that a sequence of hexadecimal digit pairs stands for, high
/// digit first.
pub open spec fn unhex(text: Seq<u8>) -> Seq<u8> {
    Seq::new(
        text.len() / 2,
        |i: int| (hex_value(text[2 * i])->0 * 16 + hex_value(text[2 * i + 1])->0) as u8,
    )
}

/// The master key that BIP-32 derives from a seed, in its 78-byte
/// serialization, as `bitcoin::bip32::Xpriv::new_master` computes it; nothing
/// where it computes none.
pub uninterp spec fn bip32_master(mainnet: bool, seed: Seq<u8>) -> Option<Seq<u8>>;

/// The key that BIP-32 derives from a serialized extended private key along
/// a path, serialized again, as `bitcoin::bip32::Xpriv::derive_priv`
/// computes it; nothing where the key cannot be read or no key is derived.
pub uninterp spec fn bip32_derive(key: Seq<u8>, path: Seq<u32>) -> Option<Seq<u8>>;

/// The extended private key that a text in Base58Check stands for, in its
/// 78-byte serialization, as `bitcoin::bip32::Xpriv::from_str` reads it;
/// nothing where it reads none.
pub uninterp spec fn bip32_parse(text: Seq<char>) -> Option<Seq<u8>>;

/// Calls `hex::decode`. It accepts a text of even length made of the digits
/// `0-9`, `a-f` and `A-F`, and hands back one byte for each pair of digits,
/// the first digit of a pair being the high one; any other text is an error.
#[verifier::external_body]
fn hex_decode(text: &str) -> (result: Result<Vec<u8>, hex::FromHexError>)
    ensures
        match result {
            Ok(bytes) => is_hex(text.spec_bytes()) && bytes@ == unhex(text.spec_bytes()),
            Err(_) => !is_hex(text.spec_bytes()),
        },
{
    hex::decode(text)
}

/// Calls `bitcoin::bip32::Xpriv::new_master` and serializes the key with
/// `Xpriv::encode`, which gives 78 bytes. The key depends on the network
/// kind and the seed alone.
#[verifier::external_body]
fn xpriv_new_master(mainnet: bool, seed: &[u8]) -> (result: Result<Vec<u8>, bitcoin::bip32::Error>)
    ensures
        match result {
            Ok(key) => bip32_master(mainnet, seed@) == Some(key@) && key@.len() == 78,
            Err(_) => bip32_master(mainnet, seed@) is None,
        },
{
    let kind = if mainnet {
        bitcoin::NetworkKind::Main
    } else {
        bitcoin::NetworkKind::Test
    };
    bitcoin::bip32::Xpriv::new_master(kind, seed).map(|key| key.encode().to_vec())
}

/// Reads a serialized key with `bitcoin::bip32::Xpriv::decode`, calls
/// `Xpriv::derive_priv` with each step of the path turned into a child
/// number by `ChildNumber::from`, and serializes the result with
/// `Xpriv::encode`, which gives 78 bytes. The result depends on the key and
/// the path alone. The outside code aborts where an intermediate hash is no
/// valid key, which it documents as statistically impossible.
#[verifier::external_body]
fn xpriv_derive(key: &[u8], path: &[u32]) -> (result: Result<Vec<u8>, bitcoin::bip32::Error>)
    ensures
        match result {
            Ok(child) => bip32_derive(key@, path@) == Some(child@) && child@.len() == 78,
            Err(_) => bip32_derive(key@, path@) is None,
        },
{
    let parent = bitcoin::bip32::Xpriv::decode(key)?;
    let steps: Vec<bitcoin::bip32::ChildNumber> = path.iter().map(
        |step| bitcoin::bip32::ChildNumber::from(*step),
    ).collect();
    let secp = bitcoin::secp256k1::Secp256k1::new();
    parent.derive_priv(&secp, &steps).map(|child| child.encode().to_vec())
}

/// Calls `bitcoin::bip32::Xpriv::from_str` and serializes the key with
/// `Xpriv::encode`, which gives 78 bytes. The key depends on the text alone.
#[verifier::external_body]
fn xpriv_from_str(text: &str) -> (result: Result<Vec<u8>, bitcoin::bip32::Error>)
    ensures
        match result {
            Ok(key) => bip32_parse(text@) == Some(key@) && key@.len() == 78,
            Err(_) => bip32_parse(text@) is None,
        },
{
    bitcoin::bip32::Xpriv::from_str(text).map(|key| key.encode().to_vec())
}

/// The networks a key can be made for.
#[derive(Debug, Clone, Copy, PartialEq, Eq, Hash, Structural)]
pub enum Network {
    Bitcoin,
    Testnet,
    Testnet4,
    Signet,
    Regtest,
}

impl Network {
    /// Whether keys for this network carry the version of the main network.
    pub open spec fn mainnet(self) -> bool {
        self == Network::Bitcoin
    }

    /// Whether keys for this network carry the version of the main network.
    pub fn is_mainnet(&self) -> (mainnet: bool)
        ensures
            mainnet == self.mainnet(),
    {
        match self {
            Network::Bitcoin => true,
            _ => false,
        }
    }
}

/// Why a key could not be had.
#[derive(Debug, Clone, Copy, PartialEq, Eq, Structural)]
pub enum KeyError {
    /// The text is no extended private key.
    InvalidMasterKey,
    /// The seed is not written in hexadecimal.
    InvalidHexSeed,
    /// The seed is not 32 bytes long.
    SeedLength,
    /// No master key comes of the seed.
    MasterKey,
    /// No key comes of the path.
    Derivation,
}

/// An extended private key in its BIP-32 serialization: four bytes of
/// version, the depth, four bytes of the parent's fingerprint, four bytes of
/// child number, 32 bytes of chain code, a zero byte and the 32 bytes of
/// the secret key.
#[derive(Debug)]
pub struct ExtendedKey {
    pub encoded: Vec<u8>,
}

impl ExtendedKey {
    /// Whether the key has the length of a serialized key.
    pub open spec fn wf(&self) -> bool {
        self.encoded@.len() == 78
    }

    /// The secret key: the last 32 bytes of the serialization.
    pub open spec fn secret(&self) -> Seq<u8> {
        self.encoded@.subrange(46, 78)
    }

    /// The secret key.
    pub fn secret_bytes(&self) -> (secret: [u8; 32])
        requires
            self.wf(),
        ensures
            secret@ == self.secret(),
    {
        let mut secret: [u8; 32] = [0u8; 32];
        let mut i: usize = 0;
        while i < 32
            invariant
                i <= 32,
                self.encoded@.len() == 78,
                forall|j: int| 0 <= j < i ==> secret@[j] == self.encoded@[46 + j],
            decreases 32 - i,
        {
            secret[i] = self.encoded[46 + i];
            i += 1;
        }
        assert(secret@ =~= self.secret());
        secret
    }
}

/// The bit that marks a step of a path as hardened.
pub const HARDENED: u32 = 0x8000_0000;

/// The path of the house's main key, `m/84'/0'/0'/0/0`.
pub open spec fn main_path() -> Seq<u32> {
    seq![(HARDENED + 84) as u32, HARDENED, HARDENED, 0u32, 0u32]
}

/// The path of the key of a multiplier, `m/84'/0'/0'/1/i` with `i` the
/// position of the multiplier.
pub open spec fn game_path(multiplier: Multiplier) -> Seq<u32> {
    seq![(HARDENED + 84) as u32, HARDENED, HARDENED, 1u32, multiplier.code() as u32]
}

/// What deriving along a path comes to: the key, or the error that none
/// comes of the path.
pub open spec fn derived(master: Seq<u8>, path: Seq<u32>) -> Result<Seq<u8>, KeyError> {
    match bip32_derive(master, path) {
        Some(key) => Ok(key),
        None => Err(KeyError::Derivation),
    }
}

/// What making a master key of a seed written in hexadecimal comes to.
pub open spec fn master_of_seed(seed_hex: Seq<u8>, mainnet: bool) -> Result<Seq<u8>, KeyError> {
    if !is_hex(seed_hex) {
        Err(KeyError::InvalidHexSeed)
    } else if unhex(seed_hex).len() != 32 {
        Err(KeyError::SeedLength)
    } else {
        match bip32_master(mainnet, unhex(seed_hex)) {
            Some(key) => Ok(key),
            None => Err(KeyError::MasterKey),
        }
    }
}

/// The keys of the house, all derived from one master key.
#[derive(Debug)]
pub struct KeyDerivation {
    master_key: ExtendedKey,
}

impl KeyDerivation {
    /// The serialized master key.
    pub closed spec fn master(&self) -> Seq<u8> {
        self.master_key.encoded@
    }

    /// Reads the master key from its Base58Check text.
    pub fn new(master_xpriv: &str) -> (result: Result<KeyDerivation, KeyError>)
        ensures
            match result {
                Ok(keys) => bip32_parse(master_xpriv@) == Some(keys.master()),
                Err(error) => error == KeyError::InvalidMasterKey && bip32_parse(master_xpriv@)
                    is None,
            },
    {
        match xpriv_from_str(master_xpriv) {
            Ok(encoded) => Ok(KeyDerivation { master_key: ExtendedKey { encoded } }),
            Err(_) => Err(KeyError::InvalidMasterKey),
        }
    }

    /// Makes the master key of a seed of 32 bytes written in hexadecimal.
    pub fn from_seed(seed_hex: &str, network: Network) -> (result: Result<KeyDerivation, KeyError>)
        ensures
            match result {
                Ok(keys) => master_of_seed(seed_hex.spec_bytes(), network.mainnet()) == Ok::<
                    Seq<u8>,
                    KeyError,
                >(keys.master()),
                Err(error) => master_of_seed(seed_hex.spec_bytes(), network.mainnet()) == Err::<
                    Seq<u8>,
                    KeyError,
                >(error),
            },
    {
        let seed_bytes = match hex_decode(seed_hex) {
            Ok(bytes) => bytes,
            Err(_) => {
                return Err(KeyError::InvalidHexSeed);
            },
        };
        if seed_bytes.len() != 32 {
            return Err(KeyError::SeedLength);
        }
        match xpriv_new_master(network.is_mainnet(), seed_bytes.as_slice()) {
            Ok(encoded) => Ok(KeyDerivation { master_key: ExtendedKey { encoded } }),
            Err(_) => Err(KeyError::MasterKey),
        }
    }

    fn derive(&self, path: &Vec<u32>) -> (result: Result<ExtendedKey, KeyError>)
        ensures
            match result {
                Ok(key) => derived(self.master(), path@) == Ok::<Seq<u8>, KeyError>(key.encoded@)
                    && key.wf(),
                Err(error) => derived(self.master(), path@) == Err::<Seq<u8>, KeyError>(error),
            },
    {
        match xpriv_derive(self.master_key.encoded.as_slice(), path.as_slice()) {
            Ok(encoded) => Ok(ExtendedKey { encoded }),
            Err(_) => Err(KeyError::Derivation),
        }
    }

    /// The house's main key, at `m/84'/0'/0'/0/0`.
    pub fn get_main_key(&self) -> (result: Result<ExtendedKey, KeyError>)
        ensures
            match result {
                Ok(key) => derived(self.master(), main_path()) == Ok::<Seq<u8>, KeyError>(
                    key.encoded@,
                ) && key.wf(),
                Err(error) => derived(self.master(), main_path()) == Err::<Seq<u8>, KeyError>(
                    error,
                ),
            },
    {
        let mut path: Vec<u32> = Vec::new();
        path.push(HARDENED + 84);
        path.push(HARDENED);
        path.push(HARDENED);
        path.push(0);
        path.push(0);
        assert(path@ =~= main_path());
        self.derive(&path)
    }

    /// The key of a multiplier, at `m/84'/0'/0'/1/i`.
    pub fn get_game_key(&self, multiplier: Multiplier) -> (result: Result<ExtendedKey, KeyError>)
        ensures
            match result {
                Ok(key) => derived(self.master(), game_path(multiplier)) == Ok::<
                    Seq<u8>,
                    KeyError,
                >(key.encoded@) && key.wf(),
                Err(error) => derived(self.master(), game_path(multiplier)) == Err::<
                    Seq<u8>,
                    KeyError,
                >(error),
            },
    {
        let mut path: Vec<u32> = Vec::new();
        path.push(HARDENED + 84);
        path.push(HARDENED);
        path.push(HARDENED);
        path.push(1);
        path.push(multiplier.index());
        assert(path@ =~= game_path(multiplier));
        self.derive(&path)
    }

    /// The keys of all multipliers, in the order of the multipliers. Fails
    /// where any of them cannot be derived.
    pub fn get_all_game_keys(&self) -> (result: Result<Vec<(Multiplier, ExtendedKey)>, KeyError>)
        ensures
            match result {
                Ok(keys) => {
                    &&& keys@.len() == Multiplier::listing().len()
                    &&& forall|i: int|
                        0 <= i < keys@.len() ==> {
                            &&& (#[trigger] keys@[i]).0 == Multiplier::listing()[i]
                            &&& keys@[i].1.wf()
                            &&& derived(self.master(), game_path(Multiplier::listing()[i])) == Ok::<
                                Seq<u8>,
                                KeyError,
                            >(keys@[i].1.encoded@)
                        }
                },
                Err(error) => error == KeyError::Derivation && exists|i: int|
                    0 <= i < Multiplier::listing().len() && derived(
                        self.master(),
                        #[trigger] game_path(Multiplier::listing()[i]),
                    ) is Err,
            },
    {
        let multipliers = Multiplier::all();
        let mut keys: Vec<(Multiplier, ExtendedKey)> = Vec::new();
        let mut i: usize = 0;
        while i < multipliers.len()
            invariant
                i <= multipliers@.len(),
                multipliers@ == Multiplier::listing(),
                keys@.len() == i,
                forall|j: int|
                    0 <= j < i ==> {
                        &&& (#[trigger] keys@[j]).0 == Multiplier::listing()[j]
                        &&& keys@[j].1.wf()
                        &&& derived(self.master(), game_path(Multiplier::listing()[j])) == Ok::<
                            Seq<u8>,
                            KeyError,
                        >(keys@[j].1.encoded@)
                    },
            decreases multipliers.len() - i,
        {
            let multiplier = multipliers[i];
            match self.get_game_key(multiplier) {
                Ok(key) => {
                    keys.push((multiplier, key));
                },
                Err(error) => {
                    assert(derived(self.master(), game_path(Multiplier::listing()[i as int]))
                        is Err);
                    return Err(error);
                },
            }
            i += 1;
        }
        Ok(keys)
    }

    /// The secret key of a multiplier.
    pub fn get_game_secret_key(&self, multiplier: Multiplier) -> (result: Result<[u8; 32], KeyError>)
        ensures
            match result {
                Ok(secret) => derived(self.master(), game_path(multiplier)) matches Ok(key)
                    && secret@ == key.subrange(46, 78),
                Err(error) => derived(self.master(), game_path(multiplier)) == Err::<
                    Seq<u8>,
                    KeyError,
                >(error),
            },
    {
        match self.get_game_key(multiplier) {
            Ok(key) => Ok(key.secret_bytes()),
            Err(error) => Err(error),
        }
    }

    /// The house's main secret key.
    pub fn get_main_secret_key(&self) -> (result: Result<[u8; 32], KeyError>)
        ensures
            match result {
                Ok(secret) => derived(self.master(), main_path()) matches Ok(key) && secret@
                    == key.subrange(46, 78),
                Err(error) => derived(self.master(), main_path()) == Err::<Seq<u8>, KeyError>(
                    error,
                ),
            },
    {
        match self.get_main_key() {
            Ok(key) => Ok(key.secret_bytes()),
            Err(error) => Err(error),
        }
    }
}

} // verus!
