//! Games the house offers, and how a round of one is evaluated.

pub mod satoshis_number;

use crate::key_derivation::Multiplier;
use vstd::prelude::*;
use vstd::string::*;

verus! {

/// What a round came to.
#[derive(Debug, Clone, Copy, PartialEq, Eq, Structural)]
pub struct GameEvaluation {
    /// The number the round produced.
    pub rolled_value: i64,
    /// Whether the player won.
    pub is_win: bool,
    /// For a win, the payout per hundred units bet.
    pub payout_multiplier: Option<u64>,
}

/// A game decides a round from the house's nonce, the player's deposit and
/// the multiplier the player chose.
pub trait Game: Send + Sync {
    /// The evaluation this game gives a round.
    spec fn outcome(&self, nonce: u64, txid: Seq<char>, multiplier: Multiplier) -> GameEvaluation;

    fn evaluate(&self, nonce: u64, txid: &str, multiplier: &Multiplier) -> (evaluation:
        GameEvaluation)
        ensures
            evaluation == self.outcome(nonce, txid@, *multiplier),
    ;

    fn name(&self) -> &'static str;

    fn description(&self) -> &'static str;
}

/// The games on offer.
#[derive(Debug, Clone, Copy, PartialEq, Eq, Hash, Structural)]
pub enum GameType {
    SatoshisNumber,
}

impl Default for GameType {
    fn default() -> (game_type: GameType)
        ensures
            game_type == GameType::SatoshisNumber,
    {
        GameType::SatoshisNumber
    }
}

impl GameType {
    /// The number under which the game is advertised.
    pub fn code(&self) -> (code: u8)
        ensures
            code == 0,
    {
        match self {
            GameType::SatoshisNumber => 0,
        }
    }

    /// The game's name in addresses and logs.
    pub fn display(&self) -> (text: String)
        ensures
            text@ == "satoshis-number"@,
    {
        match self {
            GameType::SatoshisNumber => String::from_str("satoshis-number"),
        }
    }
}

/// The evaluation that a game type gives a round.
pub open spec fn outcome_of(game_type: GameType, nonce: u64, txid: Seq<char>, multiplier: Multiplier)
    -> GameEvaluation {
    match game_type {
        GameType::SatoshisNumber => satoshis_number::satoshis_number(nonce, txid, multiplier),
    }
}

/// Every game rolls within `[0, 65535]`, wins exactly below the multiplier's
/// bound and pays a win at the multiplier's ratio.
pub proof fn lemma_roll_range(
    game_type: GameType,
    nonce: u64,
    txid: Seq<char>,
    multiplier: Multiplier,
)
    ensures
        ({
            let evaluation = outcome_of(game_type, nonce, txid, multiplier);
            &&& 0 <= evaluation.rolled_value <= 65535
            &&& evaluation.is_win == (evaluation.rolled_value < multiplier.threshold())
            &&& evaluation.payout_multiplier == if evaluation.is_win {
                Some(multiplier.ratio() as u64)
            } else {
                None
            }
        }),
{
    satoshis_number::lemma_digest_roll(
        crate::hashing::bitcoin_sha256(satoshis_number::roll_input(nonce, txid)),
    );
}

/// Any one of the games on offer.
pub enum AnyGame {
    SatoshisNumber(satoshis_number::SatoshisNumberGame),
}

impl Game for AnyGame {
    open spec fn outcome(&self, nonce: u64, txid: Seq<char>, multiplier: Multiplier)
        -> GameEvaluation {
        match self {
            AnyGame::SatoshisNumber(game) => game.outcome(nonce, txid, multiplier),
        }
    }

    fn evaluate(&self, nonce: u64, txid: &str, multiplier: &Multiplier) -> (evaluation:
        GameEvaluation) {
        match self {
            AnyGame::SatoshisNumber(game) => game.evaluate(nonce, txid, multiplier),
        }
    }

    fn name(&self) -> (name: &'static str)
        ensures
            name@ == "Satoshi's Number"@,
    {
        match self {
            AnyGame::SatoshisNumber(game) => game.name(),
        }
    }

    fn description(&self) -> (description: &'static str)
        ensures
            description@
                == "Guess if the hash-derived number will be below the target threshold. The lower the threshold, the higher the payout multiplier."@,
    {
        match self {
            AnyGame::SatoshisNumber(game) => game.description(),
        }
    }
}

/// The game behind a game type.
pub fn get_game(game_type: GameType) -> (game: AnyGame)
    ensures
        forall|nonce: u64, txid: Seq<char>, multiplier: Multiplier|
            #[trigger] game.outcome(nonce, txid, multiplier) == outcome_of(
                game_type,
                nonce,
                txid,
                multiplier,
            ),
{
    match game_type {
        GameType::SatoshisNumber => AnyGame::SatoshisNumber(satoshis_number::SatoshisNumberGame),
    }
}

} // verus!
