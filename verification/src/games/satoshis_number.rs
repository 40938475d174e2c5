//! Satoshi's Number: the first two bytes of a hash over nonce and deposit
//! give a roll, and the roll wins when it falls below the multiplier's bound.

use crate::games::Game;
use crate::games::GameEvaluation;
use crate::hashing::bitcoin_sha256;
use crate::hashing::roll_digest;
use crate::key_derivation::Multiplier;
use crate::text::decimal;
use crate::text::decimal_string;
use vstd::prelude::*;
use vstd::string::*;
use vstd::utf8::encode_utf8;

verus! {

pub struct SatoshisNumberGame;

/// The bytes that are hashed for a round: the nonce in decimal, directly
/// followed by the deposit's transaction id.
pub open spec fn roll_input(nonce: u64, txid: Seq<char>) -> Seq<u8> {
    encode_utf8(decimal(nonce as nat) + txid)
}

/// The roll a digest stands for: its first two bytes, read big-endian.
pub open spec fn roll_of_digest(digest: Seq<u8>) -> int
    recommends
        digest.len() >= 2,
{
    digest[0] as int * 256 + digest[1] as int
}

/// The evaluation of a roll under a multiplier.
pub open spec fn evaluation_of_roll(roll: int, multiplier: Multiplier) -> GameEvaluation {
    if roll < multiplier.threshold() {
        GameEvaluation {
            rolled_value: roll as i64,
            is_win: true,
            payout_multiplier: Some(multiplier.ratio() as u64),
        }
    } else {
        GameEvaluation { rolled_value: roll as i64, is_win: false, payout_multiplier: None }
    }
}

/// The evaluation of the round that `nonce` and `txid` determine.
pub open spec fn satoshis_number(nonce: u64, txid: Seq<char>, multiplier: Multiplier)
    -> GameEvaluation {
    evaluation_of_roll(roll_of_digest(bitcoin_sha256(roll_input(nonce, txid))), multiplier)
}

/// The roll of a digest lies within `[0, 65535]`.
pub proof fn lemma_digest_roll(digest: Seq<u8>)
    ensures
        0 <= roll_of_digest(digest) <= 65535,
{
}

/// Evaluates a round from the digest of its input.
pub fn evaluate_digest(digest: &[u8; 32], multiplier: &Multiplier) -> (evaluation: GameEvaluation)
    ensures
        evaluation == evaluation_of_roll(roll_of_digest(digest@), *multiplier),
        0 <= evaluation.rolled_value <= 65535,
{
    let high: u16 = digest[0] as u16;
    let low: u16 = digest[1] as u16;
    let random_value: u16 = high * 256 + low;
    let player_wins = multiplier.is_win(random_value);
    GameEvaluation {
        rolled_value: random_value as i64,
        is_win: player_wins,
        payout_multiplier: if player_wins {
            Some(multiplier.multiplier())
        } else {
            None
        },
    }
}

impl Game for SatoshisNumberGame {
    open spec fn outcome(&self, nonce: u64, txid: Seq<char>, multiplier: Multiplier)
        -> GameEvaluation {
        satoshis_number(nonce, txid, multiplier)
    }

    fn evaluate(&self, nonce: u64, txid: &str, multiplier: &Multiplier) -> (evaluation:
        GameEvaluation) {
        let mut hash_input = decimal_string(nonce);
        hash_input.append(txid);
        let digest = roll_digest(hash_input.as_str().as_bytes());
        evaluate_digest(&digest, multiplier)
    }

    fn name(&self) -> (name: &'static str)
        ensures
            name@ == "Satoshi's Number"@,
    {
        "Satoshi's Number"
    }

    fn description(&self) -> (description: &'static str)
        ensures
            description@
                == "Guess if the hash-derived number will be below the target threshold. The lower the threshold, the higher the payout multiplier."@,
    {
        "Guess if the hash-derived number will be below the target threshold. The lower the threshold, the higher the payout multiplier."
    }
}

} // verus!
