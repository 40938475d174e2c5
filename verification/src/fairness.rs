//! Checking a round from the outside: once the nonce of a round is revealed,
//! anybody can hash it, compare the hash with the commitment that was
//! published, and roll again.

use crate::db::played;
use crate::db::GameRow;
use crate::games::get_game;
use crate::games::outcome_of;
use crate::games::Game;
use crate::games::GameType;
use crate::key_derivation::Multiplier;
use crate::nonce_service::commitment;
use crate::nonce_service::commitment_of_text;
use crate::nonce_service::hash_nonce_text;
use crate::text::decimal;
use crate::text::decimal_string;
use crate::text::digit_char;
use crate::text::lemma_decimal_digits;
use crate::text::lemma_decimal_injective;
use crate::text::same_text;
use crate::transaction_processor::follows_rules;
use crate::transaction_processor::follows_rules_of;
use vstd::prelude::*;
use vstd::string::*;

verus! {

/// The number that a sequence of decimal digits stands for, leading zeros
/// allowed; nothing where something other than a digit occurs.
pub open spec fn value_of(digits: Seq<char>) -> Option<nat>
    decreases digits.len(),
{
    if digits.len() == 0 {
        Some(0nat)
    } else if !('0' <= digits.last() <= '9') {
        None
    } else {
        match value_of(digits.drop_last()) {
            Some(front) => Some(front * 10 + (digits.last() as u32 - 48) as nat),
            None => None,
        }
    }
}

/// The rendering of a number stands for that number.
pub proof fn lemma_value_of_decimal(n: nat)
    ensures
        value_of(decimal(n)) == Some(n),
    decreases n,
{
    let text = decimal(n);
    if n < 10 {
        assert(text.drop_last() =~= Seq::<char>::empty());
        assert(text.last() == digit_char(n));
        assert(digit_char(n) as u32 == n + 48);
        assert(value_of(text.drop_last()) == Some(0nat));
    } else {
        lemma_value_of_decimal(n / 10);
        assert(text.drop_last() =~= decimal(n / 10));
        assert(text.last() == digit_char(n % 10));
        assert(digit_char(n % 10) as u32 == n % 10 + 48);
    }
}

/// Digits stand for no less than any of their beginnings stands for.
pub proof fn lemma_value_grows(digits: Seq<char>, i: int)
    requires
        0 <= i <= digits.len(),
        value_of(digits) is Some,
    ensures
        value_of(digits.take(i)) is Some,
        value_of(digits.take(i))->0 <= value_of(digits)->0,
    decreases digits.len() - i,
{
    if i == digits.len() {
        assert(digits.take(i) =~= digits);
    } else {
        lemma_value_grows(digits.drop_last(), i);
        assert(digits.drop_last().take(i) =~= digits.take(i));
    }
}

/// A rendering is made of characters that take one byte each.
pub proof fn lemma_decimal_is_ascii(n: nat)
    ensures
        vstd::utf8::is_ascii_chars(decimal(n)),
{
    lemma_decimal_digits(n);
    assert forall|i: int| 0 <= i < decimal(n).len() implies '\0' <= #[trigger] decimal(n)[i]
        <= '\u{7f}' by {
        assert('0' <= decimal(n)[i] <= '9');
    }
}

/// Reads a number from its decimal rendering. Only the rendering itself is
/// read: no sign, no leading zero, no space.
pub fn parse_decimal(text: &str) -> (number: Option<u64>)
    ensures
        match number {
            Some(n) => text@ == decimal(n as nat),
            None => forall|n: u64| text@ != decimal(n as nat),
        },
{
    if !text.is_ascii() {
        proof {
            assert forall|n: u64| text@ != decimal(n as nat) by {
                lemma_decimal_is_ascii(n as nat);
            }
        }
        return None;
    }
    let bytes = text.as_bytes();
    proof {
        vstd::utf8::is_ascii_chars_encode_utf8(text@);
    }
    let mut value: u64 = 0;
    let mut i: usize = 0;
    while i < bytes.len()
        invariant
            i <= bytes@.len(),
            bytes@.len() == text@.len(),
            vstd::utf8::is_ascii_chars(text@),
            forall|j: int| 0 <= j < text@.len() ==> #[trigger] bytes@[j] == text@[j] as u8,
            value_of(text@.take(i as int)) == Some(value as nat),
        decreases bytes.len() - i,
    {
        let byte: u8 = bytes[i];
        proof {
            let upto = text@.take(i + 1);
            assert(upto.drop_last() =~= text@.take(i as int));
            assert(upto.last() == text@[i as int]);
            assert('\0' <= text@[i as int] <= '\u{7f}');
            assert(bytes@[i as int] == text@[i as int] as u8);
            assert(byte as u32 == text@[i as int] as u32);
        }
        if byte < 48 || byte > 57 {
            proof {
                assert forall|n: u64| text@ != decimal(n as nat) by {
                    if text@ == decimal(n as nat) {
                        lemma_value_of_decimal(n as nat);
                        lemma_value_grows(text@, i + 1);
                    }
                }
            }
            return None;
        }
        let digit: u64 = (byte - 48) as u64;
        let next: Option<u64> = match value.checked_mul(10) {
            Some(shifted) => shifted.checked_add(digit),
            None => None,
        };
        match next {
            Some(sum) => {
                value = sum;
            },
            None => {
                proof {
                    assert forall|n: u64| text@ != decimal(n as nat) by {
                        if text@ == decimal(n as nat) {
                            lemma_value_of_decimal(n as nat);
                            lemma_value_grows(text@, i + 1);
                        }
                    }
                }
                return None;
            },
        }
        i += 1;
    }
    proof {
        assert(text@.take(i as int) =~= text@);
    }
    let rendered = decimal_string(value);
    if same_text(rendered.as_str(), text) {
        Some(value)
    } else {
        proof {
            assert forall|n: u64| text@ != decimal(n as nat) by {
                if text@ == decimal(n as nat) {
                    lemma_value_of_decimal(n as nat);
                }
            }
        }
        None
    }
}

/// Whether a round stands up to a check with the nonce `nonce`: the text
/// shown as its nonce renders `nonce`, the commitment shown is the hash of
/// that text, and the game gives the nonce and the deposit the roll and the
/// verdict that are shown.
pub open spec fn stands_up(
    game_type: GameType,
    nonce: u64,
    nonce_text: Seq<char>,
    nonce_hash: Seq<char>,
    input_tx_id: Seq<char>,
    multiplier: Multiplier,
    rolled_number: i64,
    is_winner: bool,
) -> bool {
    &&& nonce_text == decimal(nonce as nat)
    &&& nonce_hash == commitment(nonce)
    &&& outcome_of(game_type, nonce, input_tx_id, multiplier).rolled_value == rolled_number
    &&& outcome_of(game_type, nonce, input_tx_id, multiplier).is_win == is_winner
}

/// Whether a row stands up to a check under a game, a multiplier and a nonce,
/// with the hash of its own nonce as the commitment.
pub open spec fn row_stands_up(
    row: GameRow,
    game_type: GameType,
    multiplier: Multiplier,
    nonce: u64,
) -> bool {
    &&& row.multiplier == multiplier.ratio()
    &&& stands_up(
        game_type,
        nonce,
        row.nonce,
        commitment_of_text(row.nonce),
        row.input_tx_id,
        multiplier,
        row.rolled_number,
        row.is_winner,
    )
}

/// Every round that was played and settled by the rules stands up to a
/// check: the house cannot have recorded another roll or another verdict
/// than the ones that its nonce and the deposit give.
pub proof fn lemma_settled_round_stands_up(row: GameRow, max_payout_sats: u64)
    requires
        follows_rules(row, max_payout_sats),
        played(row),
    ensures
        exists|game_type: GameType, multiplier: Multiplier, nonce: u64| #[trigger]
            row_stands_up(row, game_type, multiplier, nonce),
{
    let (game_type, multiplier, nonce) = choose|
        game_type: GameType,
        multiplier: Multiplier,
        nonce: u64,
    |
        #[trigger] follows_rules_of(row, max_payout_sats, game_type, multiplier, nonce);
    crate::games::lemma_roll_range(game_type, nonce, row.input_tx_id, multiplier);
    assert(row_stands_up(row, game_type, multiplier, nonce));
}

/// Checks a round of Satoshi's Number whose nonce has been revealed against
/// the commitment that was published for it.
pub fn verify_round(
    nonce: &str,
    nonce_hash: &str,
    input_tx_id: &str,
    multiplier: &Multiplier,
    rolled_number: i64,
    is_winner: bool,
) -> (fair: bool)
    ensures
        fair == exists|n: u64| #[trigger]
            stands_up(
                GameType::SatoshisNumber,
                n,
                nonce@,
                nonce_hash@,
                input_tx_id@,
                *multiplier,
                rolled_number,
                is_winner,
            ),
{
    let number: u64 = match parse_decimal(nonce) {
        Some(number) => number,
        None => {
            return false;
        },
    };
    proof {
        assert forall|n: u64|
            stands_up(
                GameType::SatoshisNumber,
                n,
                nonce@,
                nonce_hash@,
                input_tx_id@,
                *multiplier,
                rolled_number,
                is_winner,
            ) implies n == number by {
            lemma_decimal_injective(n as nat, number as nat);
        }
    }
    let hash = hash_nonce_text(nonce);
    if !same_text(hash.as_str(), nonce_hash) {
        return false;
    }
    let evaluation = get_game(GameType::SatoshisNumber).evaluate(number, input_tx_id, multiplier);
    let fair = evaluation.rolled_value == rolled_number && evaluation.is_win == is_winner;
    proof {
        if fair {
            assert(stands_up(
                GameType::SatoshisNumber,
                number,
                nonce@,
                nonce_hash@,
                input_tx_id@,
                *multiplier,
                rolled_number,
                is_winner,
            ));
        }
    }
    fair
}

} // verus!
