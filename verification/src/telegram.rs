//! What the house tells its subscribers: the texts of its notifications and
//! the secret that admits a subscriber.

use crate::text::decimal;
use crate::text::decimal_string;
use rand::Rng;
use vstd::prelude::*;
use vstd::string::*;
use vstd::utf8::decode_utf8;
use vstd::utf8::is_char_boundary;

verus! {

/// The characters that a registration secret is made of.
pub open spec fn secret_charset() -> Seq<char> {
    "ABCDEFGHIJKLMNOPQRSTUVWXYZ0123456789"@
}

/// Draws a position below `bound` with `rand::Rng::gen_range` on the
/// generator of the thread, which hands back a value within the range that
/// it is given. The range must not be empty.
#[verifier::external_body]
fn random_index(bound: usize) -> (index: usize)
    requires
        bound > 0,
    ensures
        index < bound,
{
    rand::thread_rng().gen_range(0..bound)
}

/// Draws a registration secret: twelve characters, each a capital letter or
/// a digit.
pub fn generate_registration_secret() -> (secret: String)
    ensures
        secret@.len() == 12,
        forall|i: int| 0 <= i < 12 ==> secret_charset().contains(#[trigger] secret@[i]),
{
    let charset = "ABCDEFGHIJKLMNOPQRSTUVWXYZ0123456789";
    proof {
        reveal_strlit("ABCDEFGHIJKLMNOPQRSTUVWXYZ0123456789");
        assert(charset@.len() == 36);
        assert(charset.is_ascii()) by {
            assert forall|i: int| 0 <= i < charset@.len() implies '\0' <= #[trigger] charset@[i]
                <= '\u{7f}' by {}
        }
    }
    let mut secret = String::new();
    let mut k: usize = 0;
    while k < 12
        invariant
            k <= 12,
            charset@ == secret_charset(),
            charset@.len() == 36,
            charset.is_ascii(),
            secret@.len() == k,
            forall|i: int| 0 <= i < k ==> secret_charset().contains(#[trigger] secret@[i]),
        decreases 12 - k,
    {
        let idx: usize = random_index(36);
        let picked = charset.substring_ascii(idx, idx + 1);
        let ghost before = secret@;
        secret.append(picked);
        proof {
            assert(picked@[0] == charset@[idx as int]);
            assert forall|i: int| 0 <= i < k + 1 implies secret_charset().contains(
                #[trigger] secret@[i],
            ) by {
                if i < k {
                    assert(secret@[i] == before[i]);
                } else {
                    assert(secret@[i] == charset@[idx as int]);
                }
            }
        }
        k += 1;
    }
    secret
}

/// Whether a text can be shortened to its first `front` and its last `back`
/// bytes: a text of more than `limit` bytes must not be cut within a
/// character.
pub open spec fn can_shorten(text: Seq<u8>, limit: int, front: int, back: int) -> bool {
    text.len() > limit ==> {
        &&& 0 <= front <= text.len()
        &&& 0 <= back <= text.len()
        &&& is_char_boundary(text, front)
        &&& is_char_boundary(text, text.len() - back)
    }
}

/// A text of more than `limit` bytes shortened to its first `front` and its
/// last `back` bytes with three dots between them; any other text as it is.
pub open spec fn shortened(text: &str, limit: int, front: int, back: int) -> Seq<char> {
    let bytes = text.spec_bytes();
    if bytes.len() > limit {
        decode_utf8(bytes.subrange(0, front)) + "..."@ + decode_utf8(
            bytes.subrange(bytes.len() - back, bytes.len() as int),
        )
    } else {
        text@
    }
}

fn shorten(text: &str, limit: usize, front: usize, back: usize) -> (short: String)
    requires
        can_shorten(text.spec_bytes(), limit as int, front as int, back as int),
    ensures
        short@ == shortened(text, limit as int, front as int, back as int),
{
    let len: usize = text.as_bytes().len();
    if len > limit {
        let (head, _) = text.split_at(front);
        let (_, tail) = text.split_at(len - back);
        proof {
            let bytes = text.spec_bytes();
            vstd::utf8::encode_utf8_decode_utf8(head@);
            vstd::utf8::encode_utf8_decode_utf8(tail@);
            assert(head.spec_bytes() == bytes.subrange(0, front as int));
            assert(tail.spec_bytes() == bytes.subrange(bytes.len() - back, bytes.len() as int));
            assert(head@ == decode_utf8(bytes.subrange(0, front as int)));
            assert(tail@ == decode_utf8(bytes.subrange(bytes.len() - back, bytes.len() as int)));
        }
        let mut short = String::from_str(head);
        short.append("...");
        short.append(tail);
        short
    } else {
        String::from_str(text)
    }
}

/// An address as it is shown in a notification: one of more than twenty
/// bytes is shortened to its first ten and its last six.
pub fn truncate_address(address: &str) -> (short: String)
    requires
        can_shorten(address.spec_bytes(), 20, 10, 6),
    ensures
        short@ == shortened(address, 20, 10, 6),
{
    shorten(address, 20, 10, 6)
}

/// A transaction id as it is shown in a notification: one of more than
/// sixteen bytes is shortened to its first eight and its last eight.
pub fn truncate_txid(txid: &str) -> (short: String)
    requires
        can_shorten(txid.spec_bytes(), 16, 8, 8),
    ensures
        short@ == shortened(txid, 16, 8, 8),
{
    shorten(txid, 16, 8, 8)
}

/// A multiplier given per hundred as a decimal fraction without trailing
/// zeros: `200` is shown as `2`, `150` as `1.5` and `105` as `1.05`.
pub open spec fn ratio_shown(hundredths: u64) -> Seq<char> {
    let whole = decimal((hundredths / 100) as nat);
    if hundredths % 100 == 0 {
        whole
    } else if hundredths % 10 == 0 {
        whole + "."@ + decimal((hundredths % 100 / 10) as nat)
    } else {
        whole + "."@ + decimal((hundredths % 100 / 10) as nat) + decimal((hundredths % 10) as nat)
    }
}

/// Shows a multiplier given per hundred as a decimal fraction.
pub fn ratio_text(hundredths: u64) -> (text: String)
    ensures
        text@ == ratio_shown(hundredths),
{
    let mut text = decimal_string(hundredths / 100);
    if hundredths % 100 != 0 {
        text.append(".");
        let tenths = decimal_string(hundredths % 100 / 10);
        text.append(tenths.as_str());
        if hundredths % 10 != 0 {
            let last = decimal_string(hundredths % 10);
            text.append(last.as_str());
        }
    }
    text
}

/// The rendering of a number that may be negative.
pub open spec fn signed(n: i64) -> Seq<char> {
    if n >= 0 {
        decimal(n as nat)
    } else {
        "-"@ + decimal((-n) as nat)
    }
}

fn signed_string(n: i64) -> (text: String)
    ensures
        text@ == signed(n),
{
    if n >= 0 {
        decimal_string(n as u64)
    } else {
        let mut text = String::from_str("-");
        let digits = decimal_string((-(n as i128)) as u64);
        text.append(digits.as_str());
        text
    }
}

/// The notification of a new game.
pub open spec fn game_played_text(player: &str, amount_sats: u64, multiplier: u64, game_tx_id: &str)
    -> Seq<char> {
    "🎲 <b>New Game!</b>\n\n👤 Player: <code>"@ + shortened(player, 20, 10, 6)
        + "</code>\n💰 Bet: "@ + decimal(amount_sats as nat) + " sats\n🎯 Multiplier: "@
        + ratio_shown(multiplier) + "x\n🔗 TX: <code>"@ + shortened(game_tx_id, 16, 8, 8)
        + "</code>"@
}

/// Words the notification of a new game. The multiplier is given per hundred.
pub fn game_played_message(player: &str, amount_sats: u64, multiplier: u64, game_tx_id: &str)
    -> (message: String)
    requires
        can_shorten(player.spec_bytes(), 20, 10, 6),
        can_shorten(game_tx_id.spec_bytes(), 16, 8, 8),
    ensures
        message@ == game_played_text(player, amount_sats, multiplier, game_tx_id),
{
    let mut message = String::from_str("🎲 <b>New Game!</b>\n\n👤 Player: <code>");
    message.append(truncate_address(player).as_str());
    message.append("</code>\n💰 Bet: ");
    message.append(decimal_string(amount_sats).as_str());
    message.append(" sats\n🎯 Multiplier: ");
    message.append(ratio_text(multiplier).as_str());
    message.append("x\n🔗 TX: <code>");
    message.append(truncate_txid(game_tx_id).as_str());
    message.append("</code>");
    message
}

/// The notification of a win.
pub open spec fn win_text(
    player: &str,
    bet_amount: u64,
    payout_amount: u64,
    multiplier: u64,
    rolled_number: i64,
    target_number: u16,
    game_tx_id: &str,
    payout_tx_id: &str,
) -> Seq<char> {
    "🎰 <b>WINNER!</b> 🎉\n\n👤 Player: <code>"@ + shortened(player, 20, 10, 6)
        + "</code>\n💰 Bet: "@ + decimal(bet_amount as nat) + " sats\n🎯 Multiplier: "@
        + ratio_shown(multiplier) + "x\n🎲 Rolled: "@ + signed(rolled_number) + " (needed &lt; "@
        + decimal(target_number as nat) + ")\n💸 Payout: <b>"@ + decimal(payout_amount as nat)
        + " sats</b>\n📥 Game TX: <code>"@ + shortened(game_tx_id, 16, 8, 8)
        + "</code>\n📤 Payout TX: <code>"@ + shortened(payout_tx_id, 16, 8, 8) + "</code>"@
}

/// Words the notification of a win. The multiplier is given per hundred.
pub fn win_message(
    player: &str,
    bet_amount: u64,
    payout_amount: u64,
    multiplier: u64,
    rolled_number: i64,
    target_number: u16,
    game_tx_id: &str,
    payout_tx_id: &str,
) -> (message: String)
    requires
        can_shorten(player.spec_bytes(), 20, 10, 6),
        can_shorten(game_tx_id.spec_bytes(), 16, 8, 8),
        can_shorten(payout_tx_id.spec_bytes(), 16, 8, 8),
    ensures
        message@ == win_text(
            player,
            bet_amount,
            payout_amount,
            multiplier,
            rolled_number,
            target_number,
            game_tx_id,
            payout_tx_id,
        ),
{
    let mut message = String::from_str("🎰 <b>WINNER!</b> 🎉\n\n👤 Player: <code>");
    message.append(truncate_address(player).as_str());
    message.append("</code>\n💰 Bet: ");
    message.append(decimal_string(bet_amount).as_str());
    message.append(" sats\n🎯 Multiplier: ");
    message.append(ratio_text(multiplier).as_str());
    message.append("x\n🎲 Rolled: ");
    message.append(signed_string(rolled_number).as_str());
    message.append(" (needed &lt; ");
    message.append(decimal_string(target_number as u64).as_str());
    message.append(")\n💸 Payout: <b>");
    message.append(decimal_string(payout_amount).as_str());
    message.append(" sats</b>\n📥 Game TX: <code>");
    message.append(truncate_txid(game_tx_id).as_str());
    message.append("</code>\n📤 Payout TX: <code>");
    message.append(truncate_txid(payout_tx_id).as_str());
    message.append("</code>");
    message
}

/// The notification of a loss.
pub open spec fn loss_text(
    player: &str,
    bet_amount: u64,
    multiplier: u64,
    rolled_number: i64,
    target_number: u16,
    game_tx_id: &str,
) -> Seq<char> {
    "😢 <b>Loss</b>\n\n👤 Player: <code>"@ + shortened(player, 20, 10, 6) + "</code>\n💰 Bet: "@
        + decimal(bet_amount as nat) + " sats\n🎯 Multiplier: "@ + ratio_shown(multiplier)
        + "x\n🎲 Rolled: "@ + signed(rolled_number) + " (needed &lt; "@ + decimal(
        target_number as nat,
    ) + ")\n🔗 TX: <code>"@ + shortened(game_tx_id, 16, 8, 8) + "</code>"@
}

/// Words the notification of a loss. The multiplier is given per hundred.
pub fn loss_message(
    player: &str,
    bet_amount: u64,
    multiplier: u64,
    rolled_number: i64,
    target_number: u16,
    game_tx_id: &str,
) -> (message: String)
    requires
        can_shorten(player.spec_bytes(), 20, 10, 6),
        can_shorten(game_tx_id.spec_bytes(), 16, 8, 8),
    ensures
        message@ == loss_text(
            player,
            bet_amount,
            multiplier,
            rolled_number,
            target_number,
            game_tx_id,
        ),
{
    let mut message = String::from_str("😢 <b>Loss</b>\n\n👤 Player: <code>");
    message.append(truncate_address(player).as_str());
    message.append("</code>\n💰 Bet: ");
    message.append(decimal_string(bet_amount).as_str());
    message.append(" sats\n🎯 Multiplier: ");
    message.append(ratio_text(multiplier).as_str());
    message.append("x\n🎲 Rolled: ");
    message.append(signed_string(rolled_number).as_str());
    message.append(" (needed &lt; ");
    message.append(decimal_string(target_number as u64).as_str());
    message.append(")\n🔗 TX: <code>");
    message.append(truncate_txid(game_tx_id).as_str());
    message.append("</code>");
    message
}

/// The notification of a donation.
pub open spec fn donation_text(donor: &str, amount_sats: u64, game_tx_id: &str) -> Seq<char> {
    "💝 <b>Donation Received!</b>\n\n👤 From: <code>"@ + shortened(donor, 20, 10, 6)
        + "</code>\n💰 Amount: "@ + decimal(amount_sats as nat) + " sats\n🔗 TX: <code>"@
        + shortened(game_tx_id, 16, 8, 8) + "</code>\n\nThank you for your support! 🙏"@
}

/// Words the notification of a donation.
pub fn donation_message(donor: &str, amount_sats: u64, game_tx_id: &str) -> (message: String)
    requires
        can_shorten(donor.spec_bytes(), 20, 10, 6),
        can_shorten(game_tx_id.spec_bytes(), 16, 8, 8),
    ensures
        message@ == donation_text(donor, amount_sats, game_tx_id),
{
    let mut message = String::from_str("💝 <b>Donation Received!</b>\n\n👤 From: <code>");
    message.append(truncate_address(donor).as_str());
    message.append("</code>\n💰 Amount: ");
    message.append(decimal_string(amount_sats).as_str());
    message.append(" sats\n🔗 TX: <code>");
    message.append(truncate_txid(game_tx_id).as_str());
    message.append("</code>\n\nThank you for your support! 🙏");
    message
}

} // verus!
