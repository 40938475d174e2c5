use satoshi_dice::db::get_registered_telegram_chats;
use satoshi_dice::db::is_telegram_chat_registered;
use satoshi_dice::db::register_telegram_chat;
use satoshi_dice::db::unregister_telegram_chat;
use satoshi_dice::db::TelegramRegistrations;
use satoshi_dice::telegram::donation_message;
use satoshi_dice::telegram::game_played_message;
use satoshi_dice::telegram::generate_registration_secret;
use satoshi_dice::telegram::loss_message;
use satoshi_dice::telegram::ratio_text;
use satoshi_dice::telegram::truncate_address;
use satoshi_dice::telegram::truncate_txid;
use satoshi_dice::telegram::win_message;

const ADDRESS: &str = "tark1qqellv77udfmr20tun8dvju5vgudpf9vxe8jwhthrkn26fz96pawqfdy8nk05rsmrf8h94j26905e7n6sng8y059z8ykn2j5xcuw4xt846qj6x";

#[test]
fn registration_secrets() {
    let secrets: Vec<String> = (0..20).map(|_| generate_registration_secret()).collect();
    for secret in &secrets {
        assert_eq!(secret.len(), 12);
        assert!(secret
            .chars()
            .all(|c| c.is_ascii_uppercase() || c.is_ascii_digit()));
    }
    assert!(secrets.iter().any(|secret| secret != &secrets[0]));
}

#[test]
fn long_addresses_are_shortened() {
    assert_eq!(truncate_address(ADDRESS), "tark1qqell...46qj6x");
    assert_eq!(truncate_address("123456789012345678901"), "1234567890...678901");
    assert_eq!(truncate_address("12345678901234567890"), "12345678901234567890");
    assert_eq!(truncate_address(""), "");
}

#[test]
fn long_transaction_ids_are_shortened() {
    assert_eq!(truncate_txid(&"ab".repeat(32)), "abababab...abababab");
    assert_eq!(truncate_txid("0123456789abcdefg"), "01234567...9abcdefg");
    assert_eq!(truncate_txid("0123456789abcdef"), "0123456789abcdef");
    assert_eq!(truncate_txid("tx"), "tx");
}

#[test]
fn texts_with_wide_characters_are_cut_between_characters() {
    // twenty-two bytes, with a two-byte character that ends at the tenth
    let text = "12345678é0123456789ab";
    assert_eq!(text.len(), 22);
    assert_eq!(truncate_address(text), "12345678é...6789ab");
}

#[test]
fn multipliers_are_shown_without_trailing_zeros() {
    assert_eq!(ratio_text(105), "1.05");
    assert_eq!(ratio_text(110), "1.1");
    assert_eq!(ratio_text(133), "1.33");
    assert_eq!(ratio_text(150), "1.5");
    assert_eq!(ratio_text(200), "2");
    assert_eq!(ratio_text(1000), "10");
    assert_eq!(ratio_text(100000), "1000");
    assert_eq!(ratio_text(0), "0");
    assert_eq!(ratio_text(7), "0.07");
    assert_eq!(ratio_text(70), "0.7");
    for ratio in [105u64, 110, 133, 150, 200, 300, 1000, 2500, 5000, 10000, 100000] {
        assert_eq!(ratio_text(ratio), format!("{}", ratio as f64 / 100.0));
    }
}

#[test]
fn notification_of_a_new_game() {
    assert_eq!(
        game_played_message(ADDRESS, 500, 200, &"ab".repeat(32)),
        "🎲 <b>New Game!</b>\n\n👤 Player: <code>tark1qqell...46qj6x</code>\n💰 Bet: 500 sats\n🎯 Multiplier: 2x\n🔗 TX: <code>abababab...abababab</code>"
    );
}

#[test]
fn notification_of_a_win() {
    assert_eq!(
        win_message(ADDRESS, 500, 1000, 200, 17192, 31784, &"ab".repeat(32), &"cd".repeat(32)),
        "🎰 <b>WINNER!</b> 🎉\n\n👤 Player: <code>tark1qqell...46qj6x</code>\n💰 Bet: 500 sats\n🎯 Multiplier: 2x\n🎲 Rolled: 17192 (needed &lt; 31784)\n💸 Payout: <b>1000 sats</b>\n📥 Game TX: <code>abababab...abababab</code>\n📤 Payout TX: <code>cdcdcdcd...cdcdcdcd</code>"
    );
}

#[test]
fn notification_of_a_loss() {
    assert_eq!(
        loss_message("short", 21, 105, 62383, 60541, "tx"),
        "😢 <b>Loss</b>\n\n👤 Player: <code>short</code>\n💰 Bet: 21 sats\n🎯 Multiplier: 1.05x\n🎲 Rolled: 62383 (needed &lt; 60541)\n🔗 TX: <code>tx</code>"
    );
    assert!(loss_message("p", 1, 150, -1, 1, "t").contains("Rolled: -1 (needed"));
    assert!(loss_message("p", 1, 150, i64::MIN, 1, "t").contains("Rolled: -9223372036854775808 "));
}

#[test]
fn notification_of_a_donation() {
    assert_eq!(
        donation_message(ADDRESS, 60_000, &"ab".repeat(32)),
        "💝 <b>Donation Received!</b>\n\n👤 From: <code>tark1qqell...46qj6x</code>\n💰 Amount: 60000 sats\n🔗 TX: <code>abababab...abababab</code>\n\nThank you for your support! 🙏"
    );
}

#[test]
fn chats_are_registered_once() {
    let mut chats = TelegramRegistrations::new();
    assert!(get_registered_telegram_chats(&chats).is_empty());
    assert!(!is_telegram_chat_registered(&chats, "1"));
    register_telegram_chat(&mut chats, "1");
    register_telegram_chat(&mut chats, "-22");
    register_telegram_chat(&mut chats, "1");
    register_telegram_chat(&mut chats, "3");
    assert_eq!(get_registered_telegram_chats(&chats), vec!["1", "-22", "3"]);
    assert!(is_telegram_chat_registered(&chats, "-22"));
    assert!(!is_telegram_chat_registered(&chats, "22"));
}

#[test]
fn chats_are_taken_off_the_list() {
    let mut chats = TelegramRegistrations::new();
    for id in ["1", "2", "3"] {
        register_telegram_chat(&mut chats, id);
    }
    unregister_telegram_chat(&mut chats, "2");
    assert_eq!(get_registered_telegram_chats(&chats), vec!["1", "3"]);
    unregister_telegram_chat(&mut chats, "2");
    unregister_telegram_chat(&mut chats, "9");
    assert_eq!(get_registered_telegram_chats(&chats), vec!["1", "3"]);
    unregister_telegram_chat(&mut chats, "1");
    unregister_telegram_chat(&mut chats, "3");
    assert!(get_registered_telegram_chats(&chats).is_empty());
    register_telegram_chat(&mut chats, "2");
    assert_eq!(get_registered_telegram_chats(&chats), vec!["2"]);
}
