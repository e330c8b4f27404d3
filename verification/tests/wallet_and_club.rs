use trawnik::club::{bouncer_blocks_player, bouncer_interaction, dialog_message, BouncerAction};
use trawnik::coin::{cheat_coins, coin_counter_text, handle_coin_collision, Wallet, REQUIRED_COINS};
use trawnik::collectable::handle_collectable_collision;
use trawnik::enemy::handle_enemy_collision;
use trawnik::state::{GameResult, GameState};
use trawnik::text::decimal_string;

#[test]
fn decimal_string_matches_std_formatting() {
    for n in [0u32, 7, 9, 10, 11, 99, 100, 12345, u32::MAX] {
        assert_eq!(decimal_string(n), n.to_string());
    }
}

#[test]
fn coin_counter_text_shows_coins_out_of_ten() {
    assert_eq!(coin_counter_text(0), "MONETY: 0/10");
    assert_eq!(coin_counter_text(7), "MONETY: 7/10");
    assert_eq!(coin_counter_text(123), format!("MONETY: {}/{}", 123, REQUIRED_COINS));
}

#[test]
fn cheat_key_adds_ten_coins() {
    let mut wallet = Wallet::default();
    cheat_coins(&mut wallet, false);
    assert_eq!(wallet.coins, 0);
    cheat_coins(&mut wallet, true);
    assert_eq!(wallet.coins, 10);
    cheat_coins(&mut wallet, true);
    assert_eq!(wallet.coins, 20);
}

#[test]
fn touching_coins_are_collected_one_each() {
    let mut wallet = Wallet { coins: 3 };
    let collected = handle_coin_collision(&mut wallet, &vec![false, true, true, false, true]);
    assert_eq!(collected, vec![1, 2, 4]);
    assert_eq!(wallet.coins, 6);
    let none = handle_coin_collision(&mut wallet, &vec![false, false]);
    assert!(none.is_empty());
    assert_eq!(wallet.coins, 6);
}

#[test]
fn new_game_empties_the_wallet() {
    let mut wallet = Wallet { coins: 42 };
    wallet.reset();
    assert_eq!(wallet.coins, 0);
}

#[test]
fn collectables_vanish_when_any_contact_is_the_player() {
    let contacts = vec![vec![], vec![false, true], vec![false, false], vec![true]];
    assert_eq!(handle_collectable_collision(&contacts), vec![1, 3]);
    assert!(handle_collectable_collision(&vec![]).is_empty());
}

#[test]
fn dialog_message_names_the_coin_count() {
    let expected = |c: u32| {
        format!(
            "OCHRONIARZ: Spokojnie... Masz {c}/{REQUIRED_COINS} monet.\nWroc, gdy uzbierasz dosc kasy na wejscie do D17!"
        )
    };
    for c in [0u32, 3, 9, 10, 250] {
        assert_eq!(dialog_message(c), expected(c));
    }
}

#[test]
fn bouncer_blocks_until_ten_coins() {
    assert!(bouncer_blocks_player(&Wallet { coins: 0 }));
    assert!(bouncer_blocks_player(&Wallet { coins: 9 }));
    assert!(!bouncer_blocks_player(&Wallet { coins: 10 }));
    assert!(!bouncer_blocks_player(&Wallet { coins: 11 }));
}

#[test]
fn bouncer_interaction_cases() {
    let poor = Wallet { coins: 4 };
    let rich = Wallet { coins: 12 };
    assert_eq!(bouncer_interaction(false, &rich, true), BouncerAction::CloseDialog);
    assert_eq!(bouncer_interaction(false, &poor, false), BouncerAction::CloseDialog);
    let enter = bouncer_interaction(true, &rich, true);
    assert_eq!(enter, BouncerAction::LetIn);
    assert_eq!(enter.next_state(), Some(GameState::BossFight));
    assert_eq!(
        bouncer_interaction(true, &poor, false),
        BouncerAction::OpenDialog { message: dialog_message(4) }
    );
    assert_eq!(
        bouncer_interaction(true, &poor, true),
        BouncerAction::RefreshDialog { message: dialog_message(4) }
    );
    assert_eq!(BouncerAction::CloseDialog.next_state(), None);
}

#[test]
fn jaguar_contact_loses_the_game() {
    let mut result = GameResult::default();
    result.won = true;
    let contacts = vec![vec![false], vec![false, true]];
    assert_eq!(handle_enemy_collision(&contacts, false, &mut result), Some(GameState::GameOver));
    assert!(!result.won);
}

#[test]
fn immortal_player_survives_jaguars() {
    let mut result = GameResult::default();
    result.won = true;
    let contacts = vec![vec![true]];
    assert_eq!(handle_enemy_collision(&contacts, true, &mut result), None);
    assert!(result.won);
    assert_eq!(handle_enemy_collision(&vec![vec![false]], false, &mut result), None);
    assert!(result.won);
}

#[test]
fn jaguar_loss_clears_earlier_messages() {
    let mut result = GameResult::default();
    result.set(true, "ZALICZONE!", "Pokonales Dziekana Gajeckiego na egzaminie z informatyki!");
    handle_enemy_collision(&vec![vec![true]], false, &mut result);
    assert!(!result.won);
    assert!(result.title.is_empty());
    assert!(result.subtitle.is_empty());
    let screen = trawnik::state::game_over_screen(&result);
    assert_eq!(screen.title, "PRZEGRANA");
    assert_eq!(screen.subtitle, "Jaguar cie dopadl...");
}
