use trawnik::map::{
    check_win_state, draw_map, draw_map_borders, map_bounds, map_row, BuildingKind, TileKind, MAP_COLS, MAP_ROWS,
};
use trawnik::state::{
    check_assets_ready, exit_button, game_over_screen, in_gameplay, play_again_button, ButtonInteraction, ButtonLook,
    GameResult, GameState,
};

#[test]
fn gameplay_runs_while_playing_or_fighting() {
    assert!(!in_gameplay(GameState::Loading));
    assert!(in_gameplay(GameState::Playing));
    assert!(in_gameplay(GameState::BossFight));
    assert!(!in_gameplay(GameState::GameOver));
    assert_eq!(GameState::default(), GameState::Loading);
}

#[test]
fn assets_ready_only_when_all_loaded() {
    assert_eq!(check_assets_ready(&vec![true; 11]), Some(GameState::Playing));
    let mut loaded = vec![true; 11];
    loaded[6] = false;
    assert_eq!(check_assets_ready(&loaded), None);
    assert_eq!(check_assets_ready(&vec![]), Some(GameState::Playing));
}

#[test]
fn game_result_set_records_messages() {
    let mut result = GameResult::default();
    assert!(!result.won && result.title.is_empty() && result.subtitle.is_empty());
    result.set(true, "A", "B");
    assert!(result.won);
    assert_eq!(result.title, "A");
    assert_eq!(result.subtitle, "B");
}

#[test]
fn game_over_screen_defaults() {
    let mut result = GameResult::default();
    let lost = game_over_screen(&result);
    assert!(!lost.won);
    assert_eq!(lost.title, "PRZEGRANA");
    assert_eq!(lost.subtitle, "Jaguar cie dopadl...");
    result.won = true;
    let won = game_over_screen(&result);
    assert_eq!(won.title, "WYGRANA!");
    assert_eq!(won.subtitle, "Zdeptales caly swiezy trawnik!");
}

#[test]
fn game_over_screen_uses_own_messages() {
    let mut result = GameResult::default();
    result.set(false, "EGZAMIN OBLANY!", "");
    let screen = game_over_screen(&result);
    assert_eq!(screen.title, "EGZAMIN OBLANY!");
    assert_eq!(screen.subtitle, "Jaguar cie dopadl...");
}

#[test]
fn play_again_button_reacts() {
    let pressed = play_again_button(ButtonInteraction::Pressed);
    assert_eq!(pressed.look, ButtonLook::Pressed);
    assert!(pressed.highlighted_border);
    assert_eq!(pressed.next, Some(GameState::Playing));
    let hovered = play_again_button(ButtonInteraction::Hovered);
    assert_eq!((hovered.look, hovered.highlighted_border, hovered.next), (ButtonLook::Hovered, true, None));
    let idle = play_again_button(ButtonInteraction::Idle);
    assert_eq!((idle.look, idle.highlighted_border, idle.next), (ButtonLook::Normal, false, None));
}

#[test]
fn exit_button_reacts() {
    assert!(exit_button(ButtonInteraction::Pressed).exit);
    assert_eq!(exit_button(ButtonInteraction::Pressed).look, ButtonLook::Pressed);
    assert!(!exit_button(ButtonInteraction::Hovered).exit);
    assert_eq!(exit_button(ButtonInteraction::Hovered).look, ButtonLook::Hovered);
    assert!(!exit_button(ButtonInteraction::Idle).exit);
    assert_eq!(exit_button(ButtonInteraction::Idle).look, ButtonLook::Normal);
}

#[test]
fn map_has_every_layout_tile() {
    let tiles = draw_map();
    assert_eq!(tiles.len(), (MAP_ROWS * MAP_COLS) as usize);
    let grass = tiles.iter().filter(|t| t.kind == TileKind::FreshGrass).count();
    let sidewalk = tiles.iter().filter(|t| t.kind == TileKind::Sidewalk).count();
    assert_eq!(grass, 64);
    assert_eq!(sidewalk, 116);
    assert_eq!((tiles[0].x, tiles[0].y), (-119, 63));
    assert_eq!((tiles[179].x, tiles[179].y), (119, -63));
    for t in &tiles {
        let ch = map_row(t.row).chars().nth(t.col as usize).unwrap();
        let kind = if ch == '.' { TileKind::FreshGrass } else { TileKind::Sidewalk };
        assert_eq!(t.kind, kind);
        assert_eq!(t.x, -119 + 14 * t.col as i32);
        assert_eq!(t.y, 63 - 14 * t.row as i32);
    }
}

#[test]
fn map_bounds_frame_the_layout() {
    let b = map_bounds();
    assert_eq!((b.x_min, b.y_min, b.x_max, b.y_max), (-126, -70, 126, 70));
    for t in draw_map() {
        assert!(b.x_min + 7 <= t.x && t.x <= b.x_max - 7);
        assert!(b.y_min + 7 <= t.y && t.y <= b.y_max - 7);
    }
}

#[test]
fn building_ring_surrounds_the_map() {
    let ring = draw_map_borders();
    assert_eq!(ring.len(), 26);
    let front = ring.iter().filter(|t| t.kind == BuildingKind::Front).count();
    assert_eq!(front, 12);
    for t in &ring {
        assert!(!(1 <= t.row && t.row <= 5 && 1 <= t.col && t.col <= 6));
        assert!(t.row < 7 && t.col < 8);
    }
    assert_eq!((ring[0].row, ring[0].col, ring[0].kind), (0, 0, BuildingKind::Side));
    assert_eq!((ring[1].row, ring[1].col, ring[1].kind), (0, 1, BuildingKind::Front));
}

#[test]
fn win_when_no_fresh_grass_left() {
    let mut result = GameResult::default();
    assert_eq!(check_win_state(3, &mut result), None);
    assert!(!result.won);
    assert_eq!(check_win_state(0, &mut result), Some(GameState::GameOver));
    assert!(result.won);
}

#[test]
fn lawn_win_clears_earlier_messages() {
    let mut result = GameResult::default();
    result.set(false, "EGZAMIN OBLANY!", "Dziekan Gajecki odeslal cie na poprawke...");
    assert_eq!(check_win_state(0, &mut result), Some(GameState::GameOver));
    assert!(result.won);
    let screen = game_over_screen(&result);
    assert_eq!(screen.title, "WYGRANA!");
    assert_eq!(screen.subtitle, "Zdeptales caly swiezy trawnik!");
}

#[test]
fn game_result_set_outcome_clears_messages() {
    let mut result = GameResult::default();
    result.set(true, "A", "B");
    result.set_outcome(false);
    assert!(!result.won && result.title.is_empty() && result.subtitle.is_empty());
}
