use estwhi_core::config::{
    calc_max_cards_for_players, parse_score_mode, serialize_score_mode, validate_max_cards,
    validate_players, NextNotify, UiConfig,
};
use estwhi_core::{GameConfig, ScoreMode};

#[test]
fn player_limits() {
    assert_eq!(validate_players(1), 2);
    assert_eq!(validate_players(2), 2);
    assert_eq!(validate_players(6), 6);
    assert_eq!(validate_players(100), 6);
}

#[test]
fn max_cards_calculation() {
    assert_eq!(calc_max_cards_for_players(0), 15); // Safety check
    assert_eq!(calc_max_cards_for_players(4), 13); // 52 / 4 = 13
    assert_eq!(calc_max_cards_for_players(3), 15); // 52 / 3 = 17 -> clamp 15
    assert_eq!(calc_max_cards_for_players(2), 15); // 52 / 2 = 26 -> clamp 15
    assert_eq!(calc_max_cards_for_players(6), 8); // 52 / 6 = 8
}

#[test]
fn max_cards_limits() {
    assert_eq!(validate_max_cards(0), 1);
    assert_eq!(validate_max_cards(13), 13);
    assert_eq!(validate_max_cards(15), 15);
    assert_eq!(validate_max_cards(99), 15);
}

#[test]
fn score_mode_roundtrip() {
    assert_eq!(parse_score_mode(0), ScoreMode::Vanilla);
    assert_eq!(parse_score_mode(1), ScoreMode::Squared);
    assert_eq!(parse_score_mode(99), ScoreMode::Squared);

    assert_eq!(serialize_score_mode(ScoreMode::Vanilla), 0);
    assert_eq!(serialize_score_mode(ScoreMode::Squared), 1);
}

#[test]
fn max_cards_for_crowded_tables() {
    assert_eq!(calc_max_cards_for_players(5), 10);
    assert_eq!(calc_max_cards_for_players(52), 1);
    assert_eq!(calc_max_cards_for_players(53), 0);
    assert_eq!(calc_max_cards_for_players(1), 15);
}

#[test]
fn default_settings() {
    let c = UiConfig::default();
    assert_eq!(c.num_players, 4);
    assert_eq!(c.max_cards, 13);
    assert_eq!(c.score_mode, ScoreMode::Vanilla);
    assert_eq!(c.next_notify, NextNotify::Mouse);
    assert!(c.confirm_exit);
    assert!(!c.hard_score);
    assert!(!c.cheat_cards);
}

#[test]
fn stored_settings_are_clamped() {
    let c = UiConfig::from_stored(0, 99, 7, 0, 0, 1, 2);
    assert_eq!(c.num_players, 2);
    assert_eq!(c.max_cards, 15);
    assert_eq!(c.score_mode, ScoreMode::Squared);
    assert_eq!(c.next_notify, NextNotify::Dialog);
    assert!(!c.confirm_exit);
    assert!(c.hard_score);
    assert!(c.cheat_cards);
    let c = UiConfig::from_stored(5, 9, 0, 1, 1, 0, 0);
    assert_eq!(c.num_players, 5);
    assert_eq!(c.max_cards, 9);
    assert_eq!(c.score_mode, ScoreMode::Vanilla);
    assert_eq!(c.next_notify, NextNotify::Mouse);
    assert!(c.confirm_exit);
    assert!(!c.hard_score);
    assert!(!c.cheat_cards);
}

#[test]
fn game_config_holds_the_rules_settings() {
    let c = GameConfig { num_players: 4, max_cards: 13, score_mode: ScoreMode::Squared, hard_score: true };
    let d = c.clone();
    assert_eq!(d.num_players, 4);
    assert_eq!(d.max_cards, 13);
    assert_eq!(d.score_mode, ScoreMode::Squared);
    assert!(d.hard_score);
}
