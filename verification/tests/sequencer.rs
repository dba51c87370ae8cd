use estwhi_core::state::{cards_to_deal, next_player_to_act, next_start_player, next_trump};

#[test]
fn mountain_deal() {
    let max = 3;
    // Limit = 2*3 - 1 = 5 rounds
    assert_eq!(cards_to_deal(1, max), 1);
    assert_eq!(cards_to_deal(2, max), 2);
    assert_eq!(cards_to_deal(3, max), 3); // Peak
    assert_eq!(cards_to_deal(4, max), 2);
    assert_eq!(cards_to_deal(5, max), 1);
    assert_eq!(cards_to_deal(6, max), 0); // End
}

#[test]
fn mountain_deal_is_symmetric() {
    for max in 1..=15u32 {
        for r in 1..=(2 * max - 1) {
            assert_eq!(cards_to_deal(r, max), cards_to_deal(2 * max - r, max));
            assert!(cards_to_deal(r, max) >= 1);
        }
        assert_eq!(cards_to_deal(2 * max, max), 0);
        assert_eq!(cards_to_deal(2 * max + 7, max), 0);
    }
}

#[test]
fn mountain_deal_edges() {
    assert_eq!(cards_to_deal(0, 3), 0);
    assert_eq!(cards_to_deal(1, 0), 0);
    assert_eq!(cards_to_deal(0, 0), 0);
    assert_eq!(cards_to_deal(1, 1), 1);
    assert_eq!(cards_to_deal(2, 1), 0);
    assert_eq!(cards_to_deal(u32::MAX, u32::MAX), u32::MAX);
    assert_eq!(cards_to_deal(u32::MAX, u32::MAX - 1), u32::MAX - 2);
}

#[test]
fn trump_rotation() {
    assert_eq!(next_trump(0), 1);
    assert_eq!(next_trump(1), 2);
    assert_eq!(next_trump(4), 1);
    assert_eq!(next_trump(5), 1); // Boundary > 4
    assert_eq!(next_trump(100), 1); // Far boundary
}

#[test]
fn trump_rotation_middle() {
    assert_eq!(next_trump(2), 3);
    assert_eq!(next_trump(3), 4);
}

#[test]
fn player_rotation() {
    let n = 4;
    assert_eq!(next_start_player(0, n), 1);
    assert_eq!(next_start_player(1, n), 2);
    assert_eq!(next_start_player(4, n), 1);
    assert_eq!(next_start_player(5, n), 1); // Boundary > n
    assert_eq!(next_start_player(100, n), 1); // Far boundary
}

#[test]
fn player_rotation_middle() {
    assert_eq!(next_start_player(2, 4), 3);
    assert_eq!(next_start_player(3, 4), 4);
    assert_eq!(next_start_player(1, 0), 1);
}

#[test]
fn next_player_logic() {
    // 4 players, start player 1
    let trick_empty = vec![None, None, None, None];
    assert_eq!(next_player_to_act(1, &trick_empty), Some(0));

    // Player 1 played
    let trick_p1 = vec![Some(1), None, None, None];
    assert_eq!(next_player_to_act(1, &trick_p1), Some(1));

    // Player 1 and 2 played
    let trick_p12 = vec![Some(1), Some(2), None, None];
    assert_eq!(next_player_to_act(1, &trick_p12), Some(2));

    // Full trick
    let trick_full = vec![Some(1), Some(2), Some(3), Some(4)];
    assert_eq!(next_player_to_act(1, &trick_full), None);

    // Start player 3 (index 2)
    // Order: 2, 3, 0, 1
    assert_eq!(next_player_to_act(3, &trick_empty), Some(2));

    let trick_p3 = vec![None, None, Some(1), None];
    assert_eq!(next_player_to_act(3, &trick_p3), Some(3));

    let trick_p34 = vec![None, None, Some(1), Some(2)];
    assert_eq!(next_player_to_act(3, &trick_p34), Some(0));

    // Edge case: Empty trick vec
    assert_eq!(next_player_to_act(1, &[]), None);
}

#[test]
fn next_player_wraps_large_start() {
    let trick = vec![None, None, None];
    // start player 0 reads as player 1
    assert_eq!(next_player_to_act(0, &trick), Some(0));
    // start player 5 at a table of three is seat (5 - 1) % 3 = 1
    assert_eq!(next_player_to_act(5, &trick), Some(1));
    assert_eq!(next_player_to_act(u32::MAX, &trick), Some(((u32::MAX - 1) % 3) as usize));
}
