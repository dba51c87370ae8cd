use estwhi_core::ai::{legal_card_at, legal_cards};
use estwhi_core::config::{NextNotify, UiConfig};
use estwhi_core::controller::{begin_round, GameState};
use estwhi_core::high_scores::{clip_name, HighScores};
use estwhi_core::{sort_hand_for_display, Deck, ScoreMode};

fn mixed_draws() -> Vec<usize> {
    (0..51).map(|m| (7 * m + 3) % (52 - m)).collect()
}

#[test]
fn shuffle_by_draws_of_the_place_itself_changes_nothing() {
    let draws: Vec<usize> = (0..51).map(|m| 51 - m).collect();
    let deck = Deck::shuffle_by(&draws);
    let fresh: Vec<u8> = (1..=52).collect();
    assert_eq!(deck.cards().to_vec(), fresh);
}

#[test]
fn shuffle_by_draws_of_the_first_place_turns_the_deck() {
    // the first card wanders to the end, every other card moves up by one
    let deck = Deck::shuffle_by(&[0; 51]);
    let mut expected: Vec<u8> = (2..=52).collect();
    expected.push(1);
    assert_eq!(deck.cards().to_vec(), expected);
}

#[test]
fn shuffle_by_draws_of_the_place_before_turns_the_deck_back() {
    // each place changes with the one before it; the last swap is with place 0
    let draws: Vec<usize> = (0..51).map(|m| if m < 50 { 50 - m } else { 0 }).collect();
    let deck = Deck::shuffle_by(&draws);
    let mut expected: Vec<u8> = vec![52];
    expected.extend(1..=51);
    assert_eq!(deck.cards().to_vec(), expected);
}

#[test]
fn shuffle_by_mixed_draws() {
    let deck = Deck::shuffle_by(&mixed_draws());
    assert_eq!(
        deck.cards().to_vec(),
        vec![
            1, 31, 6, 19, 3, 2, 13, 9, 10, 12, 33, 15, 14, 38, 49, 22, 21, 29, 7, 43, 51, 42, 23,
            30, 37, 34, 47, 52, 20, 36, 27, 44, 5, 28, 50, 41, 35, 26, 17, 45, 40, 48, 24, 16, 8,
            46, 39, 32, 25, 18, 11, 4
        ]
    );
}

#[test]
fn shuffle_by_one_swap_only() {
    // only the last place changes, with place 10; all later draws are their own place
    let mut draws: Vec<usize> = (0..51).map(|m| 51 - m).collect();
    draws[0] = 10;
    let deck = Deck::shuffle_by(&draws);
    let mut expected: Vec<u8> = (1..=52).collect();
    expected.swap(51, 10);
    assert_eq!(deck.cards().to_vec(), expected);
}

#[test]
fn deal_from_a_known_deck() {
    let deck = Deck::shuffle_by(&mixed_draws());
    let hands = deck.deal(4, 13).unwrap();
    // each hand is its slice of the deck, sorted for display
    assert_eq!(hands[0], vec![2, 3, 6, 9, 10, 12, 13, 1, 15, 19, 14, 31, 33]);
    assert_eq!(hands[1], vec![7, 21, 22, 23, 29, 30, 34, 37, 38, 42, 43, 49, 51]);
    let mut third: Vec<u32> = vec![47, 52, 20, 36, 27, 44, 5, 28, 50, 41, 35, 26, 17];
    sort_hand_for_display(&mut third);
    assert_eq!(hands[2], third);
    assert_eq!(hands[2], vec![5, 17, 20, 26, 28, 35, 36, 27, 41, 44, 47, 50, 52]);
    assert_eq!(hands[3], vec![4, 8, 11, 16, 18, 24, 25, 32, 39, 45, 46, 48, 40]);
    // the whole deck is dealt: every id once
    let mut all: Vec<u32> = hands.concat();
    all.sort();
    assert_eq!(all, (1..=52).collect::<Vec<u32>>());
    // a smaller deal takes the first cards of the deck
    let small = deck.deal(3, 2).unwrap();
    assert_eq!(small, vec![vec![1, 31], vec![6, 19], vec![2, 3]]);
}

#[test]
fn round_from_a_known_deck() {
    let deck = Deck::shuffle_by(&mixed_draws());
    let config = UiConfig {
        num_players: 4,
        max_cards: 13,
        score_mode: ScoreMode::Vanilla,
        next_notify: NextNotify::Mouse,
        confirm_exit: true,
        hard_score: false,
        cheat_cards: false,
    };
    let mut game = GameState::default();
    game.round_no = 12;
    assert!(begin_round(&mut game, &config, &deck));
    assert_eq!(game.dealt_cards, 13);
    let mut all: Vec<u32> = game.hands.concat();
    all.sort();
    assert_eq!(all, (1..=52).collect::<Vec<u32>>());
    assert!(begin_round(&mut game, &config, &deck));
    assert_eq!(game.dealt_cards, 12);
    let mut dealt: Vec<u32> = game.hands.concat();
    dealt.sort();
    let mut expected: Vec<u32> = deck.cards()[..48].iter().map(|&c| c as u32).collect();
    expected.sort();
    assert_eq!(dealt, expected);
}

#[test]
fn sort_takes_a_slice() {
    let mut cards = [40u32, 1, 13, 27, 52];
    sort_hand_for_display(&mut cards[1..4]);
    assert_eq!(cards, [40, 13, 1, 27, 52]);
    sort_hand_for_display(&mut cards);
    assert_eq!(cards, [13, 1, 27, 52, 40]);
}

#[test]
fn legal_card_at_counts_along_the_hand() {
    let hand = [1, 14, 2, 40, 3];
    let trick = [Some(13), None];
    assert_eq!(legal_cards(&hand, &trick), vec![1, 2, 3]);
    assert_eq!(legal_card_at(&hand, &trick, 0), 1);
    assert_eq!(legal_card_at(&hand, &trick, 1), 2);
    assert_eq!(legal_card_at(&hand, &trick, 2), 3);
    // nothing led: every card of the hand
    let open = [None, None];
    assert_eq!(legal_card_at(&hand, &open, 1), 14);
    assert_eq!(legal_card_at(&hand, &open, 4), 3);
    // void in the suit led: every card of the hand
    let hearts = [Some(45), None];
    assert_eq!(legal_card_at(&[1, 14, 2], &hearts, 2), 2);
}

#[test]
fn names_are_cut_to_fifteen_characters() {
    assert_eq!(clip_name("Ann"), "Ann");
    assert_eq!(clip_name(""), "");
    assert_eq!(clip_name("fifteen letters"), "fifteen letters");
    assert_eq!(clip_name("sixteen letters!"), "sixteen letters");
    assert_eq!(clip_name("äöüäöüäöüäöüäöüäöü"), "äöüäöüäöüäöüäöü");
    let mut hs = HighScores::empty(2);
    assert_eq!(hs.record("A very long name indeed".to_string(), 9), Some(0));
    assert_eq!(hs.names, vec!["A very long nam", "-"]);
    assert_eq!(hs.values, vec![9, 0]);
}
