use estwhi_core::bidding::{normalize_human_call, prepare_human_bid, run_bidding};
use estwhi_core::config::{NextNotify, UiConfig};
use estwhi_core::controller::{
    advance_game_step, begin_round, finalize_trick, play_card, play_human_card, remove_card,
    start_deal, trick_in_play_order, GameState, StepResult,
};
use estwhi_core::{Deck, ScoreMode};
use rand::rngs::StdRng;
use rand::SeedableRng;

fn make_test_game() -> (GameState, UiConfig) {
    let g = GameState {
        round_no: 1,
        trump: 1,        // Clubs
        start_player: 1, // Player 1 starts
        dealt_cards: 1,
        cards_remaining: 1,
        trick: vec![None, None, None, None],
        hands: vec![vec![1], vec![2], vec![3], vec![4]], // A, 2, 3, 4 of Clubs
        calls: vec![0; 4],
        tricks: vec![0; 4],
        scores: vec![0; 4],
        ..Default::default()
    };

    let c = UiConfig {
        num_players: 4,
        max_cards: 1,
        score_mode: estwhi_core::ScoreMode::Vanilla,
        next_notify: NextNotify::Dialog,
        confirm_exit: true,
        hard_score: false,
        cheat_cards: false,
    };
    (g, c)
}

fn table(num_players: u32, max_cards: u32) -> UiConfig {
    UiConfig {
        num_players,
        max_cards,
        score_mode: ScoreMode::Vanilla,
        next_notify: NextNotify::Mouse,
        confirm_exit: true,
        hard_score: false,
        cheat_cards: false,
    }
}

#[test]
fn test_human_turn_start() {
    let (mut g, c) = make_test_game();
    g.start_player = 1; // Player 1 (human) starts
    let mut rng = StdRng::seed_from_u64(42);

    let res = advance_game_step(&mut g, &c, &mut rng);
    assert_eq!(res, StepResult::WaitHuman);
    assert!(g.waiting_for_human);
}

#[test]
fn test_ai_turn() {
    let (mut g, c) = make_test_game();
    g.start_player = 2; // Player 2 starts
    let mut rng = StdRng::seed_from_u64(42);

    let res = advance_game_step(&mut g, &c, &mut rng);
    match res {
        StepResult::AiMoved { seat, card } => {
            assert_eq!(seat, 1); // Index 1 = Player 2
            assert_eq!(card, 2); // 2 of Clubs
        }
        _ => panic!("Expected AiMoved"),
    }

    assert_eq!(g.trick[1], Some(2));
    assert!(g.hands[1].is_empty());
}

#[test]
fn test_trick_completion() {
    let (mut g, c) = make_test_game();
    // Simulate full trick: P1=A(1), P2=2(2), P3=3(3), P4=4(4). All Clubs.
    // A beats all.
    g.trick = vec![Some(1), Some(2), Some(3), Some(4)];
    let mut rng = StdRng::seed_from_u64(42);

    let res = advance_game_step(&mut g, &c, &mut rng);
    match res {
        StepResult::TrickComplete {
            winner,
            winner_1based,
        } => {
            assert_eq!(winner, 0); // P1
            assert_eq!(winner_1based, 1);
        }
        _ => panic!("Expected TrickComplete"),
    }

    assert_eq!(g.tricks[0], 1);
}

#[test]
fn test_finalize_hand() {
    let (mut g, c) = make_test_game();
    g.cards_remaining = 1;
    g.calls = vec![1, 0, 0, 0];
    g.tricks = vec![1, 0, 0, 0]; // P1 matched

    let res = finalize_trick(&mut g, &c);
    match res {
        StepResult::HandComplete {
            final_scores,
            game_over,
        } => {
            assert!(game_over); // dealt=1, max=1 -> round 1 is final (limit 1)
            assert_eq!(final_scores[0], 11); // 1 trick + 10 bonus
        }
        _ => panic!("Expected HandComplete"),
    }

    assert_eq!(g.cards_remaining, 0);
    assert!(g.trick.iter().all(|c| c.is_none()));
}

#[test]
fn end_to_end_single_card_game() {
    // 4 players, max_cards = 1: one card each, the human leads.
    let (mut g, c) = make_test_game();
    let mut rng = StdRng::seed_from_u64(42);

    assert_eq!(advance_game_step(&mut g, &c, &mut rng), StepResult::WaitHuman);
    // waiting again changes nothing
    assert_eq!(advance_game_step(&mut g, &c, &mut rng), StepResult::WaitHuman);
    assert!(play_human_card(&mut g, &c, 1));
    assert!(!g.waiting_for_human);
    assert_eq!(g.current_player, 1);

    assert_eq!(
        advance_game_step(&mut g, &c, &mut rng),
        StepResult::AiMoved { seat: 1, card: 2 }
    );
    assert_eq!(
        advance_game_step(&mut g, &c, &mut rng),
        StepResult::AiMoved { seat: 2, card: 3 }
    );
    assert_eq!(
        advance_game_step(&mut g, &c, &mut rng),
        StepResult::AiMoved { seat: 3, card: 4 }
    );
    assert_eq!(g.trick, vec![Some(1), Some(2), Some(3), Some(4)]);

    assert_eq!(
        advance_game_step(&mut g, &c, &mut rng),
        StepResult::TrickComplete { winner: 0, winner_1based: 1 }
    );
    assert_eq!(g.tricks, vec![1, 0, 0, 0]);
    assert_eq!(g.last_winner, Some(1));
    assert_eq!(g.current_player, 0);
    // the trick stays on the table until it is finalized
    assert_eq!(g.trick, vec![Some(1), Some(2), Some(3), Some(4)]);

    let res = finalize_trick(&mut g, &c);
    // calls were [0, 0, 0, 0]: seat 0 missed (1 trick), the others made their bid
    assert_eq!(
        res,
        StepResult::HandComplete { final_scores: vec![1, 10, 10, 10], game_over: true }
    );
    assert_eq!(g.scores, vec![1, 10, 10, 10]);
    assert_eq!(g.cards_remaining, 0);
    assert_eq!(g.trick, vec![None, None, None, None]);
}

#[test]
fn step_on_unlaid_table_does_nothing() {
    let (mut g, c) = make_test_game();
    let mut rng = StdRng::seed_from_u64(1);
    g.trick = vec![None, None, None];
    assert_eq!(advance_game_step(&mut g, &c, &mut rng), StepResult::NoOp);
    assert_eq!(finalize_trick(&mut g, &c), StepResult::NoOp);
    assert_eq!(g.cards_remaining, 1);
    let mut empty = GameState::default();
    assert_eq!(advance_game_step(&mut empty, &table(0, 1), &mut rng), StepResult::NoOp);
    assert_eq!(advance_game_step(&mut empty, &c, &mut rng), StepResult::NoOp);
}

#[test]
fn step_with_empty_ai_hand_does_nothing() {
    let (mut g, c) = make_test_game();
    let mut rng = StdRng::seed_from_u64(1);
    g.start_player = 2;
    g.hands[1] = vec![];
    assert_eq!(advance_game_step(&mut g, &c, &mut rng), StepResult::NoOp);
    assert_eq!(g.trick, vec![None, None, None, None]);
}

#[test]
fn ai_follows_the_card_that_was_led() {
    // seat 2 leads a heart; seat 3 follows; the human plays a club; seat 1
    // holds a heart and a club and must follow the heart that was led
    let (mut g, c) = make_test_game();
    for seed in 0..20u64 {
        let mut rng = StdRng::seed_from_u64(seed);
        g.start_player = 3;
        g.trick = vec![Some(5), None, Some(45), Some(46)];
        g.hands = vec![vec![], vec![6, 47], vec![], vec![]];
        assert_eq!(
            advance_game_step(&mut g, &c, &mut rng),
            StepResult::AiMoved { seat: 1, card: 47 }
        );
        assert_eq!(g.hands[1], vec![6]);
    }
}

#[test]
fn winner_goes_by_the_card_that_was_led() {
    // seat 2 led the two of hearts; no trump (diamonds) was played; the
    // human's ace of clubs does not count
    let (mut g, c) = make_test_game();
    let mut rng = StdRng::seed_from_u64(3);
    g.start_player = 3;
    g.trump = 2;
    g.trick = vec![Some(1), Some(27), Some(41), Some(43)];
    assert_eq!(
        advance_game_step(&mut g, &c, &mut rng),
        StepResult::TrickComplete { winner: 3, winner_1based: 4 }
    );
    assert_eq!(g.tricks, vec![0, 0, 0, 1]);
    assert_eq!(g.last_winner, Some(4));
    assert_eq!(g.current_player, 3);
}

#[test]
fn human_illegal_play_is_refused() {
    let (mut g, c) = make_test_game();
    g.start_player = 2;
    g.trick = vec![None, Some(45), Some(46), Some(47)];
    g.hands = vec![vec![6, 48], vec![], vec![], vec![]];
    g.waiting_for_human = true;
    g.current_player = 0;
    let before = g.clone();
    // a club while holding a heart
    assert!(!play_human_card(&mut g, &c, 6));
    assert_eq!(g.trick, before.trick);
    assert_eq!(g.hands, before.hands);
    assert!(g.waiting_for_human);
    // a card that is not in the hand
    assert!(!play_human_card(&mut g, &c, 49));
    assert_eq!(g.hands, before.hands);
    // the heart
    assert!(play_human_card(&mut g, &c, 48));
    assert_eq!(g.trick, vec![Some(48), Some(45), Some(46), Some(47)]);
    assert_eq!(g.hands[0], vec![6]);
    assert!(!g.waiting_for_human);
}

#[test]
fn human_play_out_of_turn_is_refused() {
    let (mut g, c) = make_test_game();
    assert!(!play_human_card(&mut g, &c, 1));
    assert_eq!(g.hands[0], vec![1]);
    g.waiting_for_human = true;
    g.current_player = 2;
    assert!(!play_human_card(&mut g, &c, 1));
    assert_eq!(g.hands[0], vec![1]);
}

#[test]
fn finalize_mid_hand_lets_the_winner_lead() {
    let (mut g, c) = make_test_game();
    g.cards_remaining = 3;
    g.trick = vec![Some(1), Some(2), Some(3), Some(4)];
    g.last_winner = Some(3);
    g.waiting_for_continue = true;
    g.scores = vec![5, 6, 7, 8];
    assert_eq!(finalize_trick(&mut g, &c), StepResult::NoOp);
    assert_eq!(g.cards_remaining, 2);
    assert_eq!(g.trick, vec![None, None, None, None]);
    assert_eq!(g.start_player, 3);
    assert_eq!(g.current_player, 2);
    assert!(!g.waiting_for_human);
    assert!(!g.waiting_for_continue);
    assert_eq!(g.scores, vec![5, 6, 7, 8]);

    g.last_winner = Some(1);
    g.trick = vec![Some(1), Some(2), Some(3), Some(4)];
    assert_eq!(finalize_trick(&mut g, &c), StepResult::NoOp);
    assert_eq!(g.cards_remaining, 1);
    assert_eq!(g.start_player, 1);
    assert_eq!(g.current_player, 0);
    assert!(g.waiting_for_human);
}

#[test]
fn finalize_adds_to_the_scores_and_tells_the_last_round() {
    let (mut g, mut c) = make_test_game();
    c.max_cards = 2; // three rounds
    c.score_mode = ScoreMode::Squared;
    g.round_no = 2;
    g.dealt_cards = 2;
    g.calls = vec![2, 0, 1, 0];
    g.tricks = vec![2, 0, 0, 0];
    g.scores = vec![1, 2, 3, u32::MAX - 4];
    let res = finalize_trick(&mut g, &c);
    assert_eq!(
        res,
        StepResult::HandComplete { final_scores: vec![15, 12, 3, u32::MAX], game_over: false }
    );
    g.round_no = 3;
    g.cards_remaining = 1;
    g.scores = vec![0, 0, 0, 0];
    c.hard_score = true; // calls add up to 3 >= 2: the bonus stands
    match finalize_trick(&mut g, &c) {
        StepResult::HandComplete { final_scores, game_over } => {
            assert!(game_over);
            assert_eq!(final_scores, vec![14, 10, 0, 10]);
        }
        _ => panic!("Expected HandComplete"),
    }
    g.calls = vec![1, 0, 0, 0];
    g.tricks = vec![1, 0, 1, 0];
    g.cards_remaining = 0;
    g.scores = vec![0, 0, 0, 0];
    match finalize_trick(&mut g, &c) {
        StepResult::HandComplete { final_scores, .. } => {
            // calls add up to 1 < 2 under the hard rule: no bonus
            assert_eq!(final_scores, vec![1, 0, 1, 0]);
        }
        _ => panic!("Expected HandComplete"),
    }
}

#[test]
fn play_order_starts_with_the_leader() {
    let trick = vec![Some(1), None, Some(3), Some(4)];
    assert_eq!(trick_in_play_order(&trick, 3), vec![Some(3), Some(4), Some(1), None]);
    assert_eq!(trick_in_play_order(&trick, 1), trick);
    assert_eq!(trick_in_play_order(&trick, 0), trick);
    assert_eq!(trick_in_play_order(&vec![], 2), vec![]);
}

#[test]
fn remove_card_takes_the_first_only() {
    let mut h = vec![5, 7, 5, 9];
    remove_card(&mut h, 5);
    assert_eq!(h, vec![7, 5, 9]);
    remove_card(&mut h, 8);
    assert_eq!(h, vec![7, 5, 9]);
    remove_card(&mut h, 9);
    assert_eq!(h, vec![7, 5]);
}

#[test]
fn play_card_moves_the_turn_on() {
    let (mut g, _) = make_test_game();
    g.start_player = 4;
    play_card(&mut g, 3, 4);
    assert_eq!(g.trick, vec![None, None, None, Some(4)]);
    assert_eq!(g.hands[3], Vec::<u32>::new());
    assert_eq!(g.current_player, 0);
}

#[test]
fn shuffled_deck_is_a_permutation() {
    for seed in 0..10u64 {
        let mut rng = StdRng::seed_from_u64(seed);
        let deck = Deck::new_shuffled(&mut rng);
        let mut seen = [0u32; 53];
        for &c in deck.cards().iter() {
            assert!((1..=52).contains(&c));
            seen[c as usize] += 1;
        }
        assert!(seen[1..].iter().all(|&n| n == 1));
    }
}

#[test]
fn shuffled_deck_is_shuffled() {
    let mut rng = StdRng::seed_from_u64(11);
    let deck = Deck::new_shuffled(&mut rng);
    let fresh: Vec<u8> = (1..=52).collect();
    assert_ne!(deck.cards().to_vec(), fresh);
    let again = deck.clone();
    assert_eq!(again.cards(), deck.cards());
}

#[test]
fn deal_hands_out_slices_of_the_deck() {
    let mut rng = StdRng::seed_from_u64(5);
    let deck = Deck::new_shuffled(&mut rng);
    let hands = deck.deal(4, 13).unwrap();
    assert_eq!(hands.len(), 4);
    let mut seen = [0u32; 53];
    for (p, hand) in hands.iter().enumerate() {
        assert_eq!(hand.len(), 13);
        let mut slice: Vec<u32> = deck.cards()[p * 13..(p + 1) * 13].iter().map(|&c| c as u32).collect();
        estwhi_core::sort_hand_for_display(&mut slice);
        assert_eq!(hand, &slice);
        for &c in hand {
            seen[c as usize] += 1;
        }
    }
    assert!(seen[1..].iter().all(|&n| n == 1));
    assert_eq!(deck.deal(3, 2).unwrap().len(), 3);
    assert!(deck.deal(6, 9).is_none());
    assert!(deck.deal(53, 1).is_none());
    assert_eq!(deck.deal(0, 100).unwrap(), Vec::<Vec<u32>>::new());
    assert_eq!(deck.deal(2, 0).unwrap(), vec![Vec::<u32>::new(), Vec::<u32>::new()]);
}

#[test]
fn begin_round_sets_the_table() {
    let mut rng = StdRng::seed_from_u64(9);
    let deck = Deck::new_shuffled(&mut rng);
    let c = table(4, 3);
    let mut g = GameState::default();
    g.scores = vec![9, 9, 9, 9];
    assert!(begin_round(&mut g, &c, &deck));
    assert_eq!(g.round_no, 1);
    assert_eq!(g.dealt_cards, 1);
    assert_eq!(g.trump, 1);
    assert_eq!(g.start_player, 1);
    assert_eq!(g.calls, vec![0; 4]);
    assert_eq!(g.tricks, vec![0; 4]);
    assert_eq!(g.scores, vec![0; 4]); // a game begins
    assert_eq!(g.last_winner, None);
    assert_eq!(g.hands, deck.deal(4, 1).unwrap());
    assert_eq!(g.trick, vec![None; 4]);
    assert_eq!(g.cards_remaining, 1);
    assert_eq!(g.current_player, 0);
    assert!(g.waiting_for_human);
    assert!(!g.waiting_for_continue);

    g.scores = vec![1, 2, 3, 4];
    assert!(begin_round(&mut g, &c, &deck));
    assert_eq!(g.round_no, 2);
    assert_eq!(g.dealt_cards, 2);
    assert_eq!(g.trump, 2);
    assert_eq!(g.start_player, 2);
    assert_eq!(g.scores, vec![1, 2, 3, 4]); // scores stay within a game
    assert_eq!(g.current_player, 1);
    assert!(!g.waiting_for_human);
    assert_eq!(g.hands, deck.deal(4, 2).unwrap());

    assert!(begin_round(&mut g, &c, &deck));
    assert_eq!((g.round_no, g.dealt_cards), (3, 3));
    assert!(begin_round(&mut g, &c, &deck));
    assert_eq!((g.round_no, g.dealt_cards), (4, 2));
    assert!(begin_round(&mut g, &c, &deck));
    assert_eq!((g.round_no, g.dealt_cards, g.trump, g.start_player), (5, 1, 1, 1));
    g.scores = vec![1, 2, 3, 4];
    // past the last round a new game begins
    assert!(begin_round(&mut g, &c, &deck));
    assert_eq!((g.round_no, g.dealt_cards), (1, 1));
    assert_eq!(g.scores, vec![0; 4]);
}

#[test]
fn begin_round_refuses_what_the_deck_cannot_deal() {
    let mut rng = StdRng::seed_from_u64(9);
    let deck = Deck::new_shuffled(&mut rng);
    let c = table(6, 15);
    let mut g = GameState::default();
    g.round_no = 8; // the next round would deal 9 cards to 6 seats
    let before = g.clone();
    assert!(!begin_round(&mut g, &c, &deck));
    assert_eq!(g.round_no, before.round_no);
    assert_eq!(g.hands, before.hands);
    g.round_no = 7;
    assert!(begin_round(&mut g, &c, &deck));
    assert_eq!(g.dealt_cards, 8);
    assert!(!begin_round(&mut GameState::default(), &table(0, 3), &deck));
    assert!(!begin_round(&mut GameState::default(), &table(3, 0), &deck));
}

#[test]
fn start_deal_deals_distinct_cards() {
    let mut rng = StdRng::seed_from_u64(21);
    let c = table(4, 13);
    let mut g = GameState::default();
    for round in 1..=13u32 {
        assert!(start_deal(&mut g, &c, &mut rng));
        assert_eq!(g.round_no, round);
        assert_eq!(g.dealt_cards, round);
        let mut seen = [0u32; 53];
        for hand in &g.hands {
            assert_eq!(hand.len() as u32, round);
            let mut sorted = hand.clone();
            estwhi_core::sort_hand_for_display(&mut sorted);
            assert_eq!(hand, &sorted);
            for &card in hand {
                assert!((1..=52).contains(&card));
                seen[card as usize] += 1;
            }
        }
        assert!(seen.iter().all(|&n| n <= 1));
        assert_eq!(seen.iter().sum::<u32>(), 4 * round);
    }
}

#[test]
fn human_call_is_held_to_the_rules() {
    assert_eq!(normalize_human_call(2, 5, 0, false), 2);
    assert_eq!(normalize_human_call(9, 5, 0, false), 5);
    assert_eq!(normalize_human_call(3, 5, 2, true), 2);
    assert_eq!(normalize_human_call(0, 5, 5, true), 1);
    assert_eq!(normalize_human_call(0, 5, 9, true), 1);
    assert_eq!(normalize_human_call(4, 5, 2, true), 4);
    assert_eq!(normalize_human_call(9, 5, 0, true), 4);
}

#[test]
fn bidding_runs_in_turn_order() {
    let (mut g, c) = make_test_game();
    g.dealt_cards = 2;
    g.trump = 2;
    g.start_player = 2; // order: seats 1, 2, 3, 0
    g.hands = vec![vec![2, 3], vec![1, 13], vec![5, 6], vec![40, 7]];
    // seat 1: 1.8 -> 2; seat 2: 0; seat 3: 1; the human is last, forbidden = 2 - 3 -> 0
    assert_eq!(prepare_human_bid(&mut g, &c), Some(0));
    assert_eq!(g.bidding_forbidden, Some(0));
    assert_eq!(g.calls, vec![0, 2, 0, 1]);
    assert!(run_bidding(&mut g, &c, 0));
    assert_eq!(g.calls, vec![1, 2, 0, 1]);
    assert_eq!(g.bidding_forbidden, None);
    assert!(run_bidding(&mut g, &c, 2));
    assert_eq!(g.calls, vec![2, 2, 0, 1]);
}

#[test]
fn bidding_last_computer_seat_avoids_the_total() {
    let (mut g, c) = make_test_game();
    g.dealt_cards = 2;
    g.trump = 2;
    g.start_player = 1; // order: seats 0, 1, 2, 3
    g.hands = vec![vec![2, 3], vec![5, 6], vec![7, 8], vec![1, 9]];
    assert_eq!(prepare_human_bid(&mut g, &c), None);
    assert_eq!(g.calls, vec![0, 0, 0, 0]);
    // human 1, seats 1 and 2 call 0, seat 3 estimates 1 = forbidden -> 0
    assert!(run_bidding(&mut g, &c, 1));
    assert_eq!(g.calls, vec![1, 0, 0, 0]);
    // human 2: forbidden for seat 3 is 0, its estimate of 1 stands
    assert!(run_bidding(&mut g, &c, 2));
    assert_eq!(g.calls, vec![2, 0, 0, 1]);
    // a human call above the deal is held to the deal
    assert!(run_bidding(&mut g, &c, 7));
    assert_eq!(g.calls, vec![2, 0, 0, 1]);
}

#[test]
fn bidding_on_unlaid_table_does_nothing() {
    let (mut g, c) = make_test_game();
    g.calls = vec![0; 3];
    assert_eq!(prepare_human_bid(&mut g, &c), None);
    assert!(!run_bidding(&mut g, &c, 1));
    assert_eq!(g.calls, vec![0; 3]);
}

#[test]
fn whole_game_keeps_its_books() {
    // a table of three plays a whole game of five rounds; the human plays
    // the first card of its hand that is accepted
    let c = table(3, 3);
    let mut rng = StdRng::seed_from_u64(2024);
    let mut g = GameState::default();
    let mut rounds = 0;
    loop {
        assert!(start_deal(&mut g, &c, &mut rng));
        rounds += 1;
        let forbidden = prepare_human_bid(&mut g, &c);
        let call = if forbidden == Some(0) { 1 } else { 0 };
        assert!(run_bidding(&mut g, &c, call));
        let last = (g.start_player as usize + 1) % 3; // seat that called last
        let others: u32 = (0..3).filter(|&s| s != last).map(|s| g.calls[s]).sum();
        assert_ne!(g.calls[last] as i64, g.dealt_cards as i64 - others as i64);
        let mut hand_over = None;
        let mut steps = 0;
        while hand_over.is_none() {
            steps += 1;
            assert!(steps < 1000);
            match advance_game_step(&mut g, &c, &mut rng) {
                StepResult::WaitHuman => {
                    let hand = g.hands[0].clone();
                    assert!(hand.iter().any(|&card| play_human_card(&mut g, &c, card)));
                }
                StepResult::AiMoved { seat, card } => {
                    assert_eq!(g.trick[seat], Some(card));
                }
                StepResult::TrickComplete { winner, winner_1based } => {
                    assert_eq!(winner as u32 + 1, winner_1based);
                    let won: u32 = g.tricks.iter().sum();
                    assert_eq!(won, g.dealt_cards - g.cards_remaining + 1);
                    if let StepResult::HandComplete { final_scores, game_over } =
                        finalize_trick(&mut g, &c)
                    {
                        assert_eq!(final_scores, g.scores);
                        hand_over = Some(game_over);
                    }
                }
                StepResult::HandComplete { .. } | StepResult::NoOp => panic!("no progress"),
            }
        }
        assert_eq!(g.tricks.iter().sum::<u32>(), g.dealt_cards);
        assert!(g.hands.iter().all(|h| h.is_empty()));
        if hand_over == Some(true) {
            break;
        }
    }
    assert_eq!(rounds, 5);
    assert_eq!(g.round_no, 5);
}
