use estwhi_core::{decide_trick_winner, is_legal_play, sort_hand_for_display};

#[test]
fn legality_follow_suit() {
    // Lead is hearts (id 40 = Ace of Hearts); player holds a heart
    let trick = vec![Some(40), None, None, None];
    let hand = vec![41, 5, 10];
    assert!(!is_legal_play(5, &trick, &hand));
    assert!(is_legal_play(41, &trick, &hand));
}

#[test]
fn legality_anything_may_be_led() {
    let trick = vec![None, None, None];
    let hand = vec![41, 5, 10];
    assert!(is_legal_play(5, &trick, &hand));
    assert!(is_legal_play(41, &trick, &hand));
    assert!(is_legal_play(5, &[], &hand));
}

#[test]
fn legality_void_hand_may_play_anything() {
    // hearts led, the hand holds none
    let trick = vec![Some(40), None, None, None];
    let hand = vec![1, 14, 27];
    assert!(is_legal_play(1, &trick, &hand));
    assert!(is_legal_play(14, &trick, &hand));
    assert!(is_legal_play(27, &trick, &hand));
}

#[test]
fn legality_lead_is_first_card_found() {
    // the first slot is empty: the diamond in the second slot is the lead
    let trick = vec![None, Some(20), Some(45)];
    let hand = vec![15, 46];
    assert!(is_legal_play(15, &trick, &hand));
    assert!(!is_legal_play(46, &trick, &hand));
}

#[test]
fn winner_no_trump_ace_high() {
    // Hearts led: 40 (Ace) should beat 52 (King) if both hearts
    let trick = vec![Some(52), Some(40), Some(51), Some(41)];
    // lead suit = hearts; highest rank = Ace(40)
    let w = decide_trick_winner(&trick, 1 /* Clubs trump (irrelevant) */).unwrap();
    assert_eq!(w, 1);
}

#[test]
fn winner_with_trump() {
    // Diamonds led, but a spade (trump=3) is played
    let trick = vec![
        Some(20), /* D7 */
        Some(30), /* S4 */
        Some(22), /* D9 */
        Some(24), /* DJ */
    ];
    let w = decide_trick_winner(&trick, 3 /* Spades trump */).unwrap();
    assert_eq!(w, 1);
}

#[test]
fn winner_highest_of_several_trumps() {
    // diamonds led, two spades played: the higher spade wins
    let trick = vec![Some(26), Some(30), Some(39), Some(14)];
    assert_eq!(decide_trick_winner(&trick, 3), Some(2));
    // the ace of trumps beats the king of trumps
    let trick = vec![Some(39), Some(27), Some(14)];
    assert_eq!(decide_trick_winner(&trick, 3), Some(1));
}

#[test]
fn winner_off_suit_cards_cannot_win() {
    // clubs led, hearts is trump but not played: the ace of diamonds loses
    let trick = vec![Some(5), Some(14), Some(9), Some(27)];
    assert_eq!(decide_trick_winner(&trick, 4), Some(2));
}

#[test]
fn winner_needs_a_complete_trick() {
    assert_eq!(decide_trick_winner(&[], 1), None);
    assert_eq!(decide_trick_winner(&[Some(1), None, Some(3)], 1), None);
    assert_eq!(decide_trick_winner(&[None, None], 1), None);
    assert_eq!(decide_trick_winner(&[Some(7)], 2), Some(0));
}

#[test]
fn sort_hand_classic() {
    // Mixed suits and ranks; expect grouping by suit and Ace last within suit
    let mut h = vec![1, 13, 12, 14, 26, 25, 40, 39];
    sort_hand_for_display(&mut h);
    assert_eq!(h[0], 12); // C Queen
    assert_eq!(h[1], 13); // C King
    assert_eq!(h[2], 1); // C Ace at end
    assert_eq!(h.last().copied(), Some(40)); // H Ace at end of hearts block
}

#[test]
fn sort_hand_whole_order() {
    let mut h = vec![1, 13, 12, 14, 26, 25, 40, 39];
    sort_hand_for_display(&mut h);
    assert_eq!(h, vec![12, 13, 1, 25, 26, 14, 39, 40]);
    let mut e: Vec<u32> = vec![];
    sort_hand_for_display(&mut e);
    assert!(e.is_empty());
    let mut d = vec![52, 2, 52, 2];
    sort_hand_for_display(&mut d);
    assert_eq!(d, vec![2, 2, 52, 52]);
}
