use estwhi_core::card::{rank_value, suit_index_from_legacy_id, Card, Rank, Suit};

#[test]
fn card_roundtrip() {
    for id in 1..=52u8 {
        let c = Card::from_legacy_id(id).unwrap();
        assert_eq!(c.legacy_id(), id);
    }
}

#[test]
fn ids_outside_the_deck_name_no_card() {
    assert_eq!(Card::from_legacy_id(0), None);
    assert_eq!(Card::from_legacy_id(53), None);
    assert_eq!(Card::from_legacy_id(255), None);
}

#[test]
fn legacy_ids_follow_suit_then_rank() {
    assert_eq!(
        Card::from_legacy_id(1),
        Some(Card { suit: Suit::Clubs, rank: Rank::Ace })
    );
    assert_eq!(
        Card::from_legacy_id(13),
        Some(Card { suit: Suit::Clubs, rank: Rank::King })
    );
    assert_eq!(
        Card::from_legacy_id(14),
        Some(Card { suit: Suit::Diamonds, rank: Rank::Ace })
    );
    assert_eq!(
        Card::from_legacy_id(27),
        Some(Card { suit: Suit::Spades, rank: Rank::Ace })
    );
    assert_eq!(
        Card::from_legacy_id(52),
        Some(Card { suit: Suit::Hearts, rank: Rank::King })
    );
    assert_eq!(Card { suit: Suit::Hearts, rank: Rank::Ten }.legacy_id(), 49);
    assert_eq!(Card { suit: Suit::Spades, rank: Rank::Two }.legacy_id(), 28);
}

#[test]
fn every_card_has_its_own_id() {
    let mut seen = [false; 53];
    for id in 1..=52u8 {
        let c = Card::from_legacy_id(id).unwrap();
        let back = c.legacy_id() as usize;
        assert!(!seen[back]);
        seen[back] = true;
    }
    assert!(seen[1..].iter().all(|s| *s));
}

#[test]
fn suit_index_by_blocks_of_thirteen() {
    assert_eq!(suit_index_from_legacy_id(1), 1);
    assert_eq!(suit_index_from_legacy_id(13), 1);
    assert_eq!(suit_index_from_legacy_id(14), 2);
    assert_eq!(suit_index_from_legacy_id(26), 2);
    assert_eq!(suit_index_from_legacy_id(27), 3);
    assert_eq!(suit_index_from_legacy_id(39), 3);
    assert_eq!(suit_index_from_legacy_id(40), 4);
    assert_eq!(suit_index_from_legacy_id(52), 4);
}

#[test]
fn rank_value_counts_the_ace_high() {
    assert_eq!(rank_value(1), 14);
    assert_eq!(rank_value(2), 2);
    assert_eq!(rank_value(13), 13);
    assert_eq!(rank_value(40), 14);
    assert_eq!(rank_value(52), 13);
    assert_eq!(rank_value(41), 2);
}

#[test]
fn id_zero_reads_as_the_first_card() {
    assert_eq!(suit_index_from_legacy_id(0), 1);
    assert_eq!(rank_value(0), 14);
}

#[test]
fn ranks_are_ordered_by_face() {
    assert!(Rank::Ace < Rank::Two);
    assert!(Rank::Queen < Rank::King);
}
