//! The computer players: a bid from the strength of the hand, and a card
//! drawn at random from those that may be played.

use vstd::prelude::*;
use rand::rngs::StdRng;
use crate::card::{face_number, suit_index, suit_index_from_legacy_id};
use crate::rng::random_index;
use crate::trick::{is_legal_play, legal_play, lemma_some_card_is_legal};

verus! {

/// Tenths of a trick that a card of face number `face` is taken to be
/// worth: ace 1.0, king 0.8, queen 0.6, jack 0.5, ten 0.4, the others
/// nothing.
pub open spec fn face_tenths(face: int) -> int {
    if face == 1 {
        10
    } else if face == 13 {
        8
    } else if face == 12 {
        6
    } else if face == 11 {
        5
    } else if face == 10 {
        4
    } else {
        0
    }
}

/// Tenths of a trick that a card is taken to be worth: those of its face,
/// and 0.2 more if it is a trump.
pub open spec fn card_tenths(id: u32, trump: u32) -> int {
    face_tenths(face_number(id as int)) + if suit_index(id as int) == trump {
        2int
    } else {
        0int
    }
}

/// Tenths of a trick that a hand is taken to be worth.
pub open spec fn hand_tenths(hand: Seq<u32>, trump: u32) -> int
    decreases hand.len(),
{
    if hand.len() == 0 {
        0
    } else {
        hand_tenths(hand.drop_last(), trump) + card_tenths(hand.last(), trump)
    }
}

/// The estimate of a hand in whole tricks, a half rounded up.
pub open spec fn rounded_estimate(hand: Seq<u32>, trump: u32) -> int {
    (hand_tenths(hand, trump) + 5) / 10
}

/// The estimate held to the number of cards dealt.
pub open spec fn capped_estimate(hand: Seq<u32>, trump: u32, cards_dealt: u32) -> int {
    if rounded_estimate(hand, trump) > cards_dealt {
        cards_dealt as int
    } else {
        rounded_estimate(hand, trump)
    }
}

/// The call that the last bidder may not make: the one that would bring
/// the calls of the table to the number of cards dealt. Where the earlier
/// calls already exceed the cards dealt it is 0.
pub open spec fn forbidden_call(cards_dealt: u32, sum_so_far: u32) -> int {
    if sum_so_far >= cards_dealt {
        0
    } else {
        cards_dealt - sum_so_far
    }
}

/// A call moved off the forbidden one: one trick less, or 1 in place of 0.
pub open spec fn avoiding(call: int, forbidden: int) -> int {
    if call != forbidden {
        call
    } else if call == 0 {
        1
    } else {
        call - 1
    }
}

/// The bid of a computer player.
pub open spec fn bid_for(
    hand: Seq<u32>,
    trump: u32,
    cards_dealt: u32,
    sum_so_far: u32,
    is_last_bidder: bool,
) -> int {
    if is_last_bidder {
        avoiding(capped_estimate(hand, trump, cards_dealt), forbidden_call(cards_dealt, sum_so_far))
    } else {
        capped_estimate(hand, trump, cards_dealt)
    }
}

/// The test that picks the cards of `hand` that may be played into `trick`.
pub open spec fn may_play(trick: Seq<Option<u32>>, hand: Seq<u32>) -> spec_fn(u32) -> bool {
    |c: u32| legal_play(c, trick, hand)
}

/// The cards of `hand` that may be played into `trick`, in the order of the
/// hand.
pub open spec fn legal_subset(hand: Seq<u32>, trick: Seq<Option<u32>>) -> Seq<u32> {
    hand.filter(may_play(trick, hand))
}

/// Computes the bid of a computer player from its hand.
///
/// Each card counts for a fraction of a trick (ace 1.0, king 0.8, queen
/// 0.6, jack 0.5, ten 0.4) and each trump for 0.2 more; the sum is rounded
/// to the nearest whole number, a half upwards, and held to `cards_dealt`.
/// The last bidder may not bring the calls of the table to `cards_dealt`:
/// if the estimate would, it bids one less, or 1 where the estimate is 0.
/// `sum_so_far` is the sum of the calls made before and counts for the last
/// bidder only.
pub fn calculate_bid(
    hand: &[u32],
    trump: u32,
    cards_dealt: u32,
    sum_so_far: u32,
    is_last_bidder: bool,
) -> (call: u32)
    ensures
        call == bid_for(hand@, trump, cards_dealt, sum_so_far, is_last_bidder),
        is_last_bidder ==> call != cards_dealt - sum_so_far,
        !is_last_bidder ==> call <= cards_dealt,
        call <= cards_dealt || call == 1,
{
    let n = hand.len();
    let mut tenths: u128 = 0;
    let mut i: usize = 0;
    while i < n
        invariant
            n == hand@.len(),
            i <= n,
            tenths == hand_tenths(hand@.take(i as int), trump),
            tenths <= 12 * i,
        decreases n - i,
    {
        proof {
            assert(hand@.take(i as int + 1).drop_last() =~= hand@.take(i as int));
        }
        let id = hand[i];
        let zero: u32 = if id >= 1 {
            id - 1
        } else {
            0
        };
        let face: u32 = zero % 13 + 1;
        let mut worth: u128 = if face == 1 {
            10
        } else if face == 13 {
            8
        } else if face == 12 {
            6
        } else if face == 11 {
            5
        } else if face == 10 {
            4
        } else {
            0
        };
        if suit_index_from_legacy_id(id) == trump {
            worth = worth + 2;
        }
        tenths = tenths + worth;
        i += 1;
    }
    assert(hand@.take(n as int) =~= hand@);
    let rounded: u128 = (tenths + 5) / 10;
    let mut call: u32 = if rounded > (cards_dealt as u128) {
        cards_dealt
    } else {
        rounded as u32
    };
    if is_last_bidder {
        let forbidden: u32 = if sum_so_far >= cards_dealt {
            0
        } else {
            cards_dealt - sum_so_far
        };
        if call == forbidden {
            call = if call == 0 {
                1
            } else {
                call - 1
            };
        }
    }
    call
}

/// Lists the cards of `hand` that may be played into `trick`, in the order
/// of the hand.
pub fn legal_cards(hand: &[u32], trick: &[Option<u32>]) -> (legal: Vec<u32>)
    ensures
        legal@ == legal_subset(hand@, trick@),
        hand@.len() > 0 ==> legal@.len() > 0,
        forall|k: int|
            0 <= k < legal@.len() ==> hand@.contains(#[trigger] legal@[k]) && legal_play(
                legal@[k],
                trick@,
                hand@,
            ),
{
    let n = hand.len();
    let mut legal: Vec<u32> = Vec::new();
    let mut i: usize = 0;
    assert(hand@.take(0).filter(may_play(trick@, hand@)) =~= Seq::<u32>::empty()) by {
        hand@.take(0).lemma_filter_len(may_play(trick@, hand@));
    }
    while i < n
        invariant
            n == hand@.len(),
            i <= n,
            legal@ == hand@.take(i as int).filter(may_play(trick@, hand@)),
        decreases n - i,
    {
        let c = hand[i];
        proof {
            assert(hand@.take(i as int + 1) =~= hand@.take(i as int).push(c));
            hand@.take(i as int).lemma_filter_push(c, may_play(trick@, hand@));
        }
        if is_legal_play(c, trick, hand) {
            legal.push(c);
        }
        i += 1;
    }
    proof {
        assert(hand@.take(n as int) =~= hand@);
        lemma_legal_subset(hand@, trick@);
    }
    legal
}

/// The card at place `k` among the cards of `hand` that may be played into
/// `trick`, counted from 0 in the order of the hand.
pub fn legal_card_at(hand: &[u32], trick: &[Option<u32>], k: usize) -> (card: u32)
    requires
        k < legal_subset(hand@, trick@).len(),
    ensures
        card == legal_subset(hand@, trick@)[k as int],
        hand@.contains(card),
        legal_play(card, trick@, hand@),
{
    let legal = legal_cards(hand, trick);
    legal[k]
}

/// Chooses the card that a computer player plays: a place among the cards
/// of its hand that may be played into `trick` is drawn at random, and
/// `legal_card_at` gives the card at that place. The hand must hold a card.
pub fn select_card_to_play(hand: &[u32], trick: &[Option<u32>], rng: &mut StdRng) -> (card: u32)
    requires
        hand@.len() > 0,
    ensures
        legal_subset(hand@, trick@).contains(card),
        hand@.contains(card),
        legal_play(card, trick@, hand@),
{
    let count = legal_cards(hand, trick).len();
    let drawn = random_index(rng, count);
    legal_card_at(hand, trick, drawn)
}

/// The cards that may be played are cards of the hand, each of them may be
/// played, and a hand that holds a card holds one that may be played.
pub proof fn lemma_legal_subset(hand: Seq<u32>, trick: Seq<Option<u32>>)
    ensures
        forall|k: int|
            0 <= k < legal_subset(hand, trick).len() ==> hand.contains(
                #[trigger] legal_subset(hand, trick)[k],
            ) && legal_play(legal_subset(hand, trick)[k], trick, hand),
        forall|c: u32|
            hand.contains(c) && legal_play(c, trick, hand) ==> legal_subset(hand, trick).contains(
                c,
            ),
        hand.len() > 0 ==> legal_subset(hand, trick).len() > 0,
{
    let pred = may_play(trick, hand);
    let sub = hand.filter(pred);
    assert forall|k: int| 0 <= k < sub.len() implies hand.contains(#[trigger] sub[k])
        && legal_play(sub[k], trick, hand) by {
        hand.lemma_filter_pred(pred, k);
        assert(sub.contains(sub[k]));
        hand.lemma_filter_contains_rev(pred, sub[k]);
    }
    assert forall|c: u32| hand.contains(c) && legal_play(c, trick, hand) implies sub.contains(
        c,
    ) by {
        let i = choose|i: int| 0 <= i < hand.len() && hand[i] == c;
        hand.lemma_filter_contains(pred, i);
    }
    if hand.len() > 0 {
        let i = lemma_some_card_is_legal(trick, hand);
        assert(hand.contains(hand[i]));
        assert(sub.contains(hand[i]));
    }
}

/// The worth of a hand does not depend on where a card stands in it: a
/// card put in at any place adds its own worth.
pub proof fn lemma_insert_adds_worth(hand: Seq<u32>, trump: u32, at: int, id: u32)
    requires
        0 <= at <= hand.len(),
    ensures
        hand_tenths(hand.insert(at, id), trump) == hand_tenths(hand, trump) + card_tenths(
            id,
            trump,
        ),
    decreases hand.len(),
{
    let bigger = hand.insert(at, id);
    if at == hand.len() {
        assert(bigger.drop_last() =~= hand);
    } else {
        assert(bigger.drop_last() =~= hand.drop_last().insert(at, id));
        assert(bigger.last() == hand.last());
        lemma_insert_adds_worth(hand.drop_last(), trump, at, id);
    }
}

/// Adding an ace to a hand, at any place, never lowers the rounded
/// estimate, nor the estimate held to the cards dealt.
pub proof fn lemma_ace_never_lowers_estimate(
    hand: Seq<u32>,
    trump: u32,
    at: int,
    ace: u32,
    cards_dealt: u32,
)
    requires
        0 <= at <= hand.len(),
        face_number(ace as int) == 1,
    ensures
        rounded_estimate(hand.insert(at, ace), trump) >= rounded_estimate(hand, trump) + 1,
        capped_estimate(hand.insert(at, ace), trump, cards_dealt) >= capped_estimate(
            hand,
            trump,
            cards_dealt,
        ),
{
    lemma_insert_adds_worth(hand, trump, at, ace);
}

/// The call of the last bidder never brings the calls of the table to the
/// number of cards dealt, whatever was dealt and whatever was called before.
pub proof fn lemma_last_bid_avoids_total(
    hand: Seq<u32>,
    trump: u32,
    cards_dealt: u32,
    sum_so_far: u32,
)
    ensures
        bid_for(hand, trump, cards_dealt, sum_so_far, true) + sum_so_far != cards_dealt,
        bid_for(hand, trump, cards_dealt, sum_so_far, true) >= 0,
{
    lemma_hand_tenths_bounds(hand, trump);
}

/// A hand is worth nothing at least, and 1.2 tricks a card at most.
pub proof fn lemma_hand_tenths_bounds(hand: Seq<u32>, trump: u32)
    ensures
        0 <= hand_tenths(hand, trump) <= 12 * hand.len(),
    decreases hand.len(),
{
    if hand.len() > 0 {
        lemma_hand_tenths_bounds(hand.drop_last(), trump);
    }
}

} // verus!
