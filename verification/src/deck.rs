//! The deck: shuffling, and dealing hands from it.

use vstd::prelude::*;
use rand::rngs::StdRng;
use crate::rng::random_index;
use crate::trick::{display_sorted, lemma_swap_keeps_multiset, sort_hand_for_display};

verus! {

/// The deck in its order before shuffling: the ids 1 to 52.
pub open spec fn fresh_deck() -> Seq<u8> {
    Seq::new(52, |i: int| (i + 1) as u8)
}

/// Whether `cards` is the deck in some order: it holds what the fresh deck
/// holds.
pub open spec fn is_deck(cards: Seq<u8>) -> bool {
    cards.to_multiset() == fresh_deck().to_multiset()
}

/// The cards with those at the places `i` and `j` changed round.
pub open spec fn swapped(cards: Seq<u8>, i: int, j: int) -> Seq<u8> {
    cards.update(i, cards[j]).update(j, cards[i])
}

/// The cards after the first `k` swaps of a shuffle by `draws`: swap number
/// `m` (counted from 0) changes the card at place `51 - m` with the card at
/// place `draws[m]`.
pub open spec fn shuffled_by(cards: Seq<u8>, draws: Seq<usize>, k: int) -> Seq<u8>
    decreases k,
{
    if k <= 0 {
        cards
    } else {
        swapped(shuffled_by(cards, draws, k - 1), 51 - (k - 1), draws[k - 1] as int)
    }
}

/// Whether `draws` are the draws of a shuffle: one for each place from the
/// last down to the second, none beyond its place.
pub open spec fn are_draws(draws: Seq<usize>) -> bool {
    draws.len() == 51 && forall|m: int| 0 <= m < 51 ==> #[trigger] draws[m] <= 51 - m
}

/// Whether `cards` is a fresh deck shuffled by some draws.
pub open spec fn is_shuffle(cards: Seq<u8>) -> bool {
    exists|draws: Seq<usize>|
        are_draws(draws) && cards == #[trigger] shuffled_by(fresh_deck(), draws, 51)
}

/// No card lies at two places of the hands, and every card is an id from 1
/// to 52.
pub open spec fn no_card_twice(hands: Seq<Seq<u32>>) -> bool {
    &&& forall|p: int, i: int|
        0 <= p < hands.len() && 0 <= i < hands[p].len() ==> 1 <= #[trigger] hands[p][i] <= 52
    &&& forall|p: int, i: int, q: int, j: int|
        0 <= p < hands.len() && 0 <= i < hands[p].len() && 0 <= q < hands.len() && 0 <= j
            < hands[q].len() && (p != q || i != j) ==> #[trigger] hands[p][i]
            != #[trigger] hands[q][j]
}

/// Whether the card `id` lies in one of the hands.
pub open spec fn is_dealt(hands: Seq<Seq<u32>>, id: u32) -> bool {
    exists|p: int, i: int|
        0 <= p < hands.len() && 0 <= i < hands[p].len() && #[trigger] hands[p][i] == id
}

/// Every id from 1 to 52 lies in one of the hands.
pub open spec fn every_card_dealt(hands: Seq<Seq<u32>>) -> bool {
    forall|id: u32| 1 <= id <= 52 ==> #[trigger] is_dealt(hands, id)
}

/// The cards that seat `seat` is dealt, in deck order: the `dealt_cards`
/// cards that follow those of the seats before it.
pub open spec fn dealt_slice(cards: Seq<u8>, seat: int, dealt_cards: int) -> Seq<u32> {
    Seq::new(dealt_cards as nat, |k: int| cards[seat * dealt_cards + k] as u32)
}

/// Whether `hands` is what `num_players` seats are dealt from `cards`, each
/// hand holding its slice of the deck, sorted for display.
pub open spec fn is_deal_of(
    hands: Seq<Seq<u32>>,
    cards: Seq<u8>,
    num_players: int,
    dealt_cards: int,
) -> bool {
    &&& hands.len() == num_players
    &&& forall|p: int|
        0 <= p < num_players ==> {
            &&& (#[trigger] hands[p]).len() == dealt_cards
            &&& hands[p].to_multiset() == dealt_slice(cards, p, dealt_cards).to_multiset()
            &&& display_sorted(hands[p])
        }
}

/// The hands of a table as mathematical values: the cards of each seat.
pub open spec fn hands_view(hands: Seq<Vec<u32>>) -> Seq<Seq<u32>> {
    Seq::new(hands.len(), |p: int| hands[p]@)
}

/// A shuffled deck of the 52 cards.
#[derive(Debug)]
pub struct Deck([u8; 52]);

impl Clone for Deck {
    fn clone(&self) -> (copy: Deck)
        ensures
            copy@ == self@,
    {
        proof {
            use_type_invariant(self);
        }
        Deck(self.0)
    }
}

impl View for Deck {
    type V = Seq<u8>;

    closed spec fn view(&self) -> Seq<u8> {
        self.0@
    }
}

impl Deck {
    #[verifier::type_invariant]
    spec fn holds_every_card(self) -> bool {
        is_deck(self.0@)
    }

    /// Shuffles a fresh deck by the given draws: for each place from the
    /// last down to the second, the card there changes places with the card
    /// at the place drawn for it. The draws come in the order of the swaps,
    /// the one for the last place first, and none lies beyond its place.
    pub fn shuffle_by(draws: &[usize]) -> (deck: Deck)
        requires
            are_draws(draws@),
        ensures
            deck@ == shuffled_by(fresh_deck(), draws@, 51),
            is_deck(deck@),
    {
        let mut a: [u8; 52] = [0u8;52];
        let mut k: usize = 0;
        while k < 52
            invariant
                k <= 52,
                forall|j: int| 0 <= j < k ==> a@[j] == (j + 1) as u8,
            decreases 52 - k,
        {
            a[k] = (k as u8) + 1;
            k += 1;
        }
        assert(a@ =~= fresh_deck());
        let mut done: usize = 0;
        while done < 51
            invariant
                done <= 51,
                are_draws(draws@),
                a@ == shuffled_by(fresh_deck(), draws@, done as int),
                is_deck(a@),
            decreases 51 - done,
        {
            let i: usize = 51 - done;
            let j: usize = draws[done];
            let ghost before = a@;
            let x = a[i];
            let y = a[j];
            a[i] = y;
            a[j] = x;
            proof {
                lemma_swap_keeps_multiset(before, i as int, j as int);
                assert(a@ =~= swapped(before, i as int, j as int));
            }
            done += 1;
        }
        Deck(a)
    }

    /// Shuffles a fresh deck: for each place from the last down to the
    /// second, the card there changes places with one drawn at random from
    /// the places up to and including it.
    pub fn new_shuffled(rng: &mut StdRng) -> (deck: Deck)
        ensures
            is_deck(deck@),
            exists|draws: Seq<usize>|
                are_draws(draws) && deck@ == #[trigger] shuffled_by(fresh_deck(), draws, 51),
            is_shuffle(deck@),
    {
        let mut draws: Vec<usize> = Vec::new();
        let mut m: usize = 0;
        while m < 51
            invariant
                m <= 51,
                draws@.len() == m,
                forall|k: int| 0 <= k < m ==> #[trigger] draws@[k] <= 51 - k,
            decreases 51 - m,
        {
            let j = random_index(rng, 52 - m);
            draws.push(j);
            m += 1;
        }
        Deck::shuffle_by(draws.as_slice())
    }

    /// The cards in the order of the deck.
    pub fn cards(&self) -> (cards: &[u8; 52])
        ensures
            cards@ == self@,
            is_deck(cards@),
    {
        proof {
            use_type_invariant(self);
        }
        &self.0
    }

    /// Deals `dealt_cards` cards to each of `num_players` seats: the first
    /// seat gets the first cards of the deck, the next seat those that
    /// follow, and so on; each hand is then sorted for display. Where the
    /// deck does not hold enough cards, nothing is dealt.
    pub fn deal(&self, num_players: usize, dealt_cards: usize) -> (r: Option<Vec<Vec<u32>>>)
        ensures
            r is Some <==> num_players * dealt_cards <= 52,
            r matches Some(hands) ==> is_deal_of(
                hands_view(hands@),
                self@,
                num_players as int,
                dealt_cards as int,
            ),
            r matches Some(hands) ==> no_card_twice(hands_view(hands@)),
            r matches Some(hands) ==> (num_players * dealt_cards == 52 ==> every_card_dealt(
                hands_view(hands@),
            )),
    {
        proof {
            use_type_invariant(self);
            lemma_deck_facts(self.0@);
        }
        let enough: bool = if num_players == 0 || dealt_cards == 0 {
            assert(num_players * dealt_cards == 0) by (nonlinear_arith)
                requires
                    num_players == 0 || dealt_cards == 0,
            ;
            true
        } else if num_players > 52 || dealt_cards > 52 {
            assert(num_players * dealt_cards > 52) by (nonlinear_arith)
                requires
                    num_players > 52 || dealt_cards > 52,
                    num_players >= 1,
                    dealt_cards >= 1,
            ;
            false
        } else {
            assert(num_players * dealt_cards <= 52 * 52) by (nonlinear_arith)
                requires
                    num_players <= 52,
                    dealt_cards <= 52,
            ;
            num_players * dealt_cards <= 52
        };
        if !enough {
            return None;
        }
        let mut hands: Vec<Vec<u32>> = Vec::new();
        let mut ptr: usize = 0;
        let mut p: usize = 0;
        while p < num_players
            invariant
                p <= num_players,
                num_players * dealt_cards <= 52,
                ptr == p * dealt_cards,
                self.0@.len() == 52,
                hands@.len() == p,
                forall|q: int|
                    0 <= q < p ==> {
                        &&& (#[trigger] hands@[q])@.len() == dealt_cards
                        &&& hands@[q]@.to_multiset() == dealt_slice(
                            self.0@,
                            q,
                            dealt_cards as int,
                        ).to_multiset()
                        &&& display_sorted(hands@[q]@)
                    },
            decreases num_players - p,
        {
            assert((p + 1) * dealt_cards <= num_players * dealt_cards) by (nonlinear_arith)
                requires
                    p < num_players,
            ;
            assert((p + 1) * dealt_cards == p * dealt_cards + dealt_cards) by (nonlinear_arith);
            let mut hand: Vec<u32> = Vec::new();
            let mut k: usize = 0;
            while k < dealt_cards
                invariant
                    k <= dealt_cards,
                    ptr == p * dealt_cards + k,
                    p * dealt_cards + dealt_cards <= 52,
                    self.0@.len() == 52,
                    hand@.len() == k,
                    forall|m: int|
                        0 <= m < k ==> hand@[m] == self.0@[p * dealt_cards + m] as u32,
                decreases dealt_cards - k,
            {
                hand.push(self.0[ptr] as u32);
                ptr += 1;
                k += 1;
            }
            assert(hand@ =~= dealt_slice(self.0@, p as int, dealt_cards as int));
            sort_hand_for_display(hand.as_mut_slice());
            hands.push(hand);
            p += 1;
        }
        proof {
            lemma_deal_is_clean(
                hands_view(hands@),
                self.0@,
                num_players as int,
                dealt_cards as int,
            );
        }
        Some(hands)
    }
}

/// What makes a deck: it has 52 cards, each an id from 1 to 52, none twice,
/// and every id from 1 to 52 is in it.
pub proof fn lemma_deck_facts(cards: Seq<u8>)
    requires
        is_deck(cards),
    ensures
        cards.len() == 52,
        forall|i: int| 0 <= i < 52 ==> 1 <= #[trigger] cards[i] <= 52,
        forall|i: int, j: int| 0 <= i < j < 52 ==> cards[i] != cards[j],
        forall|id: u8| 1 <= id <= 52 ==> cards.contains(id),
        forall|id: u8| cards.to_multiset().count(id) == if 1 <= id <= 52 {
            1nat
        } else {
            0nat
        },
{
    broadcast use vstd::seq_lib::group_to_multiset_ensures;

    let fresh = fresh_deck();
    assert(fresh.no_duplicates());
    fresh.lemma_multiset_has_no_duplicates();
    vstd::seq_lib::to_multiset_len(cards);
    vstd::seq_lib::to_multiset_len(fresh);
    assert(cards.len() == 52);
    assert forall|id: u8| cards.to_multiset().count(id) == if 1 <= id <= 52 {
        1nat
    } else {
        0nat
    } by {
        if 1 <= id <= 52 {
            assert(fresh[id as int - 1] == id);
            assert(fresh.contains(id));
            assert(fresh.to_multiset().contains(id));
        } else {
            if fresh.contains(id) {
                let i = choose|i: int| 0 <= i < fresh.len() && fresh[i] == id;
                assert(false);
            }
        }
    }
    assert forall|i: int| 0 <= i < 52 implies 1 <= #[trigger] cards[i] <= 52 by {
        assert(cards.contains(cards[i]));
        assert(cards.to_multiset().count(cards[i]) > 0);
    }
    cards.lemma_multiset_has_no_duplicates_conv();
    assert forall|id: u8| 1 <= id <= 52 implies cards.contains(id) by {
        assert(cards.to_multiset().count(id) > 0);
    }
}

/// The hands of a deal hold no card twice and nothing but cards; where
/// the whole deck is dealt out, they hold every card.
pub proof fn lemma_deal_is_clean(
    hands: Seq<Seq<u32>>,
    cards: Seq<u8>,
    num_players: int,
    dealt_cards: int,
)
    requires
        is_deck(cards),
        is_deal_of(hands, cards, num_players, dealt_cards),
        0 <= num_players,
        0 <= dealt_cards,
        num_players * dealt_cards <= 52,
    ensures
        no_card_twice(hands),
        num_players * dealt_cards == 52 ==> every_card_dealt(hands),
{
    assert forall|p: int, i: int|
        0 <= p < hands.len() && 0 <= i < hands[p].len() implies 1 <= #[trigger] hands[p][i]
        <= 52 by {
        let k = lemma_card_comes_from_slice(hands, cards, num_players, dealt_cards, p, i);
        lemma_slice_in_range(num_players, dealt_cards, p, k);
        lemma_deck_facts(cards);
        assert(1 <= cards[p * dealt_cards + k] <= 52);
    }
    assert forall|p: int, i: int, q: int, j: int|
        0 <= p < hands.len() && 0 <= i < hands[p].len() && 0 <= q < hands.len() && 0 <= j
            < hands[q].len() && (p != q || i != j) implies #[trigger] hands[p][i]
        != #[trigger] hands[q][j] by {
        lemma_deal_has_no_card_twice(hands, cards, num_players, dealt_cards, p, i, q, j);
    }
    if num_players * dealt_cards == 52 {
        assert forall|id: u32| 1 <= id <= 52 implies #[trigger] is_dealt(hands, id) by {
            let at = lemma_full_deal_holds_every_card(
                hands,
                cards,
                num_players,
                dealt_cards,
                id as u8,
            );
            assert(hands[at.0][at.1] == id);
        }
    }
}

/// No card is dealt twice: two different places in the hands of a deal
/// hold different cards, and every card dealt is an id from 1 to 52.
pub proof fn lemma_deal_has_no_card_twice(
    hands: Seq<Seq<u32>>,
    cards: Seq<u8>,
    num_players: int,
    dealt_cards: int,
    p: int,
    i: int,
    q: int,
    j: int,
)
    requires
        is_deck(cards),
        is_deal_of(hands, cards, num_players, dealt_cards),
        num_players * dealt_cards <= 52,
        0 <= p < num_players,
        0 <= q < num_players,
        0 <= i < dealt_cards,
        0 <= j < dealt_cards,
        p != q || i != j,
    ensures
        hands[p][i] != hands[q][j],
        1 <= hands[p][i] <= 52,
{
    lemma_deck_facts(cards);
    let a = lemma_card_comes_from_slice(hands, cards, num_players, dealt_cards, p, i);
    let b = lemma_card_comes_from_slice(hands, cards, num_players, dealt_cards, q, j);
    lemma_slice_in_range(num_players, dealt_cards, p, a);
    assert(1 <= cards[p * dealt_cards + a] <= 52);
    if p == q {
        let slice = dealt_slice(cards, p, dealt_cards);
        assert(slice.no_duplicates()) by {
            assert forall|m: int, n: int|
                0 <= m < slice.len() && 0 <= n < slice.len() && m != n implies slice[m]
                != slice[n] by {
                lemma_slice_in_range(num_players, dealt_cards, p, m);
                lemma_slice_in_range(num_players, dealt_cards, p, n);
            }
        }
        slice.lemma_multiset_has_no_duplicates();
        hands[p].lemma_multiset_has_no_duplicates_conv();
    } else {
        lemma_slice_in_range(num_players, dealt_cards, p, a);
        lemma_slice_in_range(num_players, dealt_cards, q, b);
        assert(p * dealt_cards + a != q * dealt_cards + b) by (nonlinear_arith)
            requires
                p != q,
                0 <= a < dealt_cards,
                0 <= b < dealt_cards,
        ;
    }
}

/// Where the whole deck is dealt out, every card is in a hand: each id
/// from 1 to 52 lies at some place of some seat's hand.
pub proof fn lemma_full_deal_holds_every_card(
    hands: Seq<Seq<u32>>,
    cards: Seq<u8>,
    num_players: int,
    dealt_cards: int,
    id: u8,
) -> (at: (int, int))
    requires
        is_deck(cards),
        is_deal_of(hands, cards, num_players, dealt_cards),
        0 <= num_players,
        0 <= dealt_cards,
        num_players * dealt_cards == 52,
        1 <= id <= 52,
    ensures
        0 <= at.0 < num_players,
        0 <= at.1 < dealt_cards,
        hands[at.0][at.1] == id,
{
    broadcast use vstd::seq_lib::group_to_multiset_ensures;

    lemma_deck_facts(cards);
    assert(cards.contains(id));
    let m = choose|m: int| 0 <= m < cards.len() && cards[m] == id;
    assert(0 <= m < 52);
    assert(dealt_cards > 0) by (nonlinear_arith)
        requires
            num_players * dealt_cards == 52,
            0 <= dealt_cards,
    ;
    let p = m / dealt_cards;
    let k = m % dealt_cards;
    vstd::arithmetic::div_mod::lemma_fundamental_div_mod(m, dealt_cards);
    assert(0 <= p < num_players) by (nonlinear_arith)
        requires
            m == dealt_cards * p + k,
            0 <= k < dealt_cards,
            0 <= m < num_players * dealt_cards,
    ;
    assert(p * dealt_cards + k == m) by (nonlinear_arith)
        requires
            m == dealt_cards * p + k,
    ;
    let slice = dealt_slice(cards, p, dealt_cards);
    assert(slice[k] == id as u32);
    assert(slice.contains(id as u32));
    assert(hands[p].to_multiset().count(id as u32) > 0);
    assert(hands[p].contains(id as u32));
    let i = choose|i: int| 0 <= i < hands[p].len() && hands[p][i] == id as u32;
    (p, i)
}

/// A place in a seat's slice of the deck is a place in the deck.
proof fn lemma_slice_in_range(num_players: int, dealt_cards: int, p: int, k: int)
    requires
        num_players * dealt_cards <= 52,
        0 <= p < num_players,
        0 <= k < dealt_cards,
    ensures
        0 <= p * dealt_cards + k < 52,
{
    assert(0 <= p * dealt_cards && p * dealt_cards + dealt_cards <= num_players * dealt_cards)
        by (nonlinear_arith)
        requires
            0 <= p < num_players,
            0 < dealt_cards,
    ;
}

/// Each card of a hand comes from the seat's slice of the deck.
proof fn lemma_card_comes_from_slice(
    hands: Seq<Seq<u32>>,
    cards: Seq<u8>,
    num_players: int,
    dealt_cards: int,
    p: int,
    i: int,
) -> (k: int)
    requires
        is_deal_of(hands, cards, num_players, dealt_cards),
        0 <= p < num_players,
        0 <= i < dealt_cards,
    ensures
        0 <= k < dealt_cards,
        hands[p][i] == cards[p * dealt_cards + k] as u32,
{
    broadcast use vstd::seq_lib::group_to_multiset_ensures;

    let slice = dealt_slice(cards, p, dealt_cards);
    assert(hands[p].contains(hands[p][i]));
    assert(hands[p].to_multiset().count(hands[p][i]) > 0);
    assert(slice.contains(hands[p][i]));
    let k = choose|k: int| 0 <= k < slice.len() && slice[k] == hands[p][i];
    k
}

} // verus!
