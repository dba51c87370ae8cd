//! The rules of a trick: which cards may be played, who wins, and the order
//! in which a hand is laid out.

use vstd::prelude::*;
use crate::card::{rank_strength, rank_value, suit_index, suit_index_from_legacy_id};

verus! {

/// The card that was led: the first card found in the slots of the trick.
pub open spec fn lead_card(trick: Seq<Option<u32>>) -> Option<u32>
    decreases trick.len(),
{
    if trick.len() == 0 {
        None
    } else if trick[0] is Some {
        trick[0]
    } else {
        lead_card(trick.drop_first())
    }
}

/// Whether the hand holds a card of the suit with index `suit`.
pub open spec fn holds_suit(hand: Seq<u32>, suit: int) -> bool {
    exists|i: int| 0 <= i < hand.len() && suit_index(#[trigger] hand[i] as int) == suit
}

/// Whether `card_id` may be played into `trick` from `hand`: anything may be
/// led, a hand without the suit led may play anything, and any other hand
/// must follow suit.
pub open spec fn legal_play(card_id: u32, trick: Seq<Option<u32>>, hand: Seq<u32>) -> bool {
    match lead_card(trick) {
        None => true,
        Some(lead) => !holds_suit(hand, suit_index(lead as int)) || suit_index(card_id as int)
            == suit_index(lead as int),
    }
}

/// Every slot of the trick holds a card, and there is at least one slot.
pub open spec fn trick_is_complete(trick: Seq<Option<u32>>) -> bool {
    trick.len() > 0 && forall|i: int| 0 <= i < trick.len() ==> (#[trigger] trick[i]) is Some
}

/// Whether a card of the trump suit lies in the trick.
pub open spec fn trump_was_played(trick: Seq<Option<u32>>, trump: u32) -> bool {
    exists|i: int|
        0 <= i < trick.len() && (#[trigger] trick[i]) is Some && suit_index(trick[i]->0 as int)
            == trump
}

/// Whether the card in slot `i` of a complete trick can win it: a trump if
/// any trump was played, else a card of the suit led by the first slot.
pub open spec fn is_candidate(trick: Seq<Option<u32>>, trump: u32, i: int) -> bool {
    &&& 0 <= i < trick.len()
    &&& trick[i] is Some
    &&& if trump_was_played(trick, trump) {
        suit_index(trick[i]->0 as int) == trump
    } else {
        trick[0] is Some && suit_index(trick[i]->0 as int) == suit_index(trick[0]->0 as int)
    }
}

/// Whether seat `w` wins the complete trick: it holds the strongest of the
/// cards that can win, and is the first seat to do so.
pub open spec fn wins_trick(trick: Seq<Option<u32>>, trump: u32, w: int) -> bool {
    &&& is_candidate(trick, trump, w)
    &&& forall|i: int| #[trigger]
        is_candidate(trick, trump, i) ==> rank_strength(trick[i]->0 as int) <= rank_strength(
            trick[w]->0 as int,
        )
    &&& forall|i: int|
        0 <= i < w && #[trigger] is_candidate(trick, trump, i) ==> rank_strength(
            trick[i]->0 as int,
        ) < rank_strength(trick[w]->0 as int)
}

/// Key by which a hand is laid out: suit first, strength within the suit
/// second, so that the ace closes its suit.
pub open spec fn display_key(id: u32) -> int {
    suit_index(id as int) * 16 + rank_strength(id as int)
}

/// Whether `a` may stand before `b` in a hand laid out for display. Two ids
/// with the same key (0 and 1, which read as the same card) go by number.
pub open spec fn display_le(a: u32, b: u32) -> bool {
    display_key(a) < display_key(b) || (display_key(a) == display_key(b) && a <= b)
}

/// Whether the hand is in display order.
pub open spec fn display_sorted(hand: Seq<u32>) -> bool {
    forall|i: int, j: int|
        0 <= i <= j < hand.len() ==> display_le(#[trigger] hand[i], #[trigger] hand[j])
}

/// Finds the card that was led, if any.
fn find_lead(trick: &[Option<u32>]) -> (r: Option<u32>)
    ensures
        r == lead_card(trick@),
{
    let n = trick.len();
    let mut i: usize = 0;
    assert(trick@.skip(0) =~= trick@);
    while i < n
        invariant
            n == trick@.len(),
            i <= n,
            lead_card(trick@) == lead_card(trick@.skip(i as int)),
        decreases n - i,
    {
        proof {
            assert(trick@.skip(i as int).drop_first() =~= trick@.skip(i as int + 1));
        }
        match trick[i] {
            Some(c) => {
                return Some(c);
            },
            None => {},
        }
        i += 1;
    }
    None
}

/// Tells whether the hand holds a card of the given suit.
fn hand_holds_suit(hand: &[u32], suit: u32) -> (r: bool)
    ensures
        r == holds_suit(hand@, suit as int),
{
    let n = hand.len();
    let mut i: usize = 0;
    while i < n
        invariant
            n == hand@.len(),
            i <= n,
            forall|k: int| 0 <= k < i ==> suit_index(#[trigger] hand@[k] as int) != suit,
        decreases n - i,
    {
        if suit_index_from_legacy_id(hand[i]) == suit {
            return true;
        }
        i += 1;
    }
    false
}

/// Whether `card_id` may be played into `trick` from `hand`. Anything may be
/// led; once a card lies in the trick, a hand that holds the suit led must
/// follow it, and a hand that does not may play any card.
///
/// The suit led is that of the first card found in `trick`.
pub fn is_legal_play(card_id: u32, trick: &[Option<u32>], hand: &[u32]) -> (legal: bool)
    ensures
        legal == legal_play(card_id, trick@, hand@),
{
    match find_lead(trick) {
        None => true,
        Some(lead_id) => {
            let lead = suit_index_from_legacy_id(lead_id);
            if !hand_holds_suit(hand, lead) {
                true
            } else {
                suit_index_from_legacy_id(card_id) == lead
            }
        },
    }
}

/// Decides the seat (index into `trick`) that wins a complete trick, with
/// `trump` the suit index of the trump suit. The strongest trump wins if a
/// trump was played, else the strongest card of the suit led by the first
/// slot; the ace is the strongest card of a suit. A trick with an empty
/// slot, or with no slots, has no winner.
pub fn decide_trick_winner(trick: &[Option<u32>], trump: u32) -> (r: Option<usize>)
    ensures
        r is Some <==> trick_is_complete(trick@),
        r matches Some(w) ==> wins_trick(trick@, trump, w as int),
{
    let n = trick.len();
    if n == 0 {
        return None;
    }
    // First pass: is the trick complete, and was a trump played?
    let mut any_trump = false;
    let mut i: usize = 0;
    while i < n
        invariant
            n == trick@.len(),
            i <= n,
            forall|k: int| 0 <= k < i ==> (#[trigger] trick@[k]) is Some,
            any_trump <==> exists|k: int|
                0 <= k < i && (#[trigger] trick@[k]) is Some && suit_index(trick@[k]->0 as int)
                    == trump,
        decreases n - i,
    {
        match trick[i] {
            None => {
                return None;
            },
            Some(c) => {
                if suit_index_from_legacy_id(c) == trump {
                    any_trump = true;
                }
            },
        }
        i += 1;
    }
    assert(any_trump == trump_was_played(trick@, trump));
    let lead_suit = match trick[0] {
        Some(c) => suit_index_from_legacy_id(c),
        None => 0,
    };
    let want: u32 = if any_trump {
        trump
    } else {
        lead_suit
    };
    assert(forall|k: int|
        0 <= k < n ==> (#[trigger] is_candidate(trick@, trump, k) <==> suit_index(
            trick@[k]->0 as int,
        ) == want));
    // Second pass: the strongest card of the wanted suit, first seat first.
    let mut best: Option<usize> = None;
    let mut best_val: u32 = 0;
    let mut j: usize = 0;
    while j < n
        invariant
            n == trick@.len(),
            j <= n,
            trick_is_complete(trick@),
            forall|k: int|
                0 <= k < n ==> (#[trigger] is_candidate(trick@, trump, k) <==> suit_index(
                    trick@[k]->0 as int,
                ) == want),
            best is None ==> forall|k: int| 0 <= k < j ==> !#[trigger] is_candidate(
                trick@,
                trump,
                k,
            ),
            best matches Some(w) ==> {
                &&& w < j
                &&& is_candidate(trick@, trump, w as int)
                &&& best_val == rank_strength(trick@[w as int]->0 as int)
                &&& forall|k: int|
                    0 <= k < j && #[trigger] is_candidate(trick@, trump, k) ==> rank_strength(
                        trick@[k]->0 as int,
                    ) <= best_val
                &&& forall|k: int|
                    0 <= k < w && #[trigger] is_candidate(trick@, trump, k) ==> rank_strength(
                        trick@[k]->0 as int,
                    ) < best_val
            },
        decreases n - j,
    {
        match trick[j] {
            Some(c) => {
                if suit_index_from_legacy_id(c) == want {
                    let v = rank_value(c);
                    if best.is_none() || v > best_val {
                        best = Some(j);
                        best_val = v;
                    }
                }
            },
            None => {},
        }
        j += 1;
    }
    proof {
        if any_trump {
            let k = choose|k: int|
                0 <= k < n && (#[trigger] trick@[k]) is Some && suit_index(trick@[k]->0 as int)
                    == trump;
            assert(is_candidate(trick@, trump, k));
        } else {
            assert(trick@[0] is Some);
            assert(is_candidate(trick@, trump, 0));
        }
    }
    best
}

/// Tells whether `a` may stand before `b` in display order.
fn stands_before(a: u32, b: u32) -> (r: bool)
    ensures
        r == display_le(a, b),
{
    let ka: u64 = (suit_index_from_legacy_id(a) as u64) * 16 + (rank_value(a) as u64);
    let kb: u64 = (suit_index_from_legacy_id(b) as u64) * 16 + (rank_value(b) as u64);
    ka < kb || (ka == kb && a <= b)
}

/// Sorts a hand for display: the suits in the order clubs, diamonds, spades,
/// hearts, and within a suit the cards by strength, the ace last.
pub fn sort_hand_for_display(hand: &mut [u32])
    ensures
        display_sorted(final(hand)@),
        final(hand)@.to_multiset() == old(hand)@.to_multiset(),
        final(hand)@.len() == old(hand)@.len(),
{
    let n = hand.len();
    if n == 0 {
        return;
    }
    let mut i: usize = 1;
    while i < n
        invariant
            hand@.len() == n,
            1 <= i <= n,
            forall|a: int, b: int|
                0 <= a <= b < i ==> display_le(#[trigger] hand@[a], #[trigger] hand@[b]),
            hand@.to_multiset() == old(hand)@.to_multiset(),
        decreases n - i,
    {
        let mut j: usize = i;
        while j > 0 && !stands_before(hand[j - 1], hand[j])
            invariant
                hand@.len() == n,
                j <= i < n,
                hand@.to_multiset() == old(hand)@.to_multiset(),
                forall|a: int, b: int|
                    0 <= a <= b <= i && a != j && b != j ==> display_le(
                        #[trigger] hand@[a],
                        #[trigger] hand@[b],
                    ),
                forall|b: int| j < b <= i ==> display_le(hand@[j as int], #[trigger] hand@[b]),
            decreases j,
        {
            let ghost before = hand@;
            let lo = hand[j - 1];
            let hi = hand[j];
            hand[j - 1] = hi;
            hand[j] = lo;
            proof {
                lemma_swap_keeps_multiset(before, j as int - 1, j as int);
                assert(hand@ =~= before.update(j as int - 1, before[j as int]).update(
                    j as int,
                    before[j as int - 1],
                ));
            }
            j -= 1;
        }
        i += 1;
    }
}

/// Changing the places of two entries leaves the multiset of entries as it
/// was.
pub proof fn lemma_swap_keeps_multiset<A>(s: Seq<A>, a: int, b: int)
    requires
        0 <= a < s.len(),
        0 <= b < s.len(),
    ensures
        s.update(a, s[b]).update(b, s[a]).to_multiset() == s.to_multiset(),
{
    broadcast use vstd::multiset::group_multiset_axioms;

    let t = s.update(a, s[b]);
    vstd::seq_lib::to_multiset_update(s, a, s[b]);
    vstd::seq_lib::to_multiset_update(t, b, s[a]);
    vstd::seq_lib::to_multiset_contains(s, s[a]);
    vstd::seq_lib::to_multiset_contains(s, s[b]);
    assert(s.contains(s[a]));
    assert(s.contains(s[b]));
    assert(t.update(b, s[a]).to_multiset() =~= s.to_multiset());
}

/// The display order of a hand is fixed by the cards in it: two hands in
/// display order that hold the same cards are the same hand.
pub proof fn lemma_display_order_unique(a: Seq<u32>, b: Seq<u32>)
    requires
        display_sorted(a),
        display_sorted(b),
        a.to_multiset() == b.to_multiset(),
    ensures
        a == b,
{
    let leq = |x: u32, y: u32| display_le(x, y);
    assert(vstd::relations::sorted_by(a, leq));
    assert(vstd::relations::sorted_by(b, leq));
    assert(vstd::relations::total_ordering(leq));
    vstd::seq_lib::lemma_sorted_unique(a, b, leq);
}

/// A complete trick has exactly one winner.
pub proof fn lemma_winner_unique(trick: Seq<Option<u32>>, trump: u32, a: int, b: int)
    requires
        wins_trick(trick, trump, a),
        wins_trick(trick, trump, b),
    ensures
        a == b,
{
    if a < b {
        assert(is_candidate(trick, trump, a));
    } else if b < a {
        assert(is_candidate(trick, trump, b));
    }
}

/// If a trump lies in a complete trick, the winner holds a trump, and no
/// trump in the trick is stronger than the winner's.
pub proof fn lemma_winner_with_trump(trick: Seq<Option<u32>>, trump: u32, w: int, i: int)
    requires
        trick_is_complete(trick),
        wins_trick(trick, trump, w),
        0 <= i < trick.len(),
        suit_index(trick[i]->0 as int) == trump,
    ensures
        suit_index(trick[w]->0 as int) == trump,
        rank_strength(trick[i]->0 as int) <= rank_strength(trick[w]->0 as int),
{
    assert(trick[i] is Some);
    assert(trump_was_played(trick, trump));
    assert(is_candidate(trick, trump, i));
}

/// If no trump lies in a complete trick, the winner holds a card of the
/// suit led, and no card of that suit in the trick is stronger than the
/// winner's.
pub proof fn lemma_winner_without_trump(trick: Seq<Option<u32>>, trump: u32, w: int, i: int)
    requires
        trick_is_complete(trick),
        wins_trick(trick, trump, w),
        !trump_was_played(trick, trump),
        0 <= i < trick.len(),
        suit_index(trick[i]->0 as int) == suit_index(trick[0]->0 as int),
    ensures
        suit_index(trick[w]->0 as int) == suit_index(trick[0]->0 as int),
        rank_strength(trick[i]->0 as int) <= rank_strength(trick[w]->0 as int),
{
    assert(trick[i] is Some);
    assert(trick[0] is Some);
    assert(is_candidate(trick, trump, i));
}

/// The ace of a suit beats the king of that suit, and every other card of
/// it.
pub proof fn lemma_ace_is_high(ace: int, other: int)
    requires
        ace >= 1,
        other >= 1,
        crate::card::face_number(ace) == 1,
        crate::card::face_number(other) != 1,
    ensures
        rank_strength(other) < rank_strength(ace),
{
}

/// A hand that holds the suit led may play exactly its cards of that suit.
pub proof fn lemma_must_follow_suit(card_id: u32, trick: Seq<Option<u32>>, hand: Seq<u32>)
    requires
        lead_card(trick) is Some,
        holds_suit(hand, suit_index(lead_card(trick)->0 as int)),
    ensures
        legal_play(card_id, trick, hand) <==> suit_index(card_id as int) == suit_index(
            lead_card(trick)->0 as int,
        ),
{
}

/// A hand that does not hold the suit led may play any card, and anything
/// may be led.
pub proof fn lemma_free_play(card_id: u32, trick: Seq<Option<u32>>, hand: Seq<u32>)
    requires
        lead_card(trick) is None || !holds_suit(hand, suit_index(lead_card(trick)->0 as int)),
    ensures
        legal_play(card_id, trick, hand),
{
}

/// A hand that is not empty always holds a card that may be played.
pub proof fn lemma_some_card_is_legal(trick: Seq<Option<u32>>, hand: Seq<u32>) -> (i: int)
    requires
        hand.len() > 0,
    ensures
        0 <= i < hand.len(),
        legal_play(hand[i], trick, hand),
{
    match lead_card(trick) {
        None => 0,
        Some(lead) => {
            if holds_suit(hand, suit_index(lead as int)) {
                choose|i: int|
                    0 <= i < hand.len() && suit_index(#[trigger] hand[i] as int) == suit_index(
                        lead as int,
                    )
            } else {
                0
            }
        },
    }
}

} // verus!
