//! Round sequencing: the size of each deal, the rotation of trump and of the
//! starting seat, and whose turn it is within a trick.

use vstd::prelude::*;
use crate::card::id_position;

verus! {

/// Number of rounds in a game whose largest deal is `max_cards`.
pub open spec fn total_rounds(max_cards: int) -> int {
    if max_cards >= 1 {
        2 * max_cards - 1
    } else {
        0
    }
}

/// Size of the deal in round `round_no` (counted from 1): the deals climb
/// from 1 to `max_cards` and come down again to 1; past the last round the
/// size is 0.
pub open spec fn deal_size(round_no: int, max_cards: int) -> int {
    if round_no > total_rounds(max_cards) {
        0
    } else if round_no <= max_cards {
        if round_no >= 0 {
            round_no
        } else {
            0
        }
    } else {
        2 * max_cards - round_no
    }
}

/// The trump suit that follows `current`: 1, 2, 3, 4 and round again.
pub open spec fn trump_after(current: int) -> int {
    if current <= 0 || current >= 4 {
        1
    } else {
        current + 1
    }
}

/// The starting player (counted from 1) that follows `current` at a table of
/// `num_players`.
pub open spec fn start_player_after(current: int, num_players: int) -> int {
    if current <= 0 || current >= num_players {
        1
    } else {
        current + 1
    }
}

/// The seat (counted from 0) that acts at position `turn` of a trick led by
/// `start_player` (counted from 1) at a table of `n`.
pub open spec fn seat_at_turn(start_player: int, turn: int, n: int) -> int {
    (id_position(start_player) + turn) % n
}

/// The first seat with an empty slot, looking at the seats in turn order
/// from position `turn` on.
pub open spec fn first_open_from(
    trick: Seq<Option<u32>>,
    start_player: int,
    turn: int,
) -> Option<int>
    decreases trick.len() - turn,
{
    if turn < 0 || turn >= trick.len() {
        None
    } else if trick[seat_at_turn(start_player, turn, trick.len() as int)] is None {
        Some(seat_at_turn(start_player, turn, trick.len() as int))
    } else {
        first_open_from(trick, start_player, turn + 1)
    }
}

/// The seat that acts next in a trick led by `start_player`: the first seat
/// in turn order whose slot is empty, if any.
pub open spec fn next_to_act(start_player: int, trick: Seq<Option<u32>>) -> Option<int> {
    first_open_from(trick, start_player, 0)
}

/// Every slot of the trick holds a card.
pub open spec fn trick_is_full(trick: Seq<Option<u32>>) -> bool {
    forall|i: int| 0 <= i < trick.len() ==> (#[trigger] trick[i]) is Some
}

/// Number of cards to deal in round `round_no` (counted from 1) of a game
/// whose largest deal is `max_cards`; 0 once the game is over.
pub fn cards_to_deal(round_no: u32, max_cards: u32) -> (dealt: u32)
    ensures
        dealt == deal_size(round_no as int, max_cards as int),
        dealt <= max_cards,
{
    if max_cards == 0 {
        return 0;
    }
    if round_no <= max_cards {
        return round_no;
    }
    let twice: u64 = 2 * (max_cards as u64);
    if (round_no as u64) > twice - 1 {
        return 0;
    }
    (twice - (round_no as u64)) as u32
}

/// The trump suit for the round after one played with `current_trump`;
/// 0 stands for "no round played yet".
pub fn next_trump(current_trump: u32) -> (trump: u32)
    ensures
        trump == trump_after(current_trump as int),
        1 <= trump <= 4,
{
    if current_trump == 0 || current_trump >= 4 {
        1
    } else {
        current_trump + 1
    }
}

/// The starting player (counted from 1) for the round after one started by
/// `current_start`; 0 stands for "no round played yet".
pub fn next_start_player(current_start: u32, num_players: u32) -> (start: u32)
    ensures
        start == start_player_after(current_start as int, num_players as int),
        start >= 1,
        num_players >= 1 ==> start <= num_players,
{
    if current_start == 0 || current_start >= num_players {
        1
    } else {
        current_start + 1
    }
}

/// The seat (counted from 0) that acts next in the trick led by
/// `start_player` (counted from 1), or `None` when the trick is full or has
/// no seats.
pub fn next_player_to_act(start_player: u32, trick: &[Option<u32>]) -> (r: Option<usize>)
    ensures
        r is Some <==> next_to_act(start_player as int, trick@) is Some,
        r matches Some(p) ==> next_to_act(start_player as int, trick@) == Some(p as int),
        r matches Some(p) ==> p < trick@.len() && trick@[p as int] is None,
        r is None <==> trick_is_full(trick@),
{
    let n = trick.len();
    if n == 0 {
        return None;
    }
    let start0: usize = (if start_player >= 1 {
        start_player - 1
    } else {
        0
    }) as usize % n;
    let mut i: usize = 0;
    while i < n
        invariant
            n == trick@.len(),
            n > 0,
            i <= n,
            start0 == id_position(start_player as int) % (n as int),
            first_open_from(trick@, start_player as int, i as int) == next_to_act(
                start_player as int,
                trick@,
            ),
            forall|k: int|
                0 <= k < i ==> (#[trigger] trick@[seat_at_turn(start_player as int, k, n as int)])
                    is Some,
        decreases n - i,
    {
        let p: usize = if start0 >= n - i {
            start0 - (n - i)
        } else {
            start0 + i
        };
        proof {
            lemma_seat_at_turn(start_player as int, i as int, n as int);
        }
        if trick[p].is_none() {
            return Some(p);
        }
        i += 1;
    }
    proof {
        lemma_turns_cover_seats(trick@, start_player as int);
    }
    None
}

/// The seat at a turn is the starting seat moved on by the turn, wrapping
/// round the table once at most.
pub proof fn lemma_seat_at_turn(start_player: int, turn: int, n: int)
    requires
        n > 0,
        0 <= turn < n,
    ensures
        0 <= seat_at_turn(start_player, turn, n) < n,
        seat_at_turn(start_player, turn, n) == if id_position(start_player) % n >= n - turn {
            id_position(start_player) % n - (n - turn)
        } else {
            id_position(start_player) % n + turn
        },
{
    let s = id_position(start_player);
    let q = s / n;
    let r = s % n;
    assert(s == q * n + r) by {
        vstd::arithmetic::div_mod::lemma_fundamental_div_mod(s, n);
        vstd::arithmetic::mul::lemma_mul_is_commutative(q, n);
    }
    if r >= n - turn {
        assert(s + turn == (q + 1) * n + (r + turn - n)) by (nonlinear_arith)
            requires
                s == q * n + r,
        ;
        vstd::arithmetic::div_mod::lemma_fundamental_div_mod_converse(
            s + turn,
            n,
            q + 1,
            r + turn - n,
        );
    } else {
        assert(s + turn == q * n + (r + turn));
        vstd::arithmetic::div_mod::lemma_fundamental_div_mod_converse(s + turn, n, q, r + turn);
    }
}

/// Each seat of the table has its turn: seat `p` acts at exactly one
/// position of the trick.
pub proof fn lemma_seat_has_turn(start_player: int, p: int, n: int) -> (turn: int)
    requires
        n > 0,
        0 <= p < n,
    ensures
        0 <= turn < n,
        seat_at_turn(start_player, turn, n) == p,
{
    let r = id_position(start_player) % n;
    let turn = if p >= r {
        p - r
    } else {
        p - r + n
    };
    lemma_seat_at_turn(start_player, turn, n);
    turn
}

/// If the slots of all seats in turn order are filled, the trick is full.
pub proof fn lemma_turns_cover_seats(trick: Seq<Option<u32>>, start_player: int)
    requires
        trick.len() > 0,
        forall|k: int|
            0 <= k < trick.len() ==> (#[trigger] trick[seat_at_turn(
                start_player,
                k,
                trick.len() as int,
            )]) is Some,
    ensures
        trick_is_full(trick),
{
    let n = trick.len() as int;
    assert forall|i: int| 0 <= i < n implies (#[trigger] trick[i]) is Some by {
        let k = lemma_seat_has_turn(start_player, i, n);
        assert(trick[seat_at_turn(start_player, k, n)] is Some);
    }
}

/// While a slot is empty, some seat is due to act; once the trick is full,
/// none is.
pub proof fn lemma_next_to_act_iff_open(start_player: int, trick: Seq<Option<u32>>)
    ensures
        next_to_act(start_player, trick) is None <==> trick_is_full(trick),
        next_to_act(start_player, trick) matches Some(p) ==> 0 <= p < trick.len()
            && trick[p] is None,
{
    lemma_first_open_from(start_player, trick, 0);
    if trick.len() > 0 && next_to_act(start_player, trick) is None {
        lemma_turns_cover_seats(trick, start_player);
    }
}

/// What a scan from position `turn` finds: an empty slot of a seat, or that
/// all the seats from `turn` on have played.
pub proof fn lemma_first_open_from(start_player: int, trick: Seq<Option<u32>>, turn: int)
    requires
        0 <= turn,
    ensures
        first_open_from(trick, start_player, turn) matches Some(p) ==> 0 <= p < trick.len()
            && trick[p] is None,
        first_open_from(trick, start_player, turn) is None ==> forall|k: int|
            turn <= k < trick.len() ==> (#[trigger] trick[seat_at_turn(
                start_player,
                k,
                trick.len() as int,
            )]) is Some,
    decreases trick.len() - turn,
{
    if turn < trick.len() {
        lemma_seat_at_turn(start_player, turn, trick.len() as int);
        lemma_first_open_from(start_player, trick, turn + 1);
    }
}

/// The deals of a game mirror each other round its largest deal: round `r`
/// and round `2 * max_cards - r` have the same size.
pub proof fn lemma_deal_size_symmetric(round_no: int, max_cards: int)
    requires
        1 <= round_no <= 2 * max_cards - 1,
    ensures
        deal_size(round_no, max_cards) == deal_size(2 * max_cards - round_no, max_cards),
        1 <= deal_size(round_no, max_cards) <= max_cards,
{
}

/// Past the last round of a game nothing is dealt.
pub proof fn lemma_deal_size_after_game(round_no: int, max_cards: int)
    requires
        max_cards >= 0,
        round_no > 2 * max_cards - 1,
    ensures
        deal_size(round_no, max_cards) == 0,
{
}

} // verus!
