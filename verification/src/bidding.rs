//! The bidding of a round: each seat calls once, in turn order from the
//! starting player, and the last to call may not bring the calls of the
//! table to the number of cards dealt.
//!
//! The computer seats call by `calculate_bid`. The human's call comes from
//! the host: `prepare_human_bid` lets the seats before the human call and
//! says which call the human may not make, and `run_bidding` takes the
//! human's call and fills in the calls of the whole table.

use vstd::prelude::*;
use crate::ai::{avoiding, bid_for, calculate_bid, forbidden_call};
use crate::config::UiConfig;
use crate::controller::{capped_sum, is_seated, seat_for_turn, GameState, GameView};
use crate::card::id_position;
use crate::state::{lemma_seat_at_turn, seat_at_turn};

verus! {

/// The call that is recorded for the human: the call handed in, held to
/// the cards dealt, and moved off the forbidden call where the human bids
/// last.
pub open spec fn human_call_for(
    call: u32,
    cards_dealt: u32,
    sum_so_far: u32,
    is_last_bidder: bool,
) -> int {
    let capped: int = if call > cards_dealt {
        cards_dealt as int
    } else {
        call as int
    };
    if is_last_bidder {
        avoiding(capped, forbidden_call(cards_dealt, sum_so_far))
    } else {
        capped
    }
}

/// The calls made so far and their sum, held at the largest `u32`.
pub struct BidProgress {
    pub calls: Seq<u32>,
    pub sum: u32,
}

/// The bidding after `turns` seats have called, at a table of `n` where the
/// human hands in `human_call`.
pub open spec fn bidding_after(g: GameView, n: int, human_call: u32, turns: int) -> BidProgress
    decreases turns,
{
    if turns <= 0 {
        BidProgress { calls: g.calls, sum: 0 }
    } else {
        let before = bidding_after(g, n, human_call, turns - 1);
        let seat = seat_at_turn(g.start_player as int, turns - 1, n);
        let is_last = turns == n;
        let call = if seat == 0 {
            human_call_for(human_call, g.dealt_cards, before.sum, is_last) as u32
        } else {
            bid_for(g.hands[seat], g.trump, g.dealt_cards, before.sum, is_last) as u32
        };
        BidProgress { calls: before.calls.update(seat, call), sum: capped_sum(before.sum, call) }
    }
}

/// The turn at which the human at seat 0 calls, at a table of `n` where
/// `start_player` calls first.
pub open spec fn human_turn(start_player: int, n: int) -> int {
    if id_position(start_player) % n == 0 {
        0
    } else {
        n - id_position(start_player) % n
    }
}

/// The call that the human may not make: if the human calls last, the one
/// that would bring the calls of the table to the cards dealt.
pub open spec fn forbidden_for_human(g: GameView, n: int) -> Option<u32> {
    if human_turn(g.start_player as int, n) == n - 1 {
        Some(forbidden_call(g.dealt_cards, bidding_after(g, n, 0, n - 1).sum) as u32)
    } else {
        None
    }
}

/// Brings the call that the human handed in into the form that is
/// recorded: held to `cards_dealt`, and, where the human bids last, moved
/// off the call that would bring the table to `cards_dealt` (one less, or
/// 1 in place of 0).
pub fn normalize_human_call(
    call: u32,
    cards_dealt: u32,
    sum_so_far: u32,
    is_last_bidder: bool,
) -> (recorded: u32)
    ensures
        recorded == human_call_for(call, cards_dealt, sum_so_far, is_last_bidder),
        is_last_bidder ==> recorded != cards_dealt - sum_so_far,
        !is_last_bidder ==> recorded <= cards_dealt,
        call <= cards_dealt && !(is_last_bidder && call == forbidden_call(
            cards_dealt,
            sum_so_far,
        )) ==> recorded == call,
{
    let mut recorded: u32 = if call > cards_dealt {
        cards_dealt
    } else {
        call
    };
    if is_last_bidder {
        let forbidden = cards_dealt.saturating_sub(sum_so_far);
        if recorded == forbidden {
            recorded = if recorded == 0 {
                1
            } else {
                recorded - 1
            };
        }
    }
    recorded
}

/// Lets the first `turns` seats of the turn order call, and returns the
/// sum of their calls.
fn bid_turns(game: &mut GameState, n: usize, human_call: u32, turns: usize) -> (sum: u32)
    requires
        old(game)@.seated(n as int),
        turns <= n,
    ensures
        final(game)@ == (GameView {
            calls: bidding_after(old(game)@, n as int, human_call, turns as int).calls,
            ..old(game)@
        }),
        sum == bidding_after(old(game)@, n as int, human_call, turns as int).sum,
{
    let ghost pre = game@;
    let mut sum: u32 = 0;
    let mut t: usize = 0;
    assert(game@ =~= (GameView { calls: bidding_after(pre, n as int, human_call, 0).calls, ..pre }));
    while t < turns
        invariant
            t <= turns <= n,
            pre.seated(n as int),
            game@ == (GameView {
                calls: bidding_after(pre, n as int, human_call, t as int).calls,
                ..pre
            }),
            game.calls@.len() == n,
            sum == bidding_after(pre, n as int, human_call, t as int).sum,
        decreases turns - t,
    {
        let seat = seat_for_turn(game.start_player, t, n);
        let is_last = t == n - 1;
        let call = if seat == 0 {
            normalize_human_call(human_call, game.dealt_cards, sum, is_last)
        } else {
            calculate_bid(
                game.hands[seat].as_slice(),
                game.trump,
                game.dealt_cards,
                sum,
                is_last,
            )
        };
        game.calls[seat] = call;
        sum = sum.saturating_add(call);
        t += 1;
        assert(game@ =~= (GameView {
            calls: bidding_after(pre, n as int, human_call, t as int).calls,
            ..pre
        }));
    }
    sum
}

/// Finds the turn at which seat 0 calls.
fn turn_of_human(start_player: u32, n: usize) -> (turn: usize)
    requires
        n >= 1,
    ensures
        turn == human_turn(start_player as int, n as int),
        turn < n,
        seat_at_turn(start_player as int, turn as int, n as int) == 0,
{
    let start0: usize = (if start_player >= 1 {
        start_player - 1
    } else {
        0
    }) as usize % n;
    let turn = if start0 == 0 {
        0
    } else {
        n - start0
    };
    proof {
        lemma_seat_at_turn(start_player as int, turn as int, n as int);
    }
    turn
}

/// Opens the bidding: the seats that call before the human make their
/// calls, and the call that the human may not make is noted in the state
/// and returned (`None` unless the human calls last). A state that is not
/// laid for the table is left alone.
pub fn prepare_human_bid(game: &mut GameState, config: &UiConfig) -> (forbidden: Option<u32>)
    ensures
        !old(game)@.seated(config.num_players as int) ==> forbidden is None && final(game)@ == old(game)@,
        old(game)@.seated(config.num_players as int) ==> {
            &&& forbidden == forbidden_for_human(old(game)@, config.num_players as int)
            &&& final(game)@ == (GameView {
                calls: bidding_after(
                    old(game)@,
                    config.num_players as int,
                    0,
                    human_turn(old(game).start_player as int, config.num_players as int),
                ).calls,
                bidding_forbidden: forbidden,
                ..old(game)@
            })
        },
{
    let n = config.num_players as usize;
    let ghost pre = game@;
    if !is_seated(game, n) {
        return None;
    }
    let turn = turn_of_human(game.start_player, n);
    let sum = bid_turns(game, n, 0, turn);
    let forbidden = if turn == n - 1 {
        Some(game.dealt_cards.saturating_sub(sum))
    } else {
        None
    };
    game.bidding_forbidden = forbidden;
    assert(game@ =~= (GameView {
        calls: bidding_after(pre, n as int, 0, turn as int).calls,
        bidding_forbidden: forbidden,
        ..pre
    }));
    forbidden
}

/// Runs the bidding of the table with the call that the human handed in:
/// every seat calls once, in turn order from the starting player, the
/// computer seats by `calculate_bid` and the human by `human_call`, held to
/// the cards dealt and off the forbidden call. Returns whether the calls
/// were made: a state that is not laid for the table is left alone.
pub fn run_bidding(game: &mut GameState, config: &UiConfig, human_call: u32) -> (done: bool)
    ensures
        done == old(game)@.seated(config.num_players as int),
        !done ==> final(game)@ == old(game)@,
        done ==> final(game)@ == (GameView {
            calls: bidding_after(
                old(game)@,
                config.num_players as int,
                human_call,
                config.num_players as int,
            ).calls,
            bidding_forbidden: None,
            ..old(game)@
        }),
{
    let n = config.num_players as usize;
    let ghost pre = game@;
    if !is_seated(game, n) {
        return false;
    }
    let _ = bid_turns(game, n, human_call, n);
    game.bidding_forbidden = None;
    assert(game@ =~= (GameView {
        calls: bidding_after(pre, n as int, human_call, n as int).calls,
        bidding_forbidden: None,
        ..pre
    }));
    true
}

/// The human's recorded call, where the human bids last, never brings the
/// calls of the table to the number of cards dealt.
pub proof fn lemma_human_last_bid_avoids_total(call: u32, cards_dealt: u32, sum_so_far: u32)
    ensures
        human_call_for(call, cards_dealt, sum_so_far, true) + sum_so_far != cards_dealt,
{
}

} // verus!
