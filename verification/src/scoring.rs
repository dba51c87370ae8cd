//! Scoring of a finished hand.

use vstd::prelude::*;

verus! {

/// How a made bid is rewarded.
#[derive(Copy, Clone, Debug, PartialEq, Eq, Structural)]
pub enum ScoreMode {
    /// Tricks won, plus the bonus for a made bid.
    Vanilla,
    /// Tricks won; for a made bid the bonus plus the square of the tricks.
    Squared,
}

/// The bonus for a made bid where it is not withheld.
pub const BID_BONUS: u32 = 10;

/// Sum of the calls.
pub open spec fn sum_of(calls: Seq<u32>) -> int
    decreases calls.len(),
{
    if calls.len() == 0 {
        0
    } else {
        sum_of(calls.drop_last()) + calls.last()
    }
}

/// The bonus that a made bid earns in this hand: 10, or nothing when the
/// hard rule is on and the table called fewer tricks than cards were dealt.
pub open spec fn bonus_for_hand(hard_score: bool, calls: Seq<u32>, dealt_cards: u32) -> int {
    if hard_score && sum_of(calls) < dealt_cards {
        0
    } else {
        10
    }
}

/// What a seat earns before the score is capped at the largest `u32`.
pub open spec fn raw_delta(score_mode: ScoreMode, bonus: int, call: u32, tricks: u32) -> int {
    match score_mode {
        ScoreMode::Vanilla => if call == tricks {
            tricks + bonus
        } else {
            tricks as int
        },
        ScoreMode::Squared => if call == tricks {
            bonus + tricks * tricks
        } else {
            tricks as int
        },
    }
}

/// What a seat earns in a hand: `raw_delta`, capped at the largest `u32`.
pub open spec fn seat_delta(score_mode: ScoreMode, bonus: int, call: u32, tricks: u32) -> int {
    if raw_delta(score_mode, bonus, call, tricks) > u32::MAX {
        u32::MAX as int
    } else {
        raw_delta(score_mode, bonus, call, tricks)
    }
}

/// Number of seats that are scored: the shorter of the two lists.
pub open spec fn seats_scored(calls: Seq<u32>, tricks: Seq<u32>) -> int {
    if calls.len() <= tricks.len() {
        calls.len() as int
    } else {
        tricks.len() as int
    }
}

/// The score changes of a hand, seat by seat.
pub open spec fn hand_deltas(
    score_mode: ScoreMode,
    hard_score: bool,
    calls: Seq<u32>,
    tricks: Seq<u32>,
    dealt_cards: u32,
) -> Seq<u32> {
    let n = seats_scored(calls, tricks);
    Seq::new(
        n as nat,
        |i: int|
            seat_delta(
                score_mode,
                bonus_for_hand(hard_score, calls.take(n), dealt_cards),
                calls[i],
                tricks[i],
            ) as u32,
    )
}

/// Computes what each seat earns in a finished hand.
///
/// A seat earns its tricks. A seat that made its bid (a bid of nothing
/// included) earns the bonus as well, and in `Squared` mode the square of
/// its tricks in place of the tricks. The bonus is 10; under the hard rule
/// it is withheld from everyone when the calls of the table add up to less
/// than the cards dealt. Scores are capped at the largest `u32`. Where the
/// two lists differ in length, the seats of the shorter one are scored.
pub fn score_hand(
    score_mode: ScoreMode,
    hard_score: bool,
    calls: &[u32],
    tricks: &[u32],
    dealt_cards: u32,
) -> (deltas: Vec<u32>)
    ensures
        deltas@ == hand_deltas(score_mode, hard_score, calls@, tricks@, dealt_cards),
        deltas@.len() == seats_scored(calls@, tricks@),
{
    let n = if calls.len() <= tricks.len() {
        calls.len()
    } else {
        tricks.len()
    };
    let mut total_calls: u128 = 0;
    let mut k: usize = 0;
    while k < n
        invariant
            k <= n <= calls@.len(),
            total_calls == sum_of(calls@.take(k as int)),
            total_calls <= k * 0xFFFF_FFFF,
        decreases n - k,
    {
        proof {
            assert(calls@.take(k as int + 1).drop_last() =~= calls@.take(k as int));
        }
        total_calls = total_calls + (calls[k] as u128);
        k += 1;
    }
    let bonus: u64 = if hard_score && total_calls < (dealt_cards as u128) {
        0
    } else {
        10
    };
    let mut deltas: Vec<u32> = Vec::new();
    let mut i: usize = 0;
    while i < n
        invariant
            i <= n,
            n == seats_scored(calls@, tricks@),
            bonus == bonus_for_hand(hard_score, calls@.take(n as int), dealt_cards),
            deltas@.len() == i,
            forall|j: int|
                0 <= j < i ==> deltas@[j] == seat_delta(
                    score_mode,
                    bonus as int,
                    calls@[j],
                    tricks@[j],
                ),
        decreases n - i,
    {
        let call = calls[i];
        let t = tricks[i];
        let raw: u64 = match score_mode {
            ScoreMode::Vanilla => {
                if call == t {
                    (t as u64) + bonus
                } else {
                    t as u64
                }
            },
            ScoreMode::Squared => {
                if call == t {
                    assert(t * t <= 0xFFFF_FFFF * 0xFFFF_FFFF) by (nonlinear_arith)
                        requires
                            0 <= t <= 0xFFFF_FFFF,
                    ;
                    bonus + (t as u64) * (t as u64)
                } else {
                    t as u64
                }
            },
        };
        let add: u32 = if raw > (u32::MAX as u64) {
            u32::MAX
        } else {
            raw as u32
        };
        deltas.push(add);
        i += 1;
    }
    assert(deltas@ =~= hand_deltas(score_mode, hard_score, calls@, tricks@, dealt_cards));
    deltas
}

/// A seat that did not make its bid earns its tricks and nothing else.
pub proof fn lemma_missed_bid_earns_tricks(
    score_mode: ScoreMode,
    bonus: int,
    call: u32,
    tricks: u32,
)
    requires
        call != tricks,
    ensures
        seat_delta(score_mode, bonus, call, tricks) == tricks,
{
}

/// A made bid never earns less than a missed one with the same tricks.
pub proof fn lemma_made_bid_earns_more(score_mode: ScoreMode, bonus: int, call: u32, tricks: u32)
    requires
        0 <= bonus,
        call != tricks,
    ensures
        seat_delta(score_mode, bonus, tricks, tricks) >= seat_delta(
            score_mode,
            bonus,
            call,
            tricks,
        ),
{
    assert(tricks * tricks >= tricks) by (nonlinear_arith);
}

/// Changing one entry changes the sum by as much, and no entry is more
/// than the sum.
pub proof fn lemma_sum_of_update(calls: Seq<u32>, i: int, v: u32)
    requires
        0 <= i < calls.len(),
    ensures
        sum_of(calls.update(i, v)) == sum_of(calls) - calls[i] + v,
        calls[i] <= sum_of(calls),
        0 <= sum_of(calls),
    decreases calls.len(),
{
    if i == calls.len() - 1 {
        assert(calls.update(i, v).drop_last() =~= calls.drop_last());
        lemma_sum_of_bounds(calls.drop_last());
    } else {
        assert(calls.update(i, v).drop_last() =~= calls.drop_last().update(i, v));
        lemma_sum_of_update(calls.drop_last(), i, v);
    }
}

/// A sum of calls is not negative.
pub proof fn lemma_sum_of_bounds(calls: Seq<u32>)
    ensures
        0 <= sum_of(calls),
    decreases calls.len(),
{
    if calls.len() > 0 {
        lemma_sum_of_bounds(calls.drop_last());
    }
}

} // verus!
