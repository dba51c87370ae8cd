//! The turn controller: the state of a round, and the steps that move it
//! from one pause to the next.
//!
//! Seat 0 is the human player; the other seats are played by the computer.
//! `advance_game_step` makes one move and says what it was. It stops at two
//! pauses for the host: `WaitHuman`, until the host has handed in the
//! human's card with `play_human_card`, and `TrickComplete`, until the host
//! calls `finalize_trick`.

use vstd::prelude::*;
use rand::rngs::StdRng;
use crate::ai::{legal_subset, lemma_legal_subset, select_card_to_play};
use crate::config::UiConfig;
use crate::deck::{
    every_card_dealt, hands_view, is_deal_of, is_deck, is_shuffle, no_card_twice, Deck,
};
use crate::scoring::{hand_deltas, lemma_sum_of_update, score_hand, sum_of};
use crate::state::{
    cards_to_deal,
    deal_size,
    lemma_next_to_act_iff_open,
    lemma_seat_at_turn,
    next_player_to_act,
    next_start_player,
    next_to_act,
    next_trump,
    seat_at_turn,
    start_player_after,
    total_rounds,
    trick_is_full,
    trump_after,
};
use crate::trick::{decide_trick_winner, trick_is_complete, wins_trick};

verus! {

/// What one step of the controller did.
#[derive(Debug, PartialEq)]
pub enum StepResult {
    /// The human player is due: the host hands in a card.
    WaitHuman,
    /// A computer seat played a card.
    AiMoved { seat: usize, card: u32 },
    /// The trick is full and its winner decided; the trick stays on the
    /// table until it is finalized.
    TrickComplete { winner: usize, winner_1based: u32 },
    /// The hand is played out and scored.
    HandComplete { final_scores: Vec<u32>, game_over: bool },
    /// Nothing was done.
    NoOp,
}

/// The state of a round. Seats are counted from 0 in the lists, and from 1
/// in `start_player` and `last_winner`.
#[derive(Clone, Debug)]
pub struct GameState {
    /// Number of the round, from 1; 0 before the first deal of a game.
    pub round_no: u32,
    /// Suit index of the trump suit, 1 to 4.
    pub trump: u32,
    /// The player who leads the trick, counted from 1.
    pub start_player: u32,
    /// Cards dealt to each seat in this round.
    pub dealt_cards: u32,
    /// The bid of each seat.
    pub calls: Vec<u32>,
    /// The tricks that each seat has won in this round.
    pub tricks: Vec<u32>,
    /// The score of each seat over the game.
    pub scores: Vec<u32>,
    /// The player who won the last trick, counted from 1.
    pub last_winner: Option<u32>,
    /// The hand of each seat, as legacy ids.
    pub hands: Vec<Vec<u32>>,
    /// The card that each seat has played into the trick on the table.
    pub trick: Vec<Option<u32>>,
    /// The controller waits for the human's card.
    pub waiting_for_human: bool,
    /// The seat that is due to act.
    pub current_player: usize,
    /// Tricks still to be played in this round.
    pub cards_remaining: u32,
    /// The call that the human may not make, while it bids last.
    pub bidding_forbidden: Option<u32>,
    /// The host waits for the player before the trick is cleared.
    pub waiting_for_continue: bool,
}

/// The state of a round as a mathematical value.
#[verifier::ext_equal]
pub struct GameView {
    pub round_no: u32,
    pub trump: u32,
    pub start_player: u32,
    pub dealt_cards: u32,
    pub calls: Seq<u32>,
    pub tricks: Seq<u32>,
    pub scores: Seq<u32>,
    pub last_winner: Option<u32>,
    pub hands: Seq<Seq<u32>>,
    pub trick: Seq<Option<u32>>,
    pub waiting_for_human: bool,
    pub current_player: usize,
    pub cards_remaining: u32,
    pub bidding_forbidden: Option<u32>,
    pub waiting_for_continue: bool,
}

impl View for GameState {
    type V = GameView;

    open spec fn view(&self) -> GameView {
        GameView {
            round_no: self.round_no,
            trump: self.trump,
            start_player: self.start_player,
            dealt_cards: self.dealt_cards,
            calls: self.calls@,
            tricks: self.tricks@,
            scores: self.scores@,
            last_winner: self.last_winner,
            hands: hands_view(self.hands@),
            trick: self.trick@,
            waiting_for_human: self.waiting_for_human,
            current_player: self.current_player,
            cards_remaining: self.cards_remaining,
            bidding_forbidden: self.bidding_forbidden,
            waiting_for_continue: self.waiting_for_continue,
        }
    }
}

impl GameView {
    /// The state before the first deal: no seats, no cards, nothing played.
    pub open spec fn empty() -> GameView {
        GameView {
            round_no: 0,
            trump: 0,
            start_player: 0,
            dealt_cards: 0,
            calls: Seq::empty(),
            tricks: Seq::empty(),
            scores: Seq::empty(),
            last_winner: None,
            hands: Seq::empty(),
            trick: Seq::empty(),
            waiting_for_human: false,
            current_player: 0,
            cards_remaining: 0,
            bidding_forbidden: None,
            waiting_for_continue: false,
        }
    }

    /// Whether the lists of the state are laid for a table of `n`: there is
    /// a seat, and each list has one entry for each seat.
    pub open spec fn seated(self, n: int) -> bool {
        &&& n >= 1
        &&& self.trick.len() == n
        &&& self.hands.len() == n
        &&& self.calls.len() == n
        &&& self.tricks.len() == n
        &&& self.scores.len() == n
    }

    /// The trick on the table in the order of play: first the slot of the
    /// seat that leads, then those of the seats that follow it.
    pub open spec fn trick_in_play_order(self) -> Seq<Option<u32>> {
        play_order(self.trick, self.start_player as int)
    }
}

impl Default for GameState {
    fn default() -> (game: GameState)
        ensures
            game@ == GameView::empty(),
    {
        let game = GameState {
            round_no: 0,
            trump: 0,
            start_player: 0,
            dealt_cards: 0,
            calls: Vec::new(),
            tricks: Vec::new(),
            scores: Vec::new(),
            last_winner: None,
            hands: Vec::new(),
            trick: Vec::new(),
            waiting_for_human: false,
            current_player: 0,
            cards_remaining: 0,
            bidding_forbidden: None,
            waiting_for_continue: false,
        };
        assert(game@ =~= GameView::empty());
        game
    }
}

/// The slots of `trick` in the order of play of a trick led by
/// `start_player`.
pub open spec fn play_order(trick: Seq<Option<u32>>, start_player: int) -> Seq<Option<u32>> {
    Seq::new(trick.len(), |k: int| trick[seat_at_turn(start_player, k, trick.len() as int)])
}

/// `x + 1`, held at the largest `u32`.
pub open spec fn one_more(x: u32) -> u32 {
    if x == u32::MAX {
        x
    } else {
        (x + 1) as u32
    }
}

/// Place of the first `card` in `hand` at or after `from`; the length of
/// the hand if there is none.
pub open spec fn place_of(hand: Seq<u32>, card: u32, from: int) -> int
    decreases hand.len() - from,
{
    if from < 0 || from >= hand.len() {
        hand.len() as int
    } else if hand[from] == card {
        from
    } else {
        place_of(hand, card, from + 1)
    }
}

/// The hand without the first `card` in it.
pub open spec fn without_card(hand: Seq<u32>, card: u32) -> Seq<u32> {
    if place_of(hand, card, 0) < hand.len() {
        hand.remove(place_of(hand, card, 0))
    } else {
        hand
    }
}

/// Whether seat `winner` wins the full trick on the table: its card wins
/// the trick read in the order of play.
pub open spec fn seat_wins(g: GameView, winner: int) -> bool {
    exists|k: int|
        0 <= k < g.trick.len() && #[trigger] seat_at_turn(
            g.start_player as int,
            k,
            g.trick.len() as int,
        ) == winner && wins_trick(g.trick_in_play_order(), g.trump, k)
}

/// The state after the full trick has gone to seat `winner`.
pub open spec fn resolved(g: GameView, winner: int) -> GameView {
    GameView {
        tricks: g.tricks.update(winner, one_more(g.tricks[winner])),
        last_winner: Some((winner + 1) as u32),
        current_player: winner as usize,
        ..g
    }
}

/// The state after `seat` has played `card` from its hand: the first such
/// card leaves the hand and lies in the seat's slot, and the turn passes to
/// the seat that acts next, if the trick is not full.
pub open spec fn after_play(g: GameView, seat: int, card: u32) -> GameView {
    let trick = g.trick.update(seat, Some(card));
    GameView {
        hands: g.hands.update(seat, without_card(g.hands[seat], card)),
        trick: trick,
        current_player: match next_to_act(g.start_player as int, trick) {
            Some(p) => p as usize,
            None => g.current_player,
        },
        ..g
    }
}

/// Whether `card` is one that `seat` may play now: a card of its hand that
/// is legal for the trick on the table, read in the order of play.
pub open spec fn may_be_played(g: GameView, seat: int, card: u32) -> bool {
    legal_subset(g.hands[seat], g.trick_in_play_order()).contains(card)
}

/// Whether `(post, r)` is a step from `pre` at a table of `n` seats.
///
/// A state that is not laid for `n` seats is left alone. A full trick goes
/// to its winner. Else, if the human is awaited or due, the step waits for
/// it. Else the computer seat that is due plays one of the cards it may
/// play; a seat with no cards does nothing.
pub open spec fn is_step(pre: GameView, n: int, post: GameView, r: StepResult) -> bool {
    if !pre.seated(n) {
        r is NoOp && post == pre
    } else if trick_is_full(pre.trick) {
        &&& r matches StepResult::TrickComplete { winner, winner_1based }
        &&& seat_wins(pre, winner as int)
        &&& winner_1based == winner + 1
        &&& post == resolved(pre, winner as int)
    } else if pre.waiting_for_human {
        r is WaitHuman && post == pre
    } else {
        let cur = next_to_act(pre.start_player as int, pre.trick)->0;
        if cur == 0 {
            r is WaitHuman && post == (GameView {
                current_player: 0,
                waiting_for_human: true,
                ..pre
            })
        } else if pre.hands[cur].len() == 0 {
            r is NoOp && post == pre
        } else {
            &&& r matches StepResult::AiMoved { seat, card }
            &&& seat == cur
            &&& may_be_played(pre, cur, card)
            &&& post == after_play(pre, cur, card)
        }
    }
}

/// Tells whether the lists of the state are laid for a table of `n`.
pub fn is_seated(game: &GameState, n: usize) -> (r: bool)
    ensures
        r == game@.seated(n as int),
{
    n >= 1 && game.trick.len() == n && game.hands.len() == n && game.calls.len() == n
        && game.tricks.len() == n && game.scores.len() == n
}

/// Lists the slots of the trick in the order of play.
pub fn trick_in_play_order(
    trick: &[Option<u32>],
    start_player: u32,
) -> (ordered: Vec<Option<u32>>)
    ensures
        ordered@ == play_order(trick@, start_player as int),
{
    let n = trick.len();
    let mut ordered: Vec<Option<u32>> = Vec::new();
    if n == 0 {
        assert(ordered@ =~= play_order(trick@, start_player as int));
        return ordered;
    }
    let start0: usize = (if start_player >= 1 {
        start_player - 1
    } else {
        0
    }) as usize % n;
    let mut k: usize = 0;
    while k < n
        invariant
            n == trick@.len(),
            n > 0,
            k <= n,
            start0 == crate::card::id_position(start_player as int) % (n as int),
            ordered@.len() == k,
            forall|j: int|
                0 <= j < k ==> ordered@[j] == trick@[seat_at_turn(start_player as int, j, n as int)],
        decreases n - k,
    {
        let p: usize = if start0 >= n - k {
            start0 - (n - k)
        } else {
            start0 + k
        };
        proof {
            lemma_seat_at_turn(start_player as int, k as int, n as int);
        }
        ordered.push(trick[p]);
        k += 1;
    }
    assert(ordered@ =~= play_order(trick@, start_player as int));
    ordered
}

/// The seat that acts at position `turn` of a trick led by `start_player`
/// at a table of `n`.
pub fn seat_for_turn(start_player: u32, turn: usize, n: usize) -> (seat: usize)
    requires
        turn < n,
    ensures
        seat == seat_at_turn(start_player as int, turn as int, n as int),
        seat < n,
{
    let start0: usize = (if start_player >= 1 {
        start_player - 1
    } else {
        0
    }) as usize % n;
    proof {
        lemma_seat_at_turn(start_player as int, turn as int, n as int);
    }
    if start0 >= n - turn {
        start0 - (n - turn)
    } else {
        start0 + turn
    }
}

/// Takes the first `card` out of `hand`, if there is one.
pub fn remove_card(hand: &mut Vec<u32>, card: u32)
    ensures
        final(hand)@ == without_card(old(hand)@, card),
{
    let n = hand.len();
    let mut i: usize = 0;
    while i < n
        invariant
            n == hand@.len(),
            hand@ == old(hand)@,
            i <= n,
            place_of(hand@, card, i as int) == place_of(hand@, card, 0),
        decreases n - i,
    {
        if hand[i] == card {
            hand.remove(i);
            return;
        }
        i += 1;
    }
}

/// Plays `card` from the hand of `seat` into its slot of the trick, and
/// passes the turn on.
pub fn play_card(game: &mut GameState, seat: usize, card: u32)
    requires
        seat < old(game)@.hands.len(),
        seat < old(game)@.trick.len(),
    ensures
        final(game)@ == after_play(old(game)@, seat as int, card),
{
    let ghost pre = game@;
    let mut hand: Vec<u32> = Vec::new();
    std::mem::swap(&mut hand, &mut game.hands[seat]);
    remove_card(&mut hand, card);
    game.hands[seat] = hand;
    game.trick[seat] = Some(card);
    match next_player_to_act(game.start_player, game.trick.as_slice()) {
        Some(nextp) => {
            game.current_player = nextp;
        },
        None => {},
    }
    assert(game@ =~= after_play(pre, seat as int, card));
}

/// Makes one step of the round: decides a full trick, or waits for the
/// human, or lets the computer seat that is due play a card drawn from
/// those it may play.
pub fn advance_game_step(
    game: &mut GameState,
    config: &UiConfig,
    rng: &mut StdRng,
) -> (r: StepResult)
    ensures
        is_step(old(game)@, config.num_players as int, final(game)@, r),
{
    let n = config.num_players as usize;
    let ghost pre = game@;
    if !is_seated(game, n) {
        return StepResult::NoOp;
    }
    let ordered = trick_in_play_order(game.trick.as_slice(), game.start_player);
    proof {
        lemma_next_to_act_iff_open(game.start_player as int, game.trick@);
        lemma_play_order_full(game.trick@, game.start_player as int);
    }
    match decide_trick_winner(ordered.as_slice(), game.trump) {
        Some(k) => {
            let winner = seat_for_turn(game.start_player, k, n);
            let won = game.tricks[winner];
            game.tricks[winner] = if won == u32::MAX {
                won
            } else {
                won + 1
            };
            let w1 = (winner + 1) as u32;
            game.last_winner = Some(w1);
            game.current_player = winner;
            assert(game@ =~= resolved(pre, winner as int));
            assert(seat_wins(pre, winner as int));
            return StepResult::TrickComplete { winner, winner_1based: w1 };
        },
        None => {},
    }
    if game.waiting_for_human {
        return StepResult::WaitHuman;
    }
    match next_player_to_act(game.start_player, game.trick.as_slice()) {
        Some(cur) => {
            if cur == 0 {
                game.current_player = 0;
                game.waiting_for_human = true;
                assert(game@ =~= (GameView { current_player: 0, waiting_for_human: true, ..pre }));
                return StepResult::WaitHuman;
            }
            if game.hands[cur].len() == 0 {
                return StepResult::NoOp;
            }
            let card = select_card_to_play(game.hands[cur].as_slice(), ordered.as_slice(), rng);
            play_card(game, cur, card);
            StepResult::AiMoved { seat: cur, card }
        },
        None => StepResult::NoOp,
    }
}

/// Whether the human may play `card` now: the table is laid for `n`, the
/// controller waits for the human at seat 0, whose slot is empty, and the
/// card is one that seat 0 may play.
pub open spec fn human_may_play(g: GameView, n: int, card: u32) -> bool {
    &&& g.seated(n)
    &&& g.waiting_for_human
    &&& g.current_player == 0
    &&& g.trick[0] is None
    &&& may_be_played(g, 0, card)
}

/// Tells whether `hand` holds `card`.
fn hand_contains(hand: &[u32], card: u32) -> (r: bool)
    ensures
        r == hand@.contains(card),
{
    let n = hand.len();
    let mut i: usize = 0;
    while i < n
        invariant
            n == hand@.len(),
            i <= n,
            forall|k: int| 0 <= k < i ==> hand@[k] != card,
        decreases n - i,
    {
        if hand[i] == card {
            return true;
        }
        i += 1;
    }
    false
}

/// Plays the human's card. The card is played if the controller waits for
/// the human and the card is one of seat 0's hand that may be played into
/// the trick; the wait is then over. Any other call changes nothing, and
/// the host asks again.
pub fn play_human_card(game: &mut GameState, config: &UiConfig, card_id: u32) -> (played: bool)
    ensures
        played == human_may_play(old(game)@, config.num_players as int, card_id),
        played ==> final(game)@ == (GameView {
            waiting_for_human: false,
            ..after_play(old(game)@, 0, card_id)
        }),
        !played ==> final(game)@ == old(game)@,
{
    let n = config.num_players as usize;
    let ghost pre = game@;
    if !is_seated(game, n) || !game.waiting_for_human || game.current_player != 0 {
        return false;
    }
    if game.trick[0].is_some() {
        return false;
    }
    let ordered = trick_in_play_order(game.trick.as_slice(), game.start_player);
    proof {
        lemma_legal_subset(pre.hands[0], pre.trick_in_play_order());
    }
    if !hand_contains(game.hands[0].as_slice(), card_id) || !crate::trick::is_legal_play(
        card_id,
        ordered.as_slice(),
        game.hands[0].as_slice(),
    ) {
        return false;
    }
    play_card(game, 0, card_id);
    game.waiting_for_human = false;
    assert(game@ =~= (GameView { waiting_for_human: false, ..after_play(pre, 0, card_id) }));
    true
}

/// A trick of `n` empty slots.
pub open spec fn empty_trick(n: int) -> Seq<Option<u32>> {
    Seq::new(n as nat, |i: int| None::<u32>)
}

/// A list of `n` zeros.
pub open spec fn zeros(n: int) -> Seq<u32> {
    Seq::new(n as nat, |i: int| 0u32)
}

/// `x - 1`, held at 0.
pub open spec fn one_less(x: u32) -> u32 {
    if x == 0 {
        x
    } else {
        (x - 1) as u32
    }
}

/// `a + b`, held at the largest `u32`.
pub open spec fn capped_sum(a: u32, b: u32) -> u32 {
    if a + b > u32::MAX {
        u32::MAX
    } else {
        (a + b) as u32
    }
}

/// The scores after the hand on the table has been scored.
pub open spec fn scores_after_hand(g: GameView, config: UiConfig) -> Seq<u32> {
    let deltas = hand_deltas(config.score_mode, config.hard_score, g.calls, g.tricks, g.dealt_cards);
    Seq::new(g.scores.len(), |i: int| capped_sum(g.scores[i], deltas[i]))
}

/// Whether the round `round_no` is the last of a game whose largest deal is
/// `max_cards`.
pub open spec fn is_last_round(round_no: u32, max_cards: u32) -> bool {
    round_no >= total_rounds(max_cards as int)
}

/// The state after the trick on the table has been cleared away. If that
/// was the last trick of the hand, the hand is scored; else the winner of
/// the trick leads the next one.
pub open spec fn finalized(g: GameView, config: UiConfig) -> GameView {
    let n = g.trick.len() as int;
    let cleared = GameView {
        trick: empty_trick(n),
        cards_remaining: one_less(g.cards_remaining),
        waiting_for_continue: false,
        ..g
    };
    if cleared.cards_remaining == 0 {
        GameView { scores: scores_after_hand(g, config), ..cleared }
    } else {
        let start = match g.last_winner {
            Some(w) => w,
            None => g.start_player,
        };
        let first = seat_at_turn(start as int, 0, n);
        GameView {
            start_player: start,
            current_player: first as usize,
            waiting_for_human: first == 0,
            ..cleared
        }
    }
}

/// Whether `(post, r)` is what finalizing the trick makes of `pre`.
pub open spec fn is_finalize(pre: GameView, config: UiConfig, post: GameView, r: StepResult) -> bool {
    if !pre.seated(config.num_players as int) {
        r is NoOp && post == pre
    } else if one_less(pre.cards_remaining) == 0 {
        &&& post == finalized(pre, config)
        &&& r matches StepResult::HandComplete { final_scores, game_over }
        &&& final_scores@ == post.scores
        &&& game_over == is_last_round(pre.round_no, config.max_cards)
    } else {
        post == finalized(pre, config) && r is NoOp
    }
}

/// Clears the trick away after the host has shown it, and counts it off.
/// After the last trick of the hand the hand is scored and the scores are
/// handed out, with a word on whether the game is over. Else the winner of
/// the trick leads the next one, and nothing is reported.
pub fn finalize_trick(game: &mut GameState, config: &UiConfig) -> (r: StepResult)
    ensures
        is_finalize(old(game)@, *config, final(game)@, r),
{
    let n = config.num_players as usize;
    let ghost pre = game@;
    if !is_seated(game, n) {
        return StepResult::NoOp;
    }
    let mut i: usize = 0;
    while i < n
        invariant
            i <= n,
            n == game.trick@.len(),
            forall|k: int| 0 <= k < i ==> (#[trigger] game.trick@[k]) is None,
            game@ == (GameView { trick: game.trick@, ..pre }),
        decreases n - i,
    {
        game.trick[i] = None;
        assert(game@ =~= (GameView { trick: game.trick@, ..pre }));
        i += 1;
    }
    assert(game.trick@ =~= empty_trick(n as int));
    if game.cards_remaining > 0 {
        game.cards_remaining -= 1;
    }
    game.waiting_for_continue = false;
    if game.cards_remaining == 0 {
        let deltas = score_hand(
            config.score_mode,
            config.hard_score,
            game.calls.as_slice(),
            game.tricks.as_slice(),
            game.dealt_cards,
        );
        let mut final_scores: Vec<u32> = Vec::new();
        let mut j: usize = 0;
        while j < n
            invariant
                j <= n,
                n == pre.scores.len(),
                n == deltas@.len(),
                deltas@ == hand_deltas(
                    config.score_mode,
                    config.hard_score,
                    pre.calls,
                    pre.tricks,
                    pre.dealt_cards,
                ),
                final_scores@.len() == j,
                forall|k: int|
                    0 <= k < j ==> final_scores@[k] == capped_sum(pre.scores[k], deltas@[k]),
                game@ == (GameView {
                    trick: empty_trick(n as int),
                    cards_remaining: 0,
                    waiting_for_continue: false,
                    scores: game.scores@,
                    ..pre
                }),
                game.scores@.len() == n,
                forall|k: int|
                    0 <= k < j ==> #[trigger] game.scores@[k] == capped_sum(
                        pre.scores[k],
                        deltas@[k],
                    ),
                forall|k: int| j <= k < n ==> #[trigger] game.scores@[k] == pre.scores[k],
            decreases n - j,
        {
            let total = game.scores[j].saturating_add(deltas[j]);
            game.scores[j] = total;
            final_scores.push(total);
            assert(game@ =~= (GameView {
                trick: empty_trick(n as int),
                cards_remaining: 0,
                waiting_for_continue: false,
                scores: game.scores@,
                ..pre
            }));
            j += 1;
        }
        let last: u64 = if config.max_cards >= 1 {
            2 * (config.max_cards as u64) - 1
        } else {
            0
        };
        let game_over = (game.round_no as u64) >= last;
        assert(game.scores@ =~= scores_after_hand(pre, *config)) by {
            assert(game.scores@.len() == scores_after_hand(pre, *config).len());
            assert forall|k: int| 0 <= k < n implies game.scores@[k] == scores_after_hand(
                pre,
                *config,
            )[k] by {}
        }
        assert(final_scores@ =~= game.scores@);
        assert(game@ =~= finalized(pre, *config));
        StepResult::HandComplete { final_scores, game_over }
    } else {
        match game.last_winner {
            Some(w) => {
                game.start_player = w;
            },
            None => {},
        }
        let first = seat_for_turn(game.start_player, 0, n);
        game.current_player = first;
        game.waiting_for_human = first == 0;
        assert(game@ =~= finalized(pre, *config));
        StepResult::NoOp
    }
}

/// The number of the round that follows round `round_no`: the next one, or
/// 1 where a game begins (before the first round, and after the last).
pub open spec fn round_after(round_no: u32, max_cards: u32) -> int {
    if begins_game(round_no, max_cards) {
        1
    } else {
        round_no + 1
    }
}

/// Whether the round that follows round `round_no` begins a game.
pub open spec fn begins_game(round_no: u32, max_cards: u32) -> bool {
    round_no == 0 || round_no + 1 > total_rounds(max_cards as int)
}

/// The size of the deal that follows round `round_no`.
pub open spec fn deal_after(round_no: u32, config: UiConfig) -> int {
    deal_size(round_after(round_no, config.max_cards), config.max_cards as int)
}

/// Whether the round that follows round `round_no` can be dealt: there is a
/// player and a card to deal, the deck holds enough cards for the table,
/// and the number of the round can be written down.
pub open spec fn can_deal(round_no: u32, config: UiConfig) -> bool {
    &&& config.num_players >= 1
    &&& config.max_cards >= 1
    &&& config.num_players * deal_after(round_no, config) <= 52
    &&& round_after(round_no, config.max_cards) <= u32::MAX
}

/// Whether `post` is the start of the round that follows `pre`, dealt from
/// the deck `cards`.
///
/// The round number moves on and fixes the size of the deal; trump and the
/// starting player rotate; calls and tricks are at nothing, and so are the
/// scores where a game begins; each seat holds its cards of the deck,
/// sorted for display; the trick is empty and the starting player is due.
pub open spec fn is_round_start(
    pre: GameView,
    config: UiConfig,
    cards: Seq<u8>,
    post: GameView,
) -> bool {
    let n = config.num_players as int;
    let dealt = deal_after(pre.round_no, config);
    let start = start_player_after(pre.start_player as int, n);
    let first = seat_at_turn(start, 0, n);
    &&& post.round_no == round_after(pre.round_no, config.max_cards)
    &&& post.dealt_cards == dealt
    &&& post.trump == trump_after(pre.trump as int)
    &&& post.start_player == start
    &&& post.calls == zeros(n)
    &&& post.tricks == zeros(n)
    &&& post.scores == if begins_game(pre.round_no, config.max_cards) || pre.scores.len() != n {
        zeros(n)
    } else {
        pre.scores
    }
    &&& post.last_winner is None
    &&& is_deal_of(post.hands, cards, n, dealt)
    &&& post.trick == empty_trick(n)
    &&& post.waiting_for_human == (first == 0)
    &&& post.current_player == first
    &&& post.cards_remaining == dealt
    &&& post.bidding_forbidden is None
    &&& !post.waiting_for_continue
}

/// Makes a list of `n` zeros.
fn zero_list(n: usize) -> (v: Vec<u32>)
    ensures
        v@ == zeros(n as int),
{
    let mut v: Vec<u32> = Vec::new();
    let mut i: usize = 0;
    while i < n
        invariant
            i <= n,
            v@.len() == i,
            forall|k: int| 0 <= k < i ==> v@[k] == 0,
        decreases n - i,
    {
        v.push(0);
        i += 1;
    }
    assert(v@ =~= zeros(n as int));
    v
}

/// Makes a trick of `n` empty slots.
fn open_trick(n: usize) -> (v: Vec<Option<u32>>)
    ensures
        v@ == empty_trick(n as int),
{
    let mut v: Vec<Option<u32>> = Vec::new();
    let mut i: usize = 0;
    while i < n
        invariant
            i <= n,
            v@.len() == i,
            forall|k: int| 0 <= k < i ==> (#[trigger] v@[k]) is None,
        decreases n - i,
    {
        v.push(None);
        i += 1;
    }
    assert(v@ =~= empty_trick(n as int));
    v
}

/// Starts the round that follows the one in `game`, dealing from `deck`.
/// Where the round cannot be dealt (nobody at the table, nothing to deal,
/// or more cards asked for than the deck holds) nothing changes.
pub fn begin_round(game: &mut GameState, config: &UiConfig, deck: &Deck) -> (dealt: bool)
    ensures
        dealt == can_deal(old(game).round_no, *config),
        dealt ==> is_round_start(old(game)@, *config, deck@, final(game)@),
        dealt ==> final(game)@.seated(config.num_players as int),
        dealt ==> no_card_twice(final(game)@.hands),
        dealt ==> (config.num_players * final(game).dealt_cards == 52 ==> every_card_dealt(
            final(game)@.hands,
        )),
        !dealt ==> final(game)@ == old(game)@,
{
    if config.num_players == 0 || config.max_cards == 0 {
        return false;
    }
    let n = config.num_players as usize;
    let max = config.max_cards;
    let last: u64 = 2 * (max as u64) - 1;
    let new_game = game.round_no == 0 || (game.round_no as u64) + 1 > last;
    if !new_game && game.round_no == u32::MAX {
        return false;
    }
    let round: u32 = if new_game {
        1
    } else {
        game.round_no + 1
    };
    let size = cards_to_deal(round, max);
    let hands = match deck.deal(n, size as usize) {
        Some(hands) => hands,
        None => {
            return false;
        },
    };
    let start = next_start_player(game.start_player, config.num_players);
    let first = seat_for_turn(start, 0, n);
    game.round_no = round;
    game.dealt_cards = size;
    game.trump = next_trump(game.trump);
    game.start_player = start;
    game.calls = zero_list(n);
    game.tricks = zero_list(n);
    if new_game || game.scores.len() != n {
        game.scores = zero_list(n);
    }
    game.last_winner = None;
    game.hands = hands;
    game.trick = open_trick(n);
    game.cards_remaining = size;
    game.current_player = first;
    game.waiting_for_human = first == 0;
    game.bidding_forbidden = None;
    game.waiting_for_continue = false;
    true
}

/// Starts the round that follows the one in `game`, with a deck shuffled
/// from `rng`. Where the round cannot be dealt nothing changes.
pub fn start_deal(game: &mut GameState, config: &UiConfig, rng: &mut StdRng) -> (dealt: bool)
    ensures
        dealt == can_deal(old(game).round_no, *config),
        dealt ==> exists|cards: Seq<u8>|
            is_deck(cards) && is_shuffle(cards) && #[trigger] is_round_start(
                old(game)@,
                *config,
                cards,
                final(game)@,
            ),
        dealt ==> final(game)@.seated(config.num_players as int),
        dealt ==> no_card_twice(final(game)@.hands),
        dealt ==> (config.num_players * final(game).dealt_cards == 52 ==> every_card_dealt(
            final(game)@.hands,
        )),
        !dealt ==> final(game)@ == old(game)@,
{
    let deck = Deck::new_shuffled(rng);
    let dealt = begin_round(game, config, &deck);
    proof {
        if dealt {
            assert(is_round_start(old(game)@, *config, deck@, game@));
        }
    }
    dealt
}

/// The hands at the start of a round hold no card twice and nothing but
/// cards, whatever deck they were dealt from; where the round deals out the
/// whole deck, they hold every card.
pub proof fn lemma_round_start_is_clean(
    pre: GameView,
    config: UiConfig,
    cards: Seq<u8>,
    post: GameView,
)
    requires
        is_deck(cards),
        is_round_start(pre, config, cards, post),
        config.num_players * deal_after(pre.round_no, config) <= 52,
    ensures
        no_card_twice(post.hands),
        config.num_players * post.dealt_cards == 52 ==> every_card_dealt(post.hands),
{
    crate::deck::lemma_deal_is_clean(
        post.hands,
        cards,
        config.num_players as int,
        deal_after(pre.round_no, config),
    );
}

/// The books of a round balance: if the tricks won and the tricks still to
/// play add up to the cards dealt before a trick is decided, they do so
/// again after the trick has gone to its winner and has been cleared away.
pub proof fn lemma_books_balance(pre: GameView, config: UiConfig, winner: int)
    requires
        pre.seated(config.num_players as int),
        seat_wins(pre, winner),
        pre.cards_remaining >= 1,
        sum_of(pre.tricks) + pre.cards_remaining == pre.dealt_cards,
    ensures
        ({
            let post = finalized(resolved(pre, winner), config);
            sum_of(post.tricks) + post.cards_remaining == post.dealt_cards
        }),
{
    let n = pre.trick.len() as int;
    let k = choose|k: int|
        0 <= k < n && #[trigger] seat_at_turn(pre.start_player as int, k, n) == winner
            && wins_trick(pre.trick_in_play_order(), pre.trump, k);
    lemma_seat_at_turn(pre.start_player as int, k, n);
    lemma_sum_of_update(pre.tricks, winner, one_more(pre.tricks[winner]));
}

/// The trick read in the order of play is complete exactly when every slot
/// of the table is filled.
pub proof fn lemma_play_order_full(trick: Seq<Option<u32>>, start_player: int)
    requires
        trick.len() > 0,
    ensures
        trick_is_complete(play_order(trick, start_player)) <==> trick_is_full(trick),
{
    let n = trick.len() as int;
    let ordered = play_order(trick, start_player);
    if trick_is_full(trick) {
        assert forall|k: int| 0 <= k < n implies (#[trigger] ordered[k]) is Some by {
            lemma_seat_at_turn(start_player, k, n);
        }
    }
    if trick_is_complete(ordered) {
        assert forall|k: int| 0 <= k < n implies (#[trigger] trick[seat_at_turn(
            start_player,
            k,
            n,
        )]) is Some by {
            assert(ordered[k] is Some);
        }
        crate::state::lemma_turns_cover_seats(trick, start_player);
    }
}

} // verus!
