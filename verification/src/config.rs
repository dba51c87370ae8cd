//! The settings of a game, and the bounds they are held to.

use vstd::prelude::*;
use crate::scoring::ScoreMode;

verus! {

/// Fewest players at a table.
pub const MIN_PLAYERS: u32 = 2;

/// Most players at a table.
pub const MAX_PLAYERS: u32 = 6;

/// Largest deal that can be asked for.
pub const MAX_DEAL: u32 = 15;

/// The settings of a game as the rules need them.
#[derive(Clone, Debug)]
pub struct GameConfig {
    /// Players at the table, 2 to 6.
    pub num_players: u8,
    /// Cards in the largest deal, 1 to 15.
    pub max_cards: u8,
    pub score_mode: ScoreMode,
    pub hard_score: bool,
}

/// How the host tells the player that a trick is over.
#[derive(Copy, Clone, Debug, PartialEq, Eq, Structural)]
pub enum NextNotify {
    /// With a message that the player dismisses.
    Dialog,
    /// By waiting for a click.
    Mouse,
}

/// The settings of a game together with those of the host.
#[derive(Clone, Debug)]
pub struct UiConfig {
    /// Players at the table, 2 to 6.
    pub num_players: u32,
    /// Cards in the largest deal, 1 to 15.
    pub max_cards: u32,
    pub score_mode: ScoreMode,
    pub next_notify: NextNotify,
    pub confirm_exit: bool,
    pub hard_score: bool,
    pub cheat_cards: bool,
}

/// `n` held to the range `lo..=hi`.
pub open spec fn clamped(n: int, lo: int, hi: int) -> int {
    if n < lo {
        lo
    } else if n > hi {
        hi
    } else {
        n
    }
}

/// The largest deal that the deck allows at a table of `num_players`, 15 at
/// most.
pub open spec fn deal_limit(num_players: int) -> int {
    if num_players <= 0 {
        15
    } else if 52int / num_players > 15 {
        15
    } else {
        52int / num_players
    }
}

impl UiConfig {
    /// The number of players lies in `2..=6`, the largest deal in `1..=15`,
    /// and the deck holds enough cards for the largest deal.
    pub open spec fn in_range(&self) -> bool {
        &&& 2 <= self.num_players <= 6
        &&& 1 <= self.max_cards <= 15
        &&& self.num_players * self.max_cards <= 52
    }

    /// Builds the settings from stored numbers, as a host keeps them: the
    /// player and card counts are held to their ranges, the score mode is
    /// read as by `parse_score_mode`, and each switch is on unless its
    /// number is 0.
    pub fn from_stored(
        num_players: u32,
        max_cards: u32,
        score_mode: u32,
        next_notify: u32,
        confirm_exit: u32,
        hard_score: u32,
        cheat_cards: u32,
    ) -> (cfg: UiConfig)
        ensures
            cfg.num_players == clamped(num_players as int, 2, 6),
            cfg.max_cards == clamped(max_cards as int, 1, 15),
            cfg.score_mode == score_mode_of(score_mode),
            cfg.next_notify == if next_notify == 0 {
                NextNotify::Dialog
            } else {
                NextNotify::Mouse
            },
            cfg.confirm_exit == (confirm_exit != 0),
            cfg.hard_score == (hard_score != 0),
            cfg.cheat_cards == (cheat_cards != 0),
    {
        UiConfig {
            num_players: validate_players(num_players),
            max_cards: validate_max_cards(max_cards),
            score_mode: parse_score_mode(score_mode),
            next_notify: if next_notify == 0 {
                NextNotify::Dialog
            } else {
                NextNotify::Mouse
            },
            confirm_exit: confirm_exit != 0,
            hard_score: hard_score != 0,
            cheat_cards: cheat_cards != 0,
        }
    }
}

impl Default for UiConfig {
    /// Four players, deals of up to thirteen cards, plain scoring.
    fn default() -> (cfg: UiConfig)
        ensures
            cfg.num_players == 4,
            cfg.max_cards == 13,
            cfg.score_mode == ScoreMode::Vanilla,
            cfg.next_notify == NextNotify::Mouse,
            cfg.confirm_exit,
            !cfg.hard_score,
            !cfg.cheat_cards,
            cfg.in_range(),
    {
        UiConfig {
            num_players: 4,
            max_cards: 13,
            score_mode: ScoreMode::Vanilla,
            next_notify: NextNotify::Mouse,
            confirm_exit: true,
            hard_score: false,
            cheat_cards: false,
        }
    }
}

/// The score mode that a stored number stands for.
pub open spec fn score_mode_of(val: u32) -> ScoreMode {
    if val == 0 {
        ScoreMode::Vanilla
    } else {
        ScoreMode::Squared
    }
}

/// The number that a score mode is stored as.
pub open spec fn score_mode_number(mode: ScoreMode) -> u32 {
    match mode {
        ScoreMode::Vanilla => 0,
        ScoreMode::Squared => 1,
    }
}

/// Holds a number of players to the range `2..=6`.
pub fn validate_players(n: u32) -> (r: u32)
    ensures
        r == clamped(n as int, 2, 6),
        2 <= r <= 6,
{
    if n < 2 {
        2
    } else if n > 6 {
        6
    } else {
        n
    }
}

/// Holds the size of the largest deal to the range `1..=15`.
pub fn validate_max_cards(n: u32) -> (r: u32)
    ensures
        r == clamped(n as int, 1, 15),
        1 <= r <= 15,
{
    if n < 1 {
        1
    } else if n > 15 {
        15
    } else {
        n
    }
}

/// The largest deal that the deck allows at a table of `num_players`:
/// `52 / num_players` rounded down, and 15 at most. A table of nobody gets
/// 15.
pub fn calc_max_cards_for_players(num_players: u32) -> (r: u32)
    ensures
        r == deal_limit(num_players as int),
        r <= 15,
        num_players * r <= 52,
{
    if num_players == 0 {
        return 15;
    }
    let max_from_deck: u32 = 52 / num_players;
    assert(num_players * (52int / num_players as int) <= 52) by (nonlinear_arith)
        requires
            num_players > 0,
    ;
    if max_from_deck > 15 {
        assert(num_players <= 3) by (nonlinear_arith)
            requires
                num_players > 0,
                52int / num_players as int > 15,
        ;
        15
    } else {
        max_from_deck
    }
}

/// Reads a stored score mode: 0 is `Vanilla`, any other number `Squared`.
pub fn parse_score_mode(val: u32) -> (mode: ScoreMode)
    ensures
        mode == score_mode_of(val),
{
    if val == 0 {
        ScoreMode::Vanilla
    } else {
        ScoreMode::Squared
    }
}

/// Writes a score mode as the number it is stored as.
pub fn serialize_score_mode(mode: ScoreMode) -> (val: u32)
    ensures
        val == score_mode_number(mode),
{
    match mode {
        ScoreMode::Vanilla => 0,
        ScoreMode::Squared => 1,
    }
}

/// A score mode that is written and read back is the same mode.
pub proof fn lemma_score_mode_roundtrip(mode: ScoreMode)
    ensures
        score_mode_of(score_mode_number(mode)) == mode,
{
}

/// With player and card counts held to their ranges and the largest deal
/// held to what the deck allows, the settings are in range.
pub proof fn lemma_validated_counts_in_range(num_players: u32, max_cards: u32)
    ensures
        ({
            let n = clamped(num_players as int, 2, 6);
            let m = clamped(max_cards as int, 1, 15);
            let m2 = if m > deal_limit(n) {
                deal_limit(n)
            } else {
                m
            };
            2 <= n <= 6 && 1 <= m2 <= 15 && n * m2 <= 52
        }),
{
    let n = clamped(num_players as int, 2, 6);
    assert(n == 2 || n == 3 || n == 4 || n == 5 || n == 6);
    assert(52int / 2 == 26 && 52int / 3 == 17 && 52int / 4 == 13 && 52int / 5 == 10 && 52int / 6 == 8);
    let m = clamped(max_cards as int, 1, 15);
    let m2 = if m > deal_limit(n) {
        deal_limit(n)
    } else {
        m
    };
    assert(n * m2 <= 52) by (nonlinear_arith)
        requires
            (n == 2 && m2 <= 15) || (n == 3 && m2 <= 15) || (n == 4 && m2 <= 13) || (n == 5 && m2
                <= 10) || (n == 6 && m2 <= 8),
            m2 >= 1,
    ;
}

} // verus!
