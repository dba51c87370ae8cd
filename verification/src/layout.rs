//! Where the cards of the human's hand lie on the table.

use vstd::prelude::*;

verus! {

/// Width of a card.
pub const CARD_W: i32 = 71;

/// Height of a card.
pub const CARD_H: i32 = 96;

/// Top edge of the hand.
pub const HAND_Y: i32 = 228;

/// Left edge of the first card of the hand.
pub const HAND_X0: i32 = 10;

/// Width of the strip that the hand is laid out in.
pub const HAND_SPAN_X: i32 = 500;

/// A rectangle on the table, by its edges.
#[derive(Copy, Clone, Debug, PartialEq, Eq, Structural)]
pub struct Rect {
    pub left: i32,
    pub top: i32,
    pub right: i32,
    pub bottom: i32,
}

/// The step from one card of a hand of `num_cards` to the next: the strip
/// shared out among the gaps between the cards (429 is the strip less one
/// card), a card's width and 10 at most; a card's width for a single card.
pub open spec fn card_step(num_cards: int) -> int {
    if num_cards > 1 {
        if 429int / (num_cards - 1) > 81 {
            81
        } else {
            429int / (num_cards - 1)
        }
    } else {
        71
    }
}

/// The part of card `i` of a hand of `num_cards` that can be seen and
/// clicked: the whole card for the last one, and for the others as much as
/// the next card leaves free.
pub open spec fn card_rect(num_cards: int, i: int) -> Rect {
    let step = card_step(num_cards);
    let left = 10 + i * step;
    let shown = if i < num_cards - 1 && step < 71 {
        step
    } else {
        71
    };
    Rect { left: left as i32, top: 228, right: (left + shown) as i32, bottom: (228 + 96) as i32 }
}

/// Lays out a hand of `num_cards` cards from left to right and returns, for
/// each card, the part of it that can be seen. The cards overlap where the
/// strip is too narrow for them.
pub fn calculate_hand_layout(num_cards: usize) -> (rects: Vec<Rect>)
    ensures
        rects@.len() == num_cards,
        forall|i: int| 0 <= i < num_cards ==> rects@[i] == card_rect(num_cards as int, i),
{
    let mut positions: Vec<Rect> = Vec::new();
    if num_cards == 0 {
        return positions;
    }
    let step: i32 = if num_cards > 1 {
        if num_cards - 1 > 429 {
            proof {
                vstd::arithmetic::div_mod::lemma_basic_div(429, num_cards as int - 1);
            }
            0
        } else {
            let w: i32 = (HAND_SPAN_X - CARD_W) / ((num_cards - 1) as i32);
            if w > CARD_W + 10 {
                CARD_W + 10
            } else {
                w
            }
        }
    } else {
        CARD_W
    };
    assert(step == card_step(num_cards as int));
    assert(step * (num_cards - 1) <= 429) by {
        if num_cards > 1 && num_cards - 1 <= 429 {
            let gaps = num_cards as int - 1;
            assert(429int / gaps * gaps <= 429) by (nonlinear_arith)
                requires
                    gaps > 0,
            ;
            assert(step * gaps <= 429int / gaps * gaps) by (nonlinear_arith)
                requires
                    0 <= step <= 429int / gaps,
                    gaps > 0,
            ;
        } else if num_cards > 1 {
            assert(step * (num_cards - 1) == 0) by (nonlinear_arith)
                requires
                    step == 0,
            ;
        } else {
            assert(step * (num_cards - 1) == 0) by (nonlinear_arith)
                requires
                    num_cards == 1,
            ;
        }
    }
    let mut x: i32 = HAND_X0;
    let mut i: usize = 0;
    while i < num_cards
        invariant
            i <= num_cards,
            0 <= step <= 81,
            step == card_step(num_cards as int),
            step * (num_cards - 1) <= 429,
            x == 10 + i * step,
            positions@.len() == i,
            forall|k: int| 0 <= k < i ==> positions@[k] == card_rect(num_cards as int, k),
        decreases num_cards - i,
    {
        assert(i * step <= step * (num_cards - 1) && (i + 1) * step == i * step + step)
            by (nonlinear_arith)
            requires
                0 <= i <= num_cards - 1,
                0 <= step,
        ;
        let shown: i32 = if i < num_cards - 1 && step < CARD_W {
            step
        } else {
            CARD_W
        };
        positions.push(Rect { left: x, top: HAND_Y, right: x + shown, bottom: HAND_Y + CARD_H });
        x = x + step;
        i += 1;
    }
    positions
}

/// The card of the hand that lies under the point `(x, y)`: the first card
/// whose visible part holds the point, its left and top edges included and
/// its right and bottom edges not.
pub open spec fn card_under(rects: Seq<Rect>, x: i32, y: i32, from: int) -> Option<int>
    decreases rects.len() - from,
{
    if from < 0 || from >= rects.len() {
        None
    } else if rects[from].left <= x < rects[from].right && rects[from].top <= y
        < rects[from].bottom {
        Some(from)
    } else {
        card_under(rects, x, y, from + 1)
    }
}

/// Finds the card of the hand that was clicked at `(x, y)`, given where the
/// cards lie.
pub fn card_at_point(rects: &[Rect], x: i32, y: i32) -> (r: Option<usize>)
    ensures
        r is Some <==> card_under(rects@, x, y, 0) is Some,
        r matches Some(i) ==> card_under(rects@, x, y, 0) == Some(i as int) && i < rects@.len(),
{
    let n = rects.len();
    let mut i: usize = 0;
    while i < n
        invariant
            n == rects@.len(),
            i <= n,
            card_under(rects@, x, y, i as int) == card_under(rects@, x, y, 0),
        decreases n - i,
    {
        let r = rects[i];
        if x >= r.left && x < r.right && y >= r.top && y < r.bottom {
            return Some(i);
        }
        i += 1;
    }
    None
}

} // verus!
