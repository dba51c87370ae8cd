//! The suit symbols that wander over the table while no game is played.

use vstd::prelude::*;
use rand::rngs::StdRng;
use crate::config::clamped;
use crate::rng::random_index;

verus! {

/// Settings of the wandering symbols.
#[derive(Clone, Debug)]
pub struct RandomThingsConfig {
    pub enabled: bool,
    pub icon_twirl_enabled: bool,
    /// Pixels that a symbol moves in one step, 1 to 20.
    pub multiplier: i32,
    /// Number of symbols, 1 to 4.
    pub count: usize,
    /// Time between two steps in milliseconds, 20 to 1000.
    pub interval_ms: u32,
}

/// Where a symbol is, and which one it is (0 club, 1 diamond, 2 spade,
/// 3 heart).
#[derive(Copy, Clone, Debug, PartialEq, Eq, Structural)]
pub struct RandomThingState {
    pub x: i32,
    pub y: i32,
    pub bitmap_index: usize,
}

/// The wandering symbols and their timers.
pub struct RandomThings {
    pub config: RandomThingsConfig,
    pub things: Vec<RandomThingState>,
    pub random_timer_active: bool,
    pub icon_timer_active: bool,
    pub icon_count: usize,
}

impl Default for RandomThingsConfig {
    /// Both switches on, four symbols, steps of 6 pixels every 200 ms.
    fn default() -> (cfg: RandomThingsConfig)
        ensures
            cfg.enabled,
            cfg.icon_twirl_enabled,
            cfg.multiplier == 6,
            cfg.count == 4,
            cfg.interval_ms == 200,
    {
        RandomThingsConfig {
            enabled: true,
            icon_twirl_enabled: true,
            multiplier: 6,
            count: 4,
            interval_ms: 200,
        }
    }
}

impl Default for RandomThings {
    /// The default settings, no symbols yet, no timer running.
    fn default() -> (r: RandomThings)
        ensures
            r.config.enabled,
            r.config.icon_twirl_enabled,
            r.config.multiplier == 6,
            r.config.count == 4,
            r.config.interval_ms == 200,
            r.things@.len() == 0,
            !r.random_timer_active,
            !r.icon_timer_active,
            r.icon_count == 0,
    {
        RandomThings {
            config: RandomThingsConfig::default(),
            things: Vec::new(),
            random_timer_active: false,
            icon_timer_active: false,
            icon_count: 0,
        }
    }
}

/// A rectangle as `(left, top, right, bottom)`.
pub type Edges = (i32, i32, i32, i32);

/// `v` held to the range of `i32`.
pub open spec fn held(v: int) -> int {
    clamped(v, i32::MIN as int, i32::MAX as int)
}

/// `v` held between `lo` and `hi`, the upper bound winning where the two
/// cross.
pub open spec fn fenced(v: int, lo: int, hi: int) -> int {
    if (if v < lo {
        lo
    } else {
        v
    }) > hi {
        hi
    } else if v < lo {
        lo
    } else {
        v
    }
}

/// Where a new symbol starts along an axis of a window `extent` wide: a
/// third of the way, and 100 at least.
pub open spec fn start_place(extent: i32) -> int {
    if extent >= 300 {
        extent as int / 3
    } else {
        100
    }
}

/// Where a symbol at `(x, y)` stands after a step of `dx` and `dy` times
/// `mult` pixels: moved, held inside `bounds` so that a symbol of `size`
/// fits, and, if that is within the zone of the logo, put on the nearer
/// side of the zone along each axis (the middle of the zone lying 31 from
/// its left and top). Coordinates are held to the range of `i32`.
pub open spec fn moved(
    thing: RandomThingState,
    dx: int,
    dy: int,
    mult: i32,
    bounds: Edges,
    logo: Edges,
    size: i32,
) -> RandomThingState {
    let x = fenced(thing.x + mult * dx, bounds.0 as int, bounds.2 - size);
    let y = fenced(thing.y + mult * dy, bounds.1 as int, bounds.3 - size);
    let inside = logo.0 <= x <= logo.2 && logo.1 <= y <= logo.3;
    let x2: int = if !inside {
        x
    } else if x < logo.0 + 31 {
        logo.0 as int
    } else {
        logo.2 as int
    };
    let y2: int = if !inside {
        y
    } else if y < logo.1 + 31 {
        logo.1 as int
    } else {
        logo.3 as int
    };
    RandomThingState { x: held(x2) as i32, y: held(y2) as i32, bitmap_index: thing.bitmap_index }
}

/// Whether `now` is where `was` can stand after one random step: a step
/// back, none, or one forth along each axis.
pub open spec fn took_a_step(
    now: RandomThingState,
    was: RandomThingState,
    mult: i32,
    bounds: Edges,
    logo: Edges,
    size: i32,
) -> bool {
    exists|dx: int, dy: int|
        -1 <= dx <= 1 && -1 <= dy <= 1 && now == #[trigger] moved(
            was,
            dx,
            dy,
            mult,
            bounds,
            logo,
            size,
        )
}

/// Holds a wide number to the range of `i32`.
fn hold(v: i64) -> (r: i32)
    ensures
        r == held(v as int),
{
    if v < i32::MIN as i64 {
        i32::MIN
    } else if v > i32::MAX as i64 {
        i32::MAX
    } else {
        v as i32
    }
}

/// Holds `v` between `lo` and `hi`.
fn fence(v: i64, lo: i64, hi: i64) -> (r: i64)
    ensures
        r == fenced(v as int, lo as int, hi as int),
{
    let mut r = v;
    if r < lo {
        r = lo;
    }
    if r > hi {
        r = hi;
    }
    r
}

/// Moves a symbol by one step of `dx` and `dy` times `mult` pixels, keeps
/// it inside `bounds`, and puts it to the side of the zone of the logo if it
/// came to stand within.
pub fn move_thing(
    thing: RandomThingState,
    dx: i32,
    dy: i32,
    mult: i32,
    bounds: Edges,
    logo: Edges,
    size: i32,
) -> (r: RandomThingState)
    ensures
        r == moved(thing, dx as int, dy as int, mult, bounds, logo, size),
{
    assert(-0x8000_0000 * 0x8000_0000 <= mult * dx <= 0x8000_0000 * 0x8000_0000
        && -0x8000_0000 * 0x8000_0000 <= mult * dy <= 0x8000_0000 * 0x8000_0000)
        by (nonlinear_arith)
        requires
            -0x8000_0000 <= mult <= 0x8000_0000,
            -0x8000_0000 <= dx <= 0x8000_0000,
            -0x8000_0000 <= dy <= 0x8000_0000,
    ;
    let x = fence(
        (thing.x as i64) + (mult as i64) * (dx as i64),
        bounds.0 as i64,
        (bounds.2 as i64) - (size as i64),
    );
    let y = fence(
        (thing.y as i64) + (mult as i64) * (dy as i64),
        bounds.1 as i64,
        (bounds.3 as i64) - (size as i64),
    );
    let (left, top, right, bottom) = (logo.0 as i64, logo.1 as i64, logo.2 as i64, logo.3 as i64);
    let inside = x >= left && x <= right && y >= top && y <= bottom;
    let x2: i64 = if !inside {
        x
    } else if x < left + 31 {
        left
    } else {
        right
    };
    let y2: i64 = if !inside {
        y
    } else if y < top + 31 {
        top
    } else {
        bottom
    };
    RandomThingState { x: hold(x2), y: hold(y2), bitmap_index: thing.bitmap_index }
}

impl RandomThings {
    /// Brings the settings into their ranges: steps of 1 to 20 pixels, 1 to
    /// 4 symbols, 20 to 1000 milliseconds between steps.
    pub fn validate_and_fix_config(&mut self)
        ensures
            final(self).config.multiplier == clamped(old(self).config.multiplier as int, 1, 20),
            final(self).config.count == clamped(old(self).config.count as int, 1, 4),
            final(self).config.interval_ms == clamped(
                old(self).config.interval_ms as int,
                20,
                1000,
            ),
            final(self).config.enabled == old(self).config.enabled,
            final(self).config.icon_twirl_enabled == old(self).config.icon_twirl_enabled,
            final(self).things == old(self).things,
            final(self).random_timer_active == old(self).random_timer_active,
            final(self).icon_timer_active == old(self).icon_timer_active,
            final(self).icon_count == old(self).icon_count,
    {
        if self.config.multiplier < 1 {
            self.config.multiplier = 1;
        } else if self.config.multiplier > 20 {
            self.config.multiplier = 20;
        }
        if self.config.count < 1 {
            self.config.count = 1;
        } else if self.config.count > 4 {
            self.config.count = 4;
        }
        if self.config.interval_ms < 20 {
            self.config.interval_ms = 20;
        } else if self.config.interval_ms > 1000 {
            self.config.interval_ms = 1000;
        }
    }

    /// Brings the number of symbols to the number in the settings. Symbols
    /// that are there stay where they are; new ones start a third of the
    /// way into the window, and 100 pixels in at least; symbols beyond the
    /// number leave.
    pub fn resize_things(&mut self, client_width: i32, client_height: i32)
        ensures
            final(self).things@.len() == old(self).config.count,
            forall|i: int|
                0 <= i < old(self).things@.len() && i < old(self).config.count ==> final(self).things@[i] == old(self).things@[i],
            forall|i: int|
                old(self).things@.len() <= i < old(self).config.count ==> final(self).things@[i]
                    == (RandomThingState {
                    x: start_place(client_width) as i32,
                    y: start_place(client_height) as i32,
                    bitmap_index: (i % 4) as usize,
                }),
            final(self).config == old(self).config,
            final(self).random_timer_active == old(self).random_timer_active,
            final(self).icon_timer_active == old(self).icon_timer_active,
            final(self).icon_count == old(self).icon_count,
    {
        let current_count = self.things.len();
        let new_count = self.config.count;
        if new_count > current_count {
            let safe_x: i32 = if client_width >= 300 {
                client_width / 3
            } else {
                100
            };
            let safe_y: i32 = if client_height >= 300 {
                client_height / 3
            } else {
                100
            };
            let mut i: usize = current_count;
            while i < new_count
                invariant
                    current_count <= i <= new_count,
                    current_count == old(self).things@.len(),
                    new_count == old(self).config.count,
                    safe_x == start_place(client_width),
                    safe_y == start_place(client_height),
                    self.things@.len() == i,
                    forall|k: int|
                        0 <= k < current_count ==> self.things@[k] == old(self).things@[k],
                    forall|k: int|
                        current_count <= k < i ==> self.things@[k] == (RandomThingState {
                            x: safe_x,
                            y: safe_y,
                            bitmap_index: (k % 4) as usize,
                        }),
                    self.config == old(self).config,
                    self.random_timer_active == old(self).random_timer_active,
                    self.icon_timer_active == old(self).icon_timer_active,
                    self.icon_count == old(self).icon_count,
                decreases new_count - i,
            {
                self.things.push(RandomThingState { x: safe_x, y: safe_y, bitmap_index: i % 4 });
                i += 1;
            }
        } else if new_count < current_count {
            self.things.truncate(new_count);
        }
    }

    /// Lets every symbol take one random step: along each axis one step
    /// back, none, or one forth, of as many pixels as the settings say; see
    /// `move_thing` for where the symbol comes to stand.
    pub fn update_positions(
        &mut self,
        bounds: Edges,
        logo_rect: Edges,
        thing_size: i32,
        rng: &mut StdRng,
    )
        ensures
            final(self).things@.len() == old(self).things@.len(),
            forall|i: int|
                0 <= i < old(self).things@.len() ==> took_a_step(
                    #[trigger] final(self).things@[i],
                    old(self).things@[i],
                    old(self).config.multiplier,
                    bounds,
                    logo_rect,
                    thing_size,
                ),
            final(self).config == old(self).config,
            final(self).random_timer_active == old(self).random_timer_active,
            final(self).icon_timer_active == old(self).icon_timer_active,
            final(self).icon_count == old(self).icon_count,
    {
        let mult = self.config.multiplier;
        let n = self.things.len();
        let mut i: usize = 0;
        while i < n
            invariant
                i <= n,
                n == old(self).things@.len(),
                self.things@.len() == n,
                mult == old(self).config.multiplier,
                forall|k: int|
                    0 <= k < i ==> took_a_step(
                        #[trigger] self.things@[k],
                        old(self).things@[k],
                        mult,
                        bounds,
                        logo_rect,
                        thing_size,
                    ),
                forall|k: int| i <= k < n ==> self.things@[k] == old(self).things@[k],
                self.config == old(self).config,
                self.random_timer_active == old(self).random_timer_active,
                self.icon_timer_active == old(self).icon_timer_active,
                self.icon_count == old(self).icon_count,
            decreases n - i,
        {
            let dx: i32 = (random_index(rng, 3) as i32) - 1;
            let dy: i32 = (random_index(rng, 3) as i32) - 1;
            let was = self.things[i];
            let now = move_thing(was, dx, dy, mult, bounds, logo_rect, thing_size);
            self.things[i] = now;
            assert(self.things@[i as int] == moved(
                old(self).things@[i as int],
                dx as int,
                dy as int,
                mult,
                bounds,
                logo_rect,
                thing_size,
            ));
            i += 1;
        }
    }
}

} // verus!
