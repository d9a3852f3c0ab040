//! Chaos modes and the per-mode rules: tick pace, pellet count, wrapping walls.
use vstd::prelude::*;

verus! {

/// The chaos mode picked before each run.
#[derive(Clone, Copy, Debug, PartialEq, Eq, Structural)]
pub enum ChaosMode {
    /// The classic garden; walls bite back.
    Normal,
    /// Faster slither, and every meal makes it faster still.
    Insane,
    /// Walls wrap around and two pellets are on the board.
    Ridiculous,
    /// All of the above at once.
    Insiculous,
}

/// Normal pace: milliseconds per grid step.
pub const NORMAL_TICK_MS: u32 = 140;

/// Insane mode's faster base step, in milliseconds...
pub const INSANE_TICK_MS: u32 = 100;

/// ...that shrinks by this much with every food eaten...
pub const INSANE_TICK_STEP_MS: u32 = 2;

/// ...down to this floor.
pub const INSANE_TICK_MIN_MS: u32 = 50;

/// Insane-family modes: Insane and Insiculous.
pub open spec fn insane_family(mode: ChaosMode) -> bool {
    mode == ChaosMode::Insane || mode == ChaosMode::Insiculous
}

/// Ridiculous-family modes: Ridiculous and Insiculous.
pub open spec fn ridiculous_family(mode: ChaosMode) -> bool {
    mode == ChaosMode::Ridiculous || mode == ChaosMode::Insiculous
}

impl ChaosMode {
    /// True for the modes with the Insane speed buff.
    pub fn is_insane(self) -> (b: bool)
        ensures
            b == insane_family(self),
    {
        match self {
            ChaosMode::Insane | ChaosMode::Insiculous => true,
            _ => false,
        }
    }

    /// True for the modes with the Ridiculous board buff.
    pub fn is_ridiculous(self) -> (b: bool)
        ensures
            b == ridiculous_family(self),
    {
        match self {
            ChaosMode::Ridiculous | ChaosMode::Insiculous => true,
            _ => false,
        }
    }
}

/// Milliseconds per grid step after `foods_eaten` meals in `mode`.
pub open spec fn tick_interval_spec(mode: ChaosMode, foods_eaten: u32) -> int {
    if insane_family(mode) {
        let t = INSANE_TICK_MS - INSANE_TICK_STEP_MS * foods_eaten;
        if t < INSANE_TICK_MIN_MS {
            INSANE_TICK_MIN_MS as int
        } else {
            t
        }
    } else {
        NORMAL_TICK_MS as int
    }
}

/// Milliseconds per grid step. Insane-family modes start faster and
/// accelerate with every food eaten, down to a floor.
pub fn tick_interval_ms(mode: ChaosMode, foods_eaten: u32) -> (ms: u32)
    ensures
        ms == tick_interval_spec(mode, foods_eaten),
{
    if mode.is_insane() {
        if foods_eaten >= (INSANE_TICK_MS - INSANE_TICK_MIN_MS) / INSANE_TICK_STEP_MS {
            INSANE_TICK_MIN_MS
        } else {
            INSANE_TICK_MS - INSANE_TICK_STEP_MS * foods_eaten
        }
    } else {
        NORMAL_TICK_MS
    }
}

/// The step pace never slows down as the snake eats, never drops below the
/// Insane floor, never exceeds the Normal pace, and Insane-family modes are
/// never slower than the others; in Insane-family modes every meal makes it
/// faster still until the floor, while the other modes keep the Normal pace.
pub proof fn lemma_tick_interval_bounds(mode: ChaosMode, other: ChaosMode, a: u32, b: u32)
    requires
        a <= b,
    ensures
        tick_interval_spec(mode, b) <= tick_interval_spec(mode, a),
        INSANE_TICK_MIN_MS <= tick_interval_spec(mode, a) <= NORMAL_TICK_MS,
        insane_family(mode) ==> tick_interval_spec(mode, a) <= tick_interval_spec(other, a),
        !insane_family(mode) ==> tick_interval_spec(mode, a) == NORMAL_TICK_MS,
        insane_family(mode) && a < b && tick_interval_spec(mode, a) > INSANE_TICK_MIN_MS
            ==> tick_interval_spec(mode, b) < tick_interval_spec(mode, a),
{
}

/// Ridiculous-family modes keep two pellets on the board.
pub fn food_count(mode: ChaosMode) -> (n: usize)
    ensures
        n == (if ridiculous_family(mode) { 2usize } else { 1usize }),
{
    if mode.is_ridiculous() {
        2
    } else {
        1
    }
}

/// Wrap-around walls are the other half of the Ridiculous buff.
pub fn walls_wrap(mode: ChaosMode) -> (b: bool)
    ensures
        b == ridiculous_family(mode),
{
    mode.is_ridiculous()
}


/// The pace of each mode after `n` meals: Normal and Ridiculous stay at 140 ms;
/// Insane and Insiculous start at 100 ms and lose exactly 2 ms with every
/// meal, so `100 - 2n` ms after `n` meals, until they reach the 50 ms floor
/// after the 25th meal and stay there.
pub proof fn lemma_each_meal_takes_two_ms(mode: ChaosMode, n: u32)
    ensures
        mode == ChaosMode::Normal || mode == ChaosMode::Ridiculous ==> tick_interval_spec(mode, n)
            == 140,
        mode == ChaosMode::Insane || mode == ChaosMode::Insiculous ==> tick_interval_spec(mode, n)
            == (if 100 - 2 * n >= 50 {
            100 - 2 * n
        } else {
            50
        }),
        (mode == ChaosMode::Insane || mode == ChaosMode::Insiculous) && n <= 25
            ==> tick_interval_spec(mode, n) == 100 - 2 * n,
        (mode == ChaosMode::Insane || mode == ChaosMode::Insiculous) && n >= 25
            ==> tick_interval_spec(mode, n) == 50,
        (mode == ChaosMode::Insane || mode == ChaosMode::Insiculous) && n < 0xffff_ffff
            && tick_interval_spec(mode, n) >= 52 ==> tick_interval_spec(mode, (n + 1) as u32)
            == tick_interval_spec(mode, n) - 2,
{
}


/// The board buffs of each mode: Ridiculous and Insiculous wrap the walls and
/// keep two pellets out; Normal and Insane have solid walls and one pellet.
/// The speed buff belongs to Insane and Insiculous alone.
pub proof fn lemma_buffs_of_each_mode(mode: ChaosMode)
    ensures
        mode == ChaosMode::Normal ==> !ridiculous_family(mode) && !insane_family(mode),
        mode == ChaosMode::Insane ==> !ridiculous_family(mode) && insane_family(mode),
        mode == ChaosMode::Ridiculous ==> ridiculous_family(mode) && !insane_family(mode),
        mode == ChaosMode::Insiculous ==> ridiculous_family(mode) && insane_family(mode),
{
}

} // verus!
