//! Live-editable match settings and their allowed ranges.

use vstd::prelude::*;

use crate::berries::RespawnBerriesEvent;

verus! {

/// Lowest and highest value the queen-lives setting accepts.
pub const QUEEN_LIVES_MIN: u32 = 1;

pub const QUEEN_LIVES_MAX: u32 = 15;

/// Lowest and highest value the ship-speed setting accepts, in pixels per
/// second.
pub const SHIP_SPEED_MIN: u32 = 10;

pub const SHIP_SPEED_MAX: u32 = 200;

/// Lowest and highest value the berries-to-win setting accepts.
pub const BERRIES_TO_WIN_MIN: u32 = 1;

pub const BERRIES_TO_WIN_MAX: u32 = 18;

/// Match configuration, editable between and during rounds: the military
/// life limit, the ship's travel speed, and the economic win threshold.
#[derive(Clone, Copy, Debug, PartialEq, Eq, Structural)]
pub struct GameSettings {
    pub queen_lives: u32,
    /// Pixels per second.
    pub ship_speed: u32,
    pub berries_to_win: u32,
}

/// `v` clamped into `low..=high`.
pub open spec fn clamped(v: u32, low: u32, high: u32) -> u32 {
    if v < low {
        low
    } else if v > high {
        high
    } else {
        v
    }
}

impl GameSettings {
    /// Every setting sits inside its allowed range.
    pub open spec fn wf(self) -> bool {
        &&& QUEEN_LIVES_MIN <= self.queen_lives <= QUEEN_LIVES_MAX
        &&& SHIP_SPEED_MIN <= self.ship_speed <= SHIP_SPEED_MAX
        &&& BERRIES_TO_WIN_MIN <= self.berries_to_win <= BERRIES_TO_WIN_MAX
    }

    /// Sets the military life limit, clamped to its range.
    pub fn set_queen_lives(&mut self, v: u32)
        ensures
            final(self).queen_lives == clamped(v, QUEEN_LIVES_MIN, QUEEN_LIVES_MAX),
            final(self).ship_speed == old(self).ship_speed,
            final(self).berries_to_win == old(self).berries_to_win,
    {
        self.queen_lives = clamp_u32(v, QUEEN_LIVES_MIN, QUEEN_LIVES_MAX);
    }

    /// Sets the ship speed, clamped to its range.
    pub fn set_ship_speed(&mut self, v: u32)
        ensures
            final(self).ship_speed == clamped(v, SHIP_SPEED_MIN, SHIP_SPEED_MAX),
            final(self).queen_lives == old(self).queen_lives,
            final(self).berries_to_win == old(self).berries_to_win,
    {
        self.ship_speed = clamp_u32(v, SHIP_SPEED_MIN, SHIP_SPEED_MAX);
    }

    /// Sets the economic win threshold, clamped to its range. Changing it
    /// resizes the per-team cell layout, so a berry respawn is requested
    /// exactly when the stored value changed.
    pub fn set_berries_to_win(&mut self, v: u32) -> (r: Option<RespawnBerriesEvent>)
        ensures
            final(self).berries_to_win == clamped(v, BERRIES_TO_WIN_MIN, BERRIES_TO_WIN_MAX),
            final(self).queen_lives == old(self).queen_lives,
            final(self).ship_speed == old(self).ship_speed,
            r is Some <==> final(self).berries_to_win != old(self).berries_to_win,
    {
        let clamped_v = clamp_u32(v, BERRIES_TO_WIN_MIN, BERRIES_TO_WIN_MAX);
        let changed = clamped_v != self.berries_to_win;
        self.berries_to_win = clamped_v;
        if changed {
            Some(RespawnBerriesEvent {  })
        } else {
            None
        }
    }
}

impl Default for GameSettings {
    /// The defaults: three queen lives, ship speed of thirty pixels per
    /// second, six berries to win.
    fn default() -> (r: GameSettings)
        ensures
            r.queen_lives == 3,
            r.ship_speed == 30,
            r.berries_to_win == 6,
            r.wf(),
    {
        GameSettings { queen_lives: 3, ship_speed: 30, berries_to_win: 6 }
    }
}

fn clamp_u32(v: u32, low: u32, high: u32) -> (r: u32)
    requires
        low <= high,
    ensures
        r == clamped(v, low, high),
{
    if v < low {
        low
    } else if v > high {
        high
    } else {
        v
    }
}

} // verus!
