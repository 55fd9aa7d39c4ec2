//! Rules core of a two-team arena brawler.
//!
//! The library holds the decision logic of the game: interpreting collision
//! events between players (who is killed, who is knocked back), the timed
//! state machines for respawn, invincibility and gate promotion, the berry
//! economy, and the three win conditions (military, economic, ship).
//!
//! The surrounding engine — rendering, physics simulation, input devices —
//! stays outside. It feeds the library plain values: entity identifiers,
//! integer coordinates (pixels), and durations in milliseconds.

use vstd::prelude::*;

mod ids;
pub mod berries;
pub mod combat;
pub mod gates;
pub mod join;
pub mod player;
pub mod respawn;
pub mod settings;
pub mod ship;

verus! {

/// Arena width in pixels.
pub const WINDOW_WIDTH: i64 = 1920;

/// Arena height in pixels.
pub const WINDOW_HEIGHT: i64 = 1016;

/// Lowest y coordinate of the arena (half the height below the centre).
pub const WINDOW_BOTTOM_Y: i64 = -508;

/// Highest y coordinate of the arena.
pub const WINDOW_TOP_Y: i64 = 508;

/// Leftmost x coordinate of the arena.
pub const WINDOW_LEFT_X: i64 = -960;

/// Rightmost x coordinate of the arena.
pub const WINDOW_RIGHT_X: i64 = 960;

/// The two sides of a match. Yellow spawns on the left half, Purple on the
/// right.
#[derive(Clone, Copy, Debug, PartialEq, Eq, Structural)]
pub enum Team {
    Yellow,
    Purple,
}

/// How a match can be won.
#[derive(Clone, Copy, Debug, PartialEq, Eq, Structural)]
pub enum WinCondition {
    /// The opposing queen ran out of lives.
    Military,
    /// Enough berries were deposited.
    Economic,
    /// The ship was ridden across the arena.
    Ship,
}

/// Emitted once a win condition holds; consumed by the match controller.
#[derive(Clone, Copy, Debug, PartialEq, Eq, Structural)]
pub struct WinEvent {
    pub team: Team,
    pub win_condition: WinCondition,
}

/// Phase of the match controller.
#[derive(Clone, Copy, Debug, PartialEq, Eq, Structural)]
pub enum GameState {
    /// Players are joining; the match starts once every join gate is claimed.
    Join,
    /// The match is running.
    Play,
    /// A win event was observed; the next round starts after a delay.
    GameOver,
}

/// A collision event from the physics layer, carrying the two entity
/// identifiers involved. Both orderings of a pair may appear in one tick.
#[derive(Clone, Copy, Debug, PartialEq, Eq, Structural)]
pub enum CollisionEvent {
    Started { a: u64, b: u64 },
    Stopped { a: u64, b: u64 },
}

/// A contact-force record from the physics layer: the two colliders and
/// the vertical component of the strongest contact force direction,
/// scaled to an integer (zero means the contact is purely horizontal).
#[derive(Clone, Copy, Debug, PartialEq, Eq, Structural)]
pub struct ContactForceEvent {
    pub collider1: u64,
    pub collider2: u64,
    pub force_y: i64,
}

/// Delay before the next round begins once a win was observed.
pub const NEXT_GAME_DELAY_MS: u64 = 3000;

/// Counts down from [`NEXT_GAME_DELAY_MS`]; on expiry the match returns to
/// the join phase.
#[derive(Clone, Copy, Debug, PartialEq, Eq, Structural)]
pub struct NextGameTimer {
    pub timer_ms: u64,
}

/// Moves the match to the game-over phase when a win event arrives during
/// play, schedules the restart delay, and hands back the first event — the
/// one the match controller acts on. Later events of the same tick are
/// dropped; no arbitration between simultaneous wins is attempted.
pub fn handle_win_events(state: &mut GameState, timers: &mut Vec<NextGameTimer>, events: &Vec<WinEvent>) -> (r: Option<
    WinEvent,
>)
    ensures
        *old(state) is Play && events@.len() > 0 ==> {
            &&& *final(state) is GameOver
            &&& r == Some(events@[0])
            &&& final(timers)@ == old(timers)@.push(NextGameTimer { timer_ms: NEXT_GAME_DELAY_MS })
        },
        !(*old(state) is Play) || events@.len() == 0 ==> {
            &&& *final(state) == *old(state)
            &&& r is None
            &&& final(timers)@ == old(timers)@
        },
{
    if let GameState::Play = *state {
        if events.len() > 0 {
            *state = GameState::GameOver;
            timers.push(NextGameTimer { timer_ms: NEXT_GAME_DELAY_MS });
            return Some(events[0]);
        }
    }
    None
}

/// The restart timers that survive a tick of `dt` milliseconds, each with
/// its remaining time reduced.
pub open spec fn surviving_next_game_timers(timers: Seq<NextGameTimer>, dt: u64) -> Seq<NextGameTimer>
    decreases timers.len(),
{
    if timers.len() == 0 {
        Seq::empty()
    } else {
        let rest = surviving_next_game_timers(timers.drop_last(), dt);
        let last = timers.last();
        if last.timer_ms > dt {
            rest.push(NextGameTimer { timer_ms: (last.timer_ms - dt) as u64 })
        } else {
            rest
        }
    }
}

/// Advances the restart timers by `dt` milliseconds; when one expires the
/// match returns to the join phase.
pub fn start_next_game(timers: &mut Vec<NextGameTimer>, state: &mut GameState, dt: u64)
    ensures
        final(timers)@ == surviving_next_game_timers(old(timers)@, dt),
        (exists|i: int| 0 <= i < old(timers)@.len() && old(timers)@[i].timer_ms <= dt) ==> *final(state)
            is Join,
        !(exists|i: int| 0 <= i < old(timers)@.len() && old(timers)@[i].timer_ms <= dt) ==> *final(state) == *old(
            state,
        ),
{
    let ghost timers0 = timers@;
    let ghost state0 = *state;
    let mut out: Vec<NextGameTimer> = Vec::new();
    let mut i: usize = 0;
    let mut expired: bool = false;
    while i < timers.len()
        invariant
            0 <= i <= timers@.len(),
            timers@ == timers0,
            out@ == surviving_next_game_timers(timers0.take(i as int), dt),
            expired == exists|j: int| 0 <= j < i && timers0[j].timer_ms <= dt,
            expired ==> *state is Join,
            !expired ==> *state == state0,
        decreases timers@.len() - i,
    {
        let t = timers[i];
        proof {
            assert(timers0.take(i + 1).drop_last() =~= timers0.take(i as int));
            assert(timers0.take(i + 1).last() == timers0[i as int]);
        }
        if t.timer_ms > dt {
            out.push(NextGameTimer { timer_ms: t.timer_ms - dt });
        } else {
            *state = GameState::Join;
            expired = true;
        }
        i = i + 1;
    }
    proof {
        assert(timers0.take(timers0.len() as int) =~= timers0);
    }
    *timers = out;
}

} // verus!
