//! Delayed respawn: spawn requests wait out their delay, then a full
//! player is constructed at the team's spawn point.

use vstd::prelude::*;

use crate::Team;
use crate::player::Direction;
use crate::player::INVINCIBILITY_BLINK_MS;
use crate::player::INVINCIBILITY_DURATION_MS;
use crate::player::Invincible;
use crate::player::Player;
use crate::player::QUEEN_RENDER_HEIGHT;
use crate::player::QUEEN_RENDER_WIDTH;
use crate::player::Role;
use crate::player::SpawnPlayerEvent;
use crate::player::WORKER_RENDER_HEIGHT;
use crate::player::WORKER_RENDER_WIDTH;

verus! {

/// Horizontal distance of each team's spawn point from the arena centre
/// (a twentieth of the window width). Yellow spawns left, Purple right.
pub const SPAWN_X_OFFSET: i64 = 96;

/// Height of the spawn points: a ninth of the window below the top edge,
/// in whole pixels.
pub const SPAWN_Y: i64 = 396;

/// A scheduled spawn waiting out its delay.
#[derive(Clone, Copy, Debug, PartialEq, Eq, Structural)]
pub struct DelayedPlayerSpawner {
    pub timer_ms: u64,
    pub event: SpawnPlayerEvent,
}

/// The spawner that waits out `e`'s delay.
pub open spec fn pending_spawn(e: SpawnPlayerEvent) -> DelayedPlayerSpawner {
    DelayedPlayerSpawner { timer_ms: e.delay_ms, event: e }
}

/// Queues each spawn request behind its delay.
pub fn add_delayed_player_spawners(spawners: &mut Vec<DelayedPlayerSpawner>, events: &Vec<SpawnPlayerEvent>)
    ensures
        final(spawners)@ == old(spawners)@ + events@.map_values(|e: SpawnPlayerEvent| pending_spawn(e)),
{
    let ghost spawners0 = spawners@;
    let mut i: usize = 0;
    while i < events.len()
        invariant
            0 <= i <= events@.len(),
            spawners@ == spawners0 + events@.take(i as int).map_values(
                |e: SpawnPlayerEvent| pending_spawn(e),
            ),
        decreases events@.len() - i,
    {
        let ev = events[i];
        spawners.push(DelayedPlayerSpawner { timer_ms: ev.delay_ms, event: ev });
        proof {
            assert(spawners0 + events@.take(i + 1).map_values(|e: SpawnPlayerEvent| pending_spawn(e))
                =~= (spawners0 + events@.take(i as int).map_values(
                |e: SpawnPlayerEvent| pending_spawn(e),
            )).push(pending_spawn(events@[i as int])));
        }
        i = i + 1;
    }
    proof {
        assert(events@.take(events@.len() as int) =~= events@);
    }
}

/// The player a spawn request constructs, under a fresh entity
/// identifier: placed at the team's spawn point, facing the arena centre,
/// sized for its role, and invincible for the starting window when the
/// request says so.
pub open spec fn new_player(ev: SpawnPlayerEvent, id: u64) -> Player {
    Player {
        id,
        gamepad: ev.gamepad,
        team: ev.team,
        role: if ev.is_queen {
            Role::Queen
        } else {
            Role::Worker
        },
        x: match ev.team {
            Team::Yellow => (-SPAWN_X_OFFSET) as i64,
            Team::Purple => SPAWN_X_OFFSET,
        },
        y: SPAWN_Y,
        width: if ev.is_queen {
            QUEEN_RENDER_WIDTH
        } else {
            WORKER_RENDER_WIDTH
        },
        height: if ev.is_queen {
            QUEEN_RENDER_HEIGHT
        } else {
            WORKER_RENDER_HEIGHT
        },
        facing: match ev.team {
            Team::Yellow => Direction::Left,
            Team::Purple => Direction::Right,
        },
        on_ground: false,
        has_berry: false,
        diving: false,
        visible: true,
        invincible: if ev.start_invincible {
            Some(
                Invincible {
                    timer_ms: INVINCIBILITY_DURATION_MS,
                    animation_ms: INVINCIBILITY_BLINK_MS,
                },
            )
        } else {
            None
        },
        gate_timer: None,
        riding_on_ship: None,
    }
}

/// The spawners, roster and identifier source after the scheduled spawns
/// waited out `dt` milliseconds: expired requests construct their player
/// in order under consecutive fresh identifiers, the rest keep waiting.
pub open spec fn spawn_run(
    spawners: Seq<DelayedPlayerSpawner>,
    players: Seq<Player>,
    next_id: u64,
    dt: u64,
) -> (Seq<DelayedPlayerSpawner>, Seq<Player>, u64)
    decreases spawners.len(),
{
    if spawners.len() == 0 {
        (Seq::empty(), players, next_id)
    } else {
        let (sp, pl, ni) = spawn_run(spawners.drop_last(), players, next_id, dt);
        let s = spawners.last();
        if s.timer_ms <= dt {
            (sp, pl.push(new_player(s.event, ni)), (ni + 1) as u64)
        } else {
            (sp.push(DelayedPlayerSpawner { timer_ms: (s.timer_ms - dt) as u64, event: s.event }), pl, ni)
        }
    }
}

/// Advances every scheduled spawn by `dt` milliseconds; an expired
/// request is removed and its player constructed at the team's spawn
/// point with a fresh entity identifier.
pub fn spawn_players(
    spawners: &mut Vec<DelayedPlayerSpawner>,
    players: &mut Vec<Player>,
    next_id: &mut u64,
    dt: u64,
)
    requires
        *old(next_id) + old(spawners)@.len() <= u64::MAX,
    ensures
        (final(spawners)@, final(players)@, *final(next_id)) == spawn_run(
            old(spawners)@,
            old(players)@,
            *old(next_id),
            dt,
        ),
{
    let ghost spawners0 = spawners@;
    let ghost players0 = players@;
    let ghost next0 = *next_id;
    let mut kept: Vec<DelayedPlayerSpawner> = Vec::new();
    let mut i: usize = 0;
    while i < spawners.len()
        invariant
            0 <= i <= spawners0.len(),
            spawners@ == spawners0,
            next0 + spawners0.len() <= u64::MAX,
            *next_id <= next0 + i,
            (kept@, players@, *next_id) == spawn_run(spawners0.take(i as int), players0, next0, dt),
        decreases spawners0.len() - i,
    {
        let s = spawners[i];
        proof {
            assert(spawners0.take(i + 1).drop_last() =~= spawners0.take(i as int));
            assert(spawners0.take(i + 1).last() == spawners0[i as int]);
        }
        if s.timer_ms <= dt {
            players.push(build_player(s.event, *next_id));
            *next_id = *next_id + 1;
        } else {
            kept.push(DelayedPlayerSpawner { timer_ms: s.timer_ms - dt, event: s.event });
        }
        i = i + 1;
    }
    proof {
        assert(spawners0.take(spawners0.len() as int) =~= spawners0);
    }
    *spawners = kept;
}

/// Constructs the player a spawn request describes.
fn build_player(ev: SpawnPlayerEvent, id: u64) -> (r: Player)
    ensures
        r == new_player(ev, id),
{
    Player {
        id,
        gamepad: ev.gamepad,
        team: ev.team,
        role: if ev.is_queen {
            Role::Queen
        } else {
            Role::Worker
        },
        x: match ev.team {
            Team::Yellow => -SPAWN_X_OFFSET,
            Team::Purple => SPAWN_X_OFFSET,
        },
        y: SPAWN_Y,
        width: if ev.is_queen {
            QUEEN_RENDER_WIDTH
        } else {
            WORKER_RENDER_WIDTH
        },
        height: if ev.is_queen {
            QUEEN_RENDER_HEIGHT
        } else {
            WORKER_RENDER_HEIGHT
        },
        facing: match ev.team {
            Team::Yellow => Direction::Left,
            Team::Purple => Direction::Right,
        },
        on_ground: false,
        has_berry: false,
        diving: false,
        visible: true,
        invincible: if ev.start_invincible {
            Some(
                Invincible {
                    timer_ms: INVINCIBILITY_DURATION_MS,
                    animation_ms: INVINCIBILITY_BLINK_MS,
                },
            )
        } else {
            None
        },
        gate_timer: None,
        riding_on_ship: None,
    }
}

} // verus!
