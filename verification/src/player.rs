//! Player records and the per-player systems: ground-contact tracking,
//! screen wrapping, invincibility, knockback impulses and queen lives.

use vstd::prelude::*;

use crate::ContactForceEvent;
use crate::Team;
use crate::WinCondition;
use crate::WinEvent;
use crate::gates::GateTimer;
use crate::settings::GameSettings;
use crate::ship::RidingOnShip;

verus! {

/// Render width of a worker sprite in pixels.
pub const WORKER_RENDER_WIDTH: u32 = 40;

/// Render height of a worker sprite in pixels.
pub const WORKER_RENDER_HEIGHT: u32 = 40;

/// Render width of a queen sprite in pixels.
pub const QUEEN_RENDER_WIDTH: u32 = 60;

/// Render height of a queen sprite in pixels.
pub const QUEEN_RENDER_HEIGHT: u32 = 60;

/// Horizontal impulse applied by a knockback, and by a queen's wing beat.
pub const PLAYER_FLY_IMPULSE: i64 = 55;

/// Vertical impulse applied when jumping, and when leaving the ship.
pub const PLAYER_JUMP_IMPULSE: i64 = 35;

/// Delay between a kill and the victim's respawn.
pub const RESPAWN_DELAY_MS: u64 = 2000;

/// How long a freshly spawned player stays invincible.
pub const INVINCIBILITY_DURATION_MS: u64 = 2000;

/// Period of the visibility blink while invincible.
pub const INVINCIBILITY_BLINK_MS: u64 = 100;

/// Coordinates are kept well inside this bound so that the collision
/// geometry can be computed without overflow.
pub const POS_LIMIT: i64 = 100000000;

/// Which way a player faces.
#[derive(Clone, Copy, Debug, PartialEq, Eq, Structural)]
pub enum Direction {
    Right,
    Left,
}

/// A player is a worker or a queen; only queens fly and fight in the air.
/// A worker becomes a queen by standing in a matching gate with a berry.
#[derive(Clone, Copy, Debug, PartialEq, Eq, Structural)]
pub enum Role {
    Worker,
    Queen,
}

/// Temporary immunity after a respawn: `timer_ms` until it ends,
/// `animation_ms` until the next visibility blink.
#[derive(Clone, Copy, Debug, PartialEq, Eq, Structural)]
pub struct Invincible {
    pub timer_ms: u64,
    pub animation_ms: u64,
}

/// A live combatant. Coordinates are integral pixels with the origin at
/// the arena centre; `width` and `height` are the current render size,
/// which the collision geometry reads.
#[derive(Clone, Copy, Debug, PartialEq, Eq, Structural)]
pub struct Player {
    /// Entity identifier, as the physics layer reports it.
    pub id: u64,
    /// The input device that owns this player.
    pub gamepad: u64,
    pub team: Team,
    pub role: Role,
    pub x: i64,
    pub y: i64,
    pub width: u32,
    pub height: u32,
    pub facing: Direction,
    pub on_ground: bool,
    pub has_berry: bool,
    /// Queens only: holding the dive control.
    pub diving: bool,
    pub visible: bool,
    pub invincible: Option<Invincible>,
    pub gate_timer: Option<GateTimer>,
    pub riding_on_ship: Option<RidingOnShip>,
}

impl Player {
    /// Coordinates and sizes small enough for the collision geometry.
    pub open spec fn in_bounds(self) -> bool {
        &&& -POS_LIMIT <= self.x <= POS_LIMIT
        &&& -POS_LIMIT <= self.y <= POS_LIMIT
        &&& self.width <= 1000
        &&& self.height <= 1000
    }
}

/// Queen deaths suffered by each team; the military win condition reads
/// these against the configured life limit.
#[derive(Clone, Copy, Debug, PartialEq, Eq, Structural)]
pub struct QueenDeaths {
    pub yellow_deaths: u32,
    pub purple_deaths: u32,
}

impl QueenDeaths {
    /// Deaths suffered by `team`'s queen.
    pub open spec fn spec_deaths_of(self, team: Team) -> u32 {
        match team {
            Team::Yellow => self.yellow_deaths,
            Team::Purple => self.purple_deaths,
        }
    }

    pub fn new() -> (r: QueenDeaths)
        ensures
            r.yellow_deaths == 0,
            r.purple_deaths == 0,
    {
        QueenDeaths { yellow_deaths: 0, purple_deaths: 0 }
    }

    pub fn deaths_of(&self, team: Team) -> (r: u32)
        ensures
            r == self.spec_deaths_of(team),
    {
        match team {
            Team::Yellow => self.yellow_deaths,
            Team::Purple => self.purple_deaths,
        }
    }
}

/// Zeroes both death counters at round start.
pub fn reset_queen_lives_counter(queen_deaths: &mut QueenDeaths)
    ensures
        final(queen_deaths).yellow_deaths == 0,
        final(queen_deaths).purple_deaths == 0,
{
    queen_deaths.yellow_deaths = 0;
    queen_deaths.purple_deaths = 0;
}

/// Lives a team's queen has left: the configured limit less the deaths
/// suffered, never below zero.
pub fn lives_remaining(queen_deaths: &QueenDeaths, settings: &GameSettings, team: Team) -> (r: u32)
    ensures
        queen_deaths.spec_deaths_of(team) >= settings.queen_lives ==> r == 0,
        queen_deaths.spec_deaths_of(team) < settings.queen_lives ==> r == settings.queen_lives
            - queen_deaths.spec_deaths_of(team),
{
    let deaths = queen_deaths.deaths_of(team);
    if deaths >= settings.queen_lives {
        0
    } else {
        settings.queen_lives - deaths
    }
}

/// The military win events owed for the current death counters: a team
/// wins when the opposing queen has died at least `queen_lives` times.
/// Both events appear when both counters are at the limit.
pub open spec fn queen_death_wins(queen_deaths: QueenDeaths, queen_lives: u32) -> Seq<WinEvent> {
    let base: Seq<WinEvent> = Seq::empty();
    let after_yellow: Seq<WinEvent> = if queen_deaths.yellow_deaths >= queen_lives {
        base.push(WinEvent { team: Team::Purple, win_condition: WinCondition::Military })
    } else {
        base
    };
    if queen_deaths.purple_deaths >= queen_lives {
        after_yellow.push(WinEvent { team: Team::Yellow, win_condition: WinCondition::Military })
    } else {
        after_yellow
    }
}

/// Emits the military win events for the current death counters.
pub fn check_for_queen_death_win(queen_deaths: &QueenDeaths, settings: &GameSettings) -> (r: Vec<WinEvent>)
    ensures
        r@ == queen_death_wins(*queen_deaths, settings.queen_lives),
{
    let mut r: Vec<WinEvent> = Vec::new();
    if queen_deaths.yellow_deaths >= settings.queen_lives {
        r.push(WinEvent { team: Team::Purple, win_condition: WinCondition::Military });
    }
    if queen_deaths.purple_deaths >= settings.queen_lives {
        r.push(WinEvent { team: Team::Yellow, win_condition: WinCondition::Military });
    }
    proof {
        assert(r@ =~= queen_death_wins(*queen_deaths, settings.queen_lives));
    }
    r
}

/// A resolved knockback: push `entity` horizontally in `direction`.
/// Resolution is decoupled from the impulse so the decision stays free of
/// physics mutation.
#[derive(Clone, Copy, Debug, PartialEq, Eq, Structural)]
pub struct KnockBackEvent {
    pub entity: u64,
    pub direction: Direction,
}

/// A request to construct a player after `delay_ms`, carrying everything
/// the construction needs.
#[derive(Clone, Copy, Debug, PartialEq, Eq, Structural)]
pub struct SpawnPlayerEvent {
    pub team: Team,
    pub is_queen: bool,
    pub gamepad: u64,
    pub delay_ms: u64,
    pub start_invincible: bool,
}

/// The horizontal impulse a knockback in `direction` applies.
pub open spec fn knockback_impulse(direction: Direction) -> i64 {
    match direction {
        Direction::Right => PLAYER_FLY_IMPULSE,
        Direction::Left => (-PLAYER_FLY_IMPULSE) as i64,
    }
}

/// Turns each knockback event into the horizontal impulse to apply to its
/// entity: the fixed fly impulse, signed by the push direction.
pub fn apply_knockbacks(events: &Vec<KnockBackEvent>) -> (r: Vec<(u64, i64)>)
    ensures
        r@.len() == events@.len(),
        forall|i: int| 0 <= i < events@.len() ==> r@[i] == (
            events@[i].entity,
            knockback_impulse(events@[i].direction),
        ),
{
    let mut r: Vec<(u64, i64)> = Vec::new();
    let mut i: usize = 0;
    while i < events.len()
        invariant
            0 <= i <= events@.len(),
            r@.len() == i,
            forall|j: int| 0 <= j < i ==> r@[j] == (events@[j].entity, knockback_impulse(events@[j].direction)),
        decreases events@.len() - i,
    {
        let ev = events[i];
        let impulse: i64 = match ev.direction {
            Direction::Right => PLAYER_FLY_IMPULSE,
            Direction::Left => -PLAYER_FLY_IMPULSE,
        };
        r.push((ev.entity, impulse));
        i = i + 1;
    }
    r
}

/// Whether a contact-force record with a nonzero vertical component
/// touches the entity `id`.
pub open spec fn grounded_by(contacts: Seq<ContactForceEvent>, id: u64) -> bool {
    exists|j: int| 0 <= j < contacts.len() && (contacts[j].collider1 == id || contacts[j].collider2 == id)
        && contacts[j].force_y != 0
}

/// The player with its on-ground flag replaced.
pub open spec fn with_on_ground(p: Player, on_ground: bool) -> Player {
    Player { on_ground, ..p }
}

/// Recomputes every player's on-ground flag from this tick's
/// contact-force records: a player is on ground exactly when some contact
/// with a nonzero vertical force component touches it. Everything else is
/// left unchanged; records naming no player are ignored.
pub fn check_if_players_on_ground(players: &mut Vec<Player>, contacts: &Vec<ContactForceEvent>)
    ensures
        final(players)@.len() == old(players)@.len(),
        forall|i: int| 0 <= i < old(players)@.len() ==> final(players)@[i] == with_on_ground(
            old(players)@[i],
            grounded_by(contacts@, old(players)@[i].id),
        ),
{
    let ghost players0 = players@;
    let mut i: usize = 0;
    while i < players.len()
        invariant
            0 <= i <= players0.len(),
            players@.len() == players0.len(),
            forall|k: int| i <= k < players0.len() ==> players@[k] == players0[k],
            forall|k: int| 0 <= k < i ==> players@[k] == with_on_ground(
                players0[k],
                grounded_by(contacts@, players0[k].id),
            ),
        decreases players0.len() - i,
    {
        let id = players[i].id;
        let mut grounded: bool = false;
        let mut j: usize = 0;
        while j < contacts.len()
            invariant
                0 <= j <= contacts@.len(),
                grounded == exists|k: int| 0 <= k < j && (contacts@[k].collider1 == id || contacts@[k].collider2
                    == id) && contacts@[k].force_y != 0,
            decreases contacts@.len() - j,
        {
            let c = contacts[j];
            if (c.collider1 == id || c.collider2 == id) && c.force_y != 0 {
                grounded = true;
            }
            j = j + 1;
        }
        players[i].on_ground = grounded;
        i = i + 1;
    }
}

/// One coordinate folded back into `low..=high` by shifting a full span,
/// first down from above `high`, then up from below `low`.
pub open spec fn wrap_coord(v: int, low: int, high: int, span: int) -> int {
    let v1 = if v > high {
        v - span
    } else {
        v
    };
    if v1 < low {
        v1 + span
    } else {
        v1
    }
}

/// The player moved back onto the screen torus.
pub open spec fn wrapped(p: Player) -> Player {
    Player {
        x: wrap_coord(p.x as int, crate::WINDOW_LEFT_X as int, crate::WINDOW_RIGHT_X as int, crate::WINDOW_WIDTH as int) as i64,
        y: wrap_coord(p.y as int, crate::WINDOW_BOTTOM_Y as int, crate::WINDOW_TOP_Y as int, crate::WINDOW_HEIGHT as int) as i64,
        ..p
    }
}

/// Wraps every player around the screen edges: leaving one side of the
/// arena re-enters from the opposite side.
pub fn wrap_around_screen(players: &mut Vec<Player>)
    requires
        forall|i: int| 0 <= i < old(players)@.len() ==> old(players)@[i].in_bounds(),
    ensures
        final(players)@.len() == old(players)@.len(),
        forall|i: int| 0 <= i < old(players)@.len() ==> final(players)@[i] == wrapped(old(players)@[i]),
{
    let ghost players0 = players@;
    let mut i: usize = 0;
    while i < players.len()
        invariant
            0 <= i <= players0.len(),
            players@.len() == players0.len(),
            forall|k: int| i <= k < players0.len() ==> players@[k] == players0[k],
            forall|k: int| i <= k < players0.len() ==> players0[k].in_bounds(),
            forall|k: int| 0 <= k < i ==> players@[k] == wrapped(players0[k]),
        decreases players0.len() - i,
    {
        let mut x = players[i].x;
        let mut y = players[i].y;
        if x > crate::WINDOW_RIGHT_X {
            x = x - crate::WINDOW_WIDTH;
        }
        if x < crate::WINDOW_LEFT_X {
            x = x + crate::WINDOW_WIDTH;
        }
        if y > crate::WINDOW_TOP_Y {
            y = y - crate::WINDOW_HEIGHT;
        }
        if y < crate::WINDOW_BOTTOM_Y {
            y = y + crate::WINDOW_HEIGHT;
        }
        players[i].x = x;
        players[i].y = y;
        i = i + 1;
    }
}

/// The player after `dt` milliseconds of invincibility: the window may
/// expire (visibility forced back on), otherwise the blink toggles once
/// per elapsed blink period.
pub open spec fn advance_invincibility(p: Player, dt: u64) -> Player {
    match p.invincible {
        Option::None => p,
        Option::Some(inv) => {
            if dt >= inv.timer_ms {
                Player { invincible: None, visible: true, ..p }
            } else {
                let toggles: int = if dt < inv.animation_ms {
                    0
                } else {
                    1 + (dt - inv.animation_ms) / (INVINCIBILITY_BLINK_MS as int)
                };
                let next_blink: int = if dt < inv.animation_ms {
                    inv.animation_ms - dt
                } else {
                    INVINCIBILITY_BLINK_MS - ((dt - inv.animation_ms) % (INVINCIBILITY_BLINK_MS as int))
                };
                Player {
                    invincible: Some(
                        Invincible { timer_ms: (inv.timer_ms - dt) as u64, animation_ms: next_blink as u64 },
                    ),
                    visible: if toggles % 2 == 1 {
                        !p.visible
                    } else {
                        p.visible
                    },
                    ..p
                }
            }
        },
    }
}

/// Advances every invincibility window by `dt` milliseconds: the blink
/// timer toggles visibility while it runs, and on expiry the component is
/// removed and visibility forced back on.
pub fn handle_invincibility(players: &mut Vec<Player>, dt: u64)
    ensures
        final(players)@.len() == old(players)@.len(),
        forall|i: int| 0 <= i < old(players)@.len() ==> final(players)@[i] == advance_invincibility(
            old(players)@[i],
            dt,
        ),
{
    let ghost players0 = players@;
    let mut i: usize = 0;
    while i < players.len()
        invariant
            0 <= i <= players0.len(),
            players@.len() == players0.len(),
            forall|k: int| i <= k < players0.len() ==> players@[k] == players0[k],
            forall|k: int| 0 <= k < i ==> players@[k] == advance_invincibility(players0[k], dt),
        decreases players0.len() - i,
    {
        let p = players[i];
        if let Some(inv) = p.invincible {
            if dt >= inv.timer_ms {
                players[i].invincible = None;
                players[i].visible = true;
            } else {
                let toggles: u64 = if dt < inv.animation_ms {
                    0
                } else {
                    1 + (dt - inv.animation_ms) / INVINCIBILITY_BLINK_MS
                };
                let next_blink: u64 = if dt < inv.animation_ms {
                    inv.animation_ms - dt
                } else {
                    INVINCIBILITY_BLINK_MS - ((dt - inv.animation_ms) % INVINCIBILITY_BLINK_MS)
                };
                players[i].invincible = Some(Invincible { timer_ms: inv.timer_ms - dt, animation_ms: next_blink });
                if toggles % 2 == 1 {
                    let visible = players[i].visible;
                    players[i].visible = !visible;
                }
            }
        }
        i = i + 1;
    }
}

/// The spawn request that rebuilds `p` at round reset: same team, role and
/// input device, no delay, no starting invincibility.
pub open spec fn respawn_request(p: Player) -> SpawnPlayerEvent {
    SpawnPlayerEvent {
        team: p.team,
        is_queen: p.role is Queen,
        gamepad: p.gamepad,
        delay_ms: 0,
        start_invincible: false,
    }
}

/// Removes every player at round reset and requests an immediate respawn
/// for each, keeping team, role and input device.
pub fn reset_all_players(players: &mut Vec<Player>) -> (r: Vec<SpawnPlayerEvent>)
    ensures
        final(players)@.len() == 0,
        r@ == old(players)@.map_values(|p: Player| respawn_request(p)),
{
    let ghost players0 = players@;
    let mut r: Vec<SpawnPlayerEvent> = Vec::new();
    let mut i: usize = 0;
    while i < players.len()
        invariant
            0 <= i <= players0.len(),
            players@ == players0,
            r@ == players0.take(i as int).map_values(|p: Player| respawn_request(p)),
        decreases players0.len() - i,
    {
        let p = players[i];
        r.push(
            SpawnPlayerEvent {
                team: p.team,
                is_queen: match p.role {
                    Role::Queen => true,
                    Role::Worker => false,
                },
                gamepad: p.gamepad,
                delay_ms: 0,
                start_invincible: false,
            },
        );
        proof {
            assert(players0.take(i + 1).map_values(|p: Player| respawn_request(p)) =~= players0.take(
                i as int,
            ).map_values(|p: Player| respawn_request(p)).push(respawn_request(players0[i as int])));
        }
        i = i + 1;
    }
    proof {
        assert(players0.take(players0.len() as int) =~= players0);
    }
    players.clear();
    r
}

} // verus!
