//! The ship: a mobile platform for workers, and the ship win condition.

use vstd::prelude::*;

use crate::CollisionEvent;
use crate::Team;
use crate::WinCondition;
use crate::WinEvent;
use crate::combat::find_player;
use crate::combat::find_ship;
use crate::combat::player_ids;
use crate::combat::ship_ids;
use crate::ids::first_index_of;
use crate::player::Direction;
use crate::player::KnockBackEvent;
use crate::player::PLAYER_JUMP_IMPULSE;
use crate::player::Player;
use crate::player::Role;
use crate::settings::GameSettings;

verus! {

/// Ship positions are kept in thousandths of a pixel so that the slow,
/// fractional drive (speed in pixels per second times a millisecond tick)
/// stays exact in integers.
pub const SHIP_POS_SCALE: i64 = 1000;

/// Ship positions stay well inside this bound (in thousandths of a
/// pixel) so the drive and the win check cannot overflow.
pub const SHIP_POS_LIMIT: i64 = 1000000000000;

/// Longest tick the ship drive accepts, in milliseconds (a full day).
pub const MAX_TICK_MS: u64 = 86400000;

/// The ship reaches its winning spot a window-eighteenth short of the
/// arena edge: |x| > 2560/3 pixels, i.e. 3·|x| > 2560000 thousandths.
pub const SHIP_WIN_SPOT_SCALED: i64 = 2560000;

/// A mobile platform claimed by the first worker to board; once claimed
/// it advances autonomously toward its team's edge of the arena.
#[derive(Clone, Copy, Debug, PartialEq, Eq, Structural)]
pub struct Ship {
    pub id: u64,
    /// The riding worker's team, while one is aboard.
    pub owner: Option<Team>,
    /// Horizontal position in thousandths of a pixel.
    pub x: i64,
}

/// Attached to a worker riding the ship, pointing back at it. Only one
/// worker rides at a time: boarding claims the ship, and the claim is
/// released when the rider jumps off or dies.
#[derive(Clone, Copy, Debug, PartialEq, Eq, Structural)]
pub struct RidingOnShip {
    pub ship: u64,
}

impl Ship {
    /// Position small enough for the drive and win check arithmetic.
    pub open spec fn in_bounds(self) -> bool {
        -SHIP_POS_LIMIT <= self.x <= SHIP_POS_LIMIT
    }
}

/// One orientation of a boarding contact: a worker touching an unclaimed
/// ship boards it — the ship takes the worker's team, the worker rides.
/// Touching a claimed ship bounces the worker away from it instead.
pub open spec fn board_orient(
    ships: Seq<Ship>,
    players: Seq<Player>,
    knockbacks: Seq<KnockBackEvent>,
    ship_id: u64,
    player_id: u64,
) -> (Seq<Ship>, Seq<Player>, Seq<KnockBackEvent>) {
    let si = first_index_of(ship_ids(ships), ship_id);
    let pi = first_index_of(player_ids(players), player_id);
    if si >= 0 && pi >= 0 && players[pi].role is Worker {
        let p = players[pi];
        if ships[si].owner is None {
            (
                ships.update(si, Ship { owner: Some(p.team), ..ships[si] }),
                players.update(pi, Player { riding_on_ship: Some(RidingOnShip { ship: ship_id }), ..p }),
                knockbacks,
            )
        } else {
            let direction = if p.x * SHIP_POS_SCALE < ships[si].x {
                Direction::Left
            } else {
                Direction::Right
            };
            (ships, players, knockbacks.push(KnockBackEvent { entity: p.id, direction }))
        }
    } else {
        (ships, players, knockbacks)
    }
}

/// One collision event's effect on boarding: both orientations tried.
pub open spec fn board_step(
    ships: Seq<Ship>,
    players: Seq<Player>,
    knockbacks: Seq<KnockBackEvent>,
    ev: CollisionEvent,
) -> (Seq<Ship>, Seq<Player>, Seq<KnockBackEvent>) {
    match ev {
        CollisionEvent::Stopped { .. } => (ships, players, knockbacks),
        CollisionEvent::Started { a, b } => {
            let (ships1, players1, knockbacks1) = board_orient(ships, players, knockbacks, a, b);
            board_orient(ships1, players1, knockbacks1, b, a)
        },
    }
}

/// The ships, players and bounce events after this tick's boarding
/// events, in order.
pub open spec fn board_run(
    ships: Seq<Ship>,
    players: Seq<Player>,
    knockbacks: Seq<KnockBackEvent>,
    events: Seq<CollisionEvent>,
) -> (Seq<Ship>, Seq<Player>, Seq<KnockBackEvent>)
    decreases events.len(),
{
    if events.len() == 0 {
        (ships, players, knockbacks)
    } else {
        let (ships1, players1, knockbacks1) = board_run(ships, players, knockbacks, events.drop_last());
        board_step(ships1, players1, knockbacks1, events.last())
    }
}

/// Applies one boarding orientation; shared by both orderings.
fn board_one(
    ships: &mut Vec<Ship>,
    players: &mut Vec<Player>,
    knockbacks: &mut Vec<KnockBackEvent>,
    ship_id: u64,
    player_id: u64,
)
    requires
        forall|i: int| 0 <= i < old(players)@.len() ==> old(players)@[i].in_bounds(),
    ensures
        (final(ships)@, final(players)@, final(knockbacks)@) == board_orient(
            old(ships)@,
            old(players)@,
            old(knockbacks)@,
            ship_id,
            player_id,
        ),
        final(players)@.len() == old(players)@.len(),
        forall|i: int| 0 <= i < final(players)@.len() ==> final(players)@[i].in_bounds(),
{
    let os = find_ship(ships, ship_id);
    let op = find_player(players, player_id);
    if let (Some(si), Some(pi)) = (os, op) {
        let p = players[pi];
        let is_worker = match p.role {
            Role::Worker => true,
            Role::Queen => false,
        };
        if is_worker {
            if ships[si].owner.is_none() {
                ships[si].owner = Some(p.team);
                players[pi].riding_on_ship = Some(RidingOnShip { ship: ship_id });
            } else {
                let direction = if p.x * SHIP_POS_SCALE < ships[si].x {
                    Direction::Left
                } else {
                    Direction::Right
                };
                knockbacks.push(KnockBackEvent { entity: p.id, direction });
            }
        }
    }
}

/// Resolves this tick's ship contacts: the first worker to touch an
/// unclaimed ship boards and claims it for its team; workers touching a
/// claimed ship are bounced away from it.
pub fn get_on_ship(ships: &mut Vec<Ship>, players: &mut Vec<Player>, events: &Vec<CollisionEvent>) -> (r:
    Vec<KnockBackEvent>)
    requires
        forall|i: int| 0 <= i < old(players)@.len() ==> old(players)@[i].in_bounds(),
    ensures
        (final(ships)@, final(players)@, r@) == board_run(
            old(ships)@,
            old(players)@,
            Seq::empty(),
            events@,
        ),
{
    let ghost ships0 = ships@;
    let ghost players0 = players@;
    let mut knockbacks: Vec<KnockBackEvent> = Vec::new();
    let mut i: usize = 0;
    while i < events.len()
        invariant
            0 <= i <= events@.len(),
            forall|k: int| 0 <= k < players@.len() ==> players@[k].in_bounds(),
            (ships@, players@, knockbacks@) == board_run(
                ships0,
                players0,
                Seq::empty(),
                events@.take(i as int),
            ),
        decreases events@.len() - i,
    {
        proof {
            assert(events@.take(i + 1).drop_last() =~= events@.take(i as int));
            assert(events@.take(i + 1).last() == events@[i as int]);
        }
        let ev = events[i];
        if let CollisionEvent::Started { a, b } = ev {
            board_one(ships, players, &mut knockbacks, a, b);
            board_one(ships, players, &mut knockbacks, b, a);
        }
        i = i + 1;
    }
    proof {
        assert(events@.take(events@.len() as int) =~= events@);
    }
    knockbacks
}

/// The ship after `dt` milliseconds of autonomous drive: a claimed ship
/// advances toward its team's edge — Yellow left, Purple right — by
/// speed (pixels per second) times the tick (milliseconds), which is
/// exactly that many thousandths of a pixel. An unclaimed ship rests.
pub open spec fn driven_ship(s: Ship, speed: u32, dt: u64) -> Ship {
    match s.owner {
        Option::None => s,
        Option::Some(team) => {
            let step = (speed as int) * (dt as int);
            let nx: int = if team is Yellow {
                s.x - step
            } else {
                s.x + step
            };
            Ship { x: nx as i64, ..s }
        },
    }
}

/// The player after the ships moved: a rider is carried along, its
/// position snapped to its ship's (in whole pixels, rounded toward
/// zero); everyone else stays put.
pub open spec fn carried_player(p: Player, ships: Seq<Ship>) -> Player {
    match p.riding_on_ship {
        Option::None => p,
        Option::Some(riding) => {
            let si = first_index_of(ship_ids(ships), riding.ship);
            if si < 0 {
                p
            } else {
                let sx: int = ships[si].x as int;
                let px: int = if sx >= 0 {
                    sx / (SHIP_POS_SCALE as int)
                } else {
                    -((-sx) / (SHIP_POS_SCALE as int))
                };
                Player { x: px as i64, ..p }
            }
        },
    }
}

/// Drives every claimed ship toward its team's edge and carries each
/// rider along with its ship.
pub fn move_ship(players: &mut Vec<Player>, ships: &mut Vec<Ship>, settings: &GameSettings, dt: u64)
    requires
        settings.wf(),
        dt <= MAX_TICK_MS,
        forall|i: int| 0 <= i < old(ships)@.len() ==> old(ships)@[i].in_bounds(),
    ensures
        final(ships)@.len() == old(ships)@.len(),
        forall|i: int| 0 <= i < old(ships)@.len() ==> final(ships)@[i] == driven_ship(
            old(ships)@[i],
            settings.ship_speed,
            dt,
        ),
        final(players)@.len() == old(players)@.len(),
        forall|i: int| 0 <= i < old(players)@.len() ==> final(players)@[i] == carried_player(
            old(players)@[i],
            final(ships)@,
        ),
{
    let ghost ships0 = ships@;
    let mut i: usize = 0;
    while i < ships.len()
        invariant
            0 <= i <= ships0.len(),
            ships@.len() == ships0.len(),
            settings.wf(),
            dt <= MAX_TICK_MS,
            forall|k: int| i <= k < ships0.len() ==> ships@[k] == ships0[k],
            forall|k: int| i <= k < ships0.len() ==> ships0[k].in_bounds(),
            forall|k: int| 0 <= k < i ==> ships@[k] == driven_ship(ships0[k], settings.ship_speed, dt),
        decreases ships0.len() - i,
    {
        let s = ships[i];
        if let Some(team) = s.owner {
            proof {
                assert((settings.ship_speed as int) * (dt as int) <= 17280000000 && (settings.ship_speed
                    as int) * (dt as int) >= 0) by (nonlinear_arith)
                    requires
                        settings.ship_speed <= 200,
                        dt <= 86400000,
                ;
            }
            let step = (settings.ship_speed as i64) * (dt as i64);
            let nx = match team {
                Team::Yellow => s.x - step,
                Team::Purple => s.x + step,
            };
            ships[i].x = nx;
        }
        i = i + 1;
    }
    proof {
        assert forall|k: int| 0 <= k < ships@.len() implies -1100000000000 <= (#[trigger] ships@[k]).x <= 1100000000000 by {
            assert(ships@[k] == driven_ship(ships0[k], settings.ship_speed, dt));
            assert((settings.ship_speed as int) * (dt as int) <= 17280000000 && (settings.ship_speed
                as int) * (dt as int) >= 0) by (nonlinear_arith)
                requires
                    settings.ship_speed <= 200,
                    dt <= 86400000,
            ;
        }
    }
    let ghost players0 = players@;
    let mut j: usize = 0;
    while j < players.len()
        invariant
            0 <= j <= players0.len(),
            players@.len() == players0.len(),
            forall|k: int| 0 <= k < ships@.len() ==> -1100000000000 <= (#[trigger] ships@[k]).x <= 1100000000000,
            forall|k: int| j <= k < players0.len() ==> players@[k] == players0[k],
            forall|k: int| 0 <= k < j ==> players@[k] == carried_player(players0[k], ships@),
        decreases players0.len() - j,
    {
        let p = players[j];
        if let Some(riding) = p.riding_on_ship {
            if let Some(si) = find_ship(ships, riding.ship) {
                let sx = ships[si].x;
                let px: i64 = if sx >= 0 {
                    ((sx as u64) / (SHIP_POS_SCALE as u64)) as i64
                } else {
                    -((((-sx) as u64) / (SHIP_POS_SCALE as u64)) as i64)
                };
                players[j].x = px;
            }
        }
        j = j + 1;
    }
}

/// One jump-off's effect at player index `i`: a rider that pressed jump
/// dismounts, its ship loses the team claim, and the rider gets the
/// upward jump impulse.
pub open spec fn jump_off_one(
    players: Seq<Player>,
    ships: Seq<Ship>,
    impulses: Seq<(u64, i64)>,
    jumpers: Seq<u64>,
    i: int,
) -> (Seq<Player>, Seq<Ship>, Seq<(u64, i64)>) {
    let p = players[i];
    match p.riding_on_ship {
        Option::None => (players, ships, impulses),
        Option::Some(riding) => {
            if jumpers.contains(p.id) {
                (
                    players.update(i, Player { riding_on_ship: None, ..p }),
                    crate::combat::release_ship(ships, riding.ship),
                    impulses.push((p.id, PLAYER_JUMP_IMPULSE)),
                )
            } else {
                (players, ships, impulses)
            }
        },
    }
}

/// The players, ships and impulses after the first `n` players were
/// offered the jump-off, in roster order.
pub open spec fn jump_off_run(
    players: Seq<Player>,
    ships: Seq<Ship>,
    impulses: Seq<(u64, i64)>,
    jumpers: Seq<u64>,
    n: int,
) -> (Seq<Player>, Seq<Ship>, Seq<(u64, i64)>)
    decreases n,
{
    if n <= 0 {
        (players, ships, impulses)
    } else {
        let (players1, ships1, impulses1) = jump_off_run(players, ships, impulses, jumpers, n - 1);
        jump_off_one(players1, ships1, impulses1, jumpers, n - 1)
    }
}

/// Lets every rider whose entity pressed jump leave the ship: the claim
/// is released and the rider receives the upward jump impulse.
pub fn jump_off_ship(players: &mut Vec<Player>, ships: &mut Vec<Ship>, jumpers: &Vec<u64>) -> (r: Vec<
    (u64, i64),
>)
    ensures
        (final(players)@, final(ships)@, r@) == jump_off_run(
            old(players)@,
            old(ships)@,
            Seq::empty(),
            jumpers@,
            old(players)@.len() as int,
        ),
{
    let ghost players0 = players@;
    let ghost ships0 = ships@;
    let mut impulses: Vec<(u64, i64)> = Vec::new();
    let mut i: usize = 0;
    while i < players.len()
        invariant
            0 <= i <= players0.len(),
            players@.len() == players0.len(),
            (players@, ships@, impulses@) == jump_off_run(
                players0,
                ships0,
                Seq::empty(),
                jumpers@,
                i as int,
            ),
        decreases players0.len() - i,
    {
        let p = players[i];
        if let Some(riding) = p.riding_on_ship {
            if contains_id(jumpers, p.id) {
                players[i].riding_on_ship = None;
                if let Some(si) = find_ship(ships, riding.ship) {
                    ships[si].owner = None;
                }
                impulses.push((p.id, PLAYER_JUMP_IMPULSE));
            }
        }
        i = i + 1;
    }
    impulses
}

/// Whether `ids` holds `id`.
fn contains_id(ids: &Vec<u64>, id: u64) -> (r: bool)
    ensures
        r == ids@.contains(id),
{
    let mut i: usize = 0;
    while i < ids.len()
        invariant
            0 <= i <= ids@.len(),
            forall|j: int| 0 <= j < i ==> ids@[j] != id,
        decreases ids@.len() - i,
    {
        if ids[i] == id {
            return true;
        }
        i = i + 1;
    }
    false
}

/// The ship win events owed for the current ship positions: each claimed
/// ship past the winning spot yields one event for its team, in order.
pub open spec fn ship_wins(ships: Seq<Ship>) -> Seq<WinEvent>
    decreases ships.len(),
{
    if ships.len() == 0 {
        Seq::empty()
    } else {
        let rest = ship_wins(ships.drop_last());
        let s = ships.last();
        match s.owner {
            Option::None => rest,
            Option::Some(team) => {
                if 3 * abs_pos(s.x as int) > SHIP_WIN_SPOT_SCALED {
                    rest.push(WinEvent { team, win_condition: WinCondition::Ship })
                } else {
                    rest
                }
            },
        }
    }
}

/// Absolute value of a position.
pub open spec fn abs_pos(v: int) -> int {
    if v >= 0 {
        v
    } else {
        -v
    }
}

/// Emits a ship win event for every claimed ship that crossed the
/// winning spot toward an arena edge.
pub fn check_for_ship_win(ships: &Vec<Ship>) -> (r: Vec<WinEvent>)
    requires
        forall|i: int| 0 <= i < ships@.len() ==> ships@[i].in_bounds(),
    ensures
        r@ == ship_wins(ships@),
{
    let mut r: Vec<WinEvent> = Vec::new();
    let mut i: usize = 0;
    while i < ships.len()
        invariant
            0 <= i <= ships@.len(),
            forall|k: int| 0 <= k < ships@.len() ==> ships@[k].in_bounds(),
            r@ == ship_wins(ships@.take(i as int)),
        decreases ships@.len() - i,
    {
        proof {
            assert(ships@.take(i + 1).drop_last() =~= ships@.take(i as int));
            assert(ships@.take(i + 1).last() == ships@[i as int]);
        }
        let s = ships[i];
        if let Some(team) = s.owner {
            let ax: i64 = if s.x >= 0 {
                s.x
            } else {
                -s.x
            };
            if 3 * ax > SHIP_WIN_SPOT_SCALED {
                r.push(WinEvent { team, win_condition: WinCondition::Ship });
            }
        }
        i = i + 1;
    }
    proof {
        assert(ships@.take(ships@.len() as int) =~= ships@);
    }
    r
}

} // verus!
