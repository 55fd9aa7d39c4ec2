//! Combat resolution: interpreting collision events between players of
//! opposing teams, deciding kills and knockbacks, and applying the kill's
//! side effects (berry drop, ship release, death counting, respawn
//! scheduling).

use vstd::prelude::*;

use crate::CollisionEvent;
use crate::Team;
use crate::berries::Berry;
use crate::ids::first_index_of;
use crate::ids::lemma_first_index_of_absent;
use crate::ids::lemma_first_index_of_found;
use crate::player::Direction;
use crate::player::KnockBackEvent;
use crate::player::Player;
use crate::player::QueenDeaths;
use crate::player::RESPAWN_DELAY_MS;
use crate::player::Role;
use crate::player::SpawnPlayerEvent;
use crate::ship::Ship;

verus! {

/// What the combat engine decides for one collision between two players.
#[derive(Clone, Copy, Debug, PartialEq, Eq, Structural)]
pub enum AttackOutcome {
    /// Same team, invincible victim, or vertical worker contact: nothing
    /// happens.
    Ignored,
    /// Mutual push apart: the left-positioned player is pushed left, the
    /// right-positioned player right; nobody dies.
    Knockback,
    /// The player owning `victim` is killed.
    Kill { victim: u64 },
}

/// Absolute value.
pub open spec fn abs_i(v: int) -> int {
    if v >= 0 {
        v
    } else {
        -v
    }
}

/// Collision classification: vertical ("one player on top") when the
/// vertical gap beyond the summed half-heights exceeds the horizontal gap
/// beyond the summed half-widths. A collider's half-width is 3/20 of its
/// render width (the fixed collider-width multiplier of 3/10 applied to
/// half the width); both sides of the comparison are scaled by 20 to stay
/// integral.
pub open spec fn one_player_on_top(p1: Player, p2: Player) -> bool {
    20 * abs_i(p1.y - p2.y) - 10 * (p1.height + p2.height) > 20 * abs_i(p1.x - p2.x) - 3 * (p1.width
        + p2.width)
}

/// A kill of `victim`, unless an active invincibility drops the event.
pub open spec fn kill_unless_invincible(victim: Player) -> AttackOutcome {
    if victim.invincible is Some {
        AttackOutcome::Ignored
    } else {
        AttackOutcome::Kill { victim: victim.id }
    }
}

/// The full combat decision for a collision between `p1` and `p2`:
///
/// - same team: ignored;
/// - two queens, vertical: the strictly lower queen is killed (a pounce);
///   at exactly equal heights neither side has the high ground, so the
///   clash resolves symmetrically as mutual knockback;
/// - two queens, horizontal: a diving queen kills a non-diving one; two
///   divers knock back; otherwise facing decides — a queen whose back is
///   turned to the other is killed, and facing each other (or back to
///   back) is a mutual knockback;
/// - queen against worker: the worker is killed, independent of geometry;
/// - two workers: mutual knockback when horizontal, nothing when vertical.
///
/// A kill of an invincible victim is dropped.
pub open spec fn attack_outcome(p1: Player, p2: Player) -> AttackOutcome {
    if p1.team == p2.team {
        AttackOutcome::Ignored
    } else {
        let vertical = one_player_on_top(p1, p2);
        if p1.role is Queen && p2.role is Queen {
            if vertical {
                if p1.y > p2.y {
                    kill_unless_invincible(p2)
                } else if p2.y > p1.y {
                    kill_unless_invincible(p1)
                } else {
                    AttackOutcome::Knockback
                }
            } else {
                let l = if p1.x < p2.x {
                    p1
                } else {
                    p2
                };
                let r = if p1.x < p2.x {
                    p2
                } else {
                    p1
                };
                if l.diving && r.diving {
                    AttackOutcome::Knockback
                } else if l.diving {
                    kill_unless_invincible(r)
                } else if r.diving {
                    kill_unless_invincible(l)
                } else {
                    match (l.facing, r.facing) {
                        (Direction::Right, Direction::Right) => kill_unless_invincible(r),
                        (Direction::Left, Direction::Left) => kill_unless_invincible(l),
                        _ => AttackOutcome::Knockback,
                    }
                }
            }
        } else if p1.role is Queen {
            kill_unless_invincible(p2)
        } else if p2.role is Queen {
            kill_unless_invincible(p1)
        } else {
            if !vertical {
                AttackOutcome::Knockback
            } else {
                AttackOutcome::Ignored
            }
        }
    }
}

/// Decides one collision between two players.
pub fn attack(p1: &Player, p2: &Player) -> (r: AttackOutcome)
    requires
        p1.in_bounds(),
        p2.in_bounds(),
    ensures
        r == attack_outcome(*p1, *p2),
{
    if p1.team == p2.team {
        return AttackOutcome::Ignored;
    }
    let y_diff: i64 = if p1.y >= p2.y {
        p1.y - p2.y
    } else {
        p2.y - p1.y
    };
    let x_diff: i64 = if p1.x >= p2.x {
        p1.x - p2.x
    } else {
        p2.x - p1.x
    };
    let vertical = 20 * y_diff - 10 * ((p1.height + p2.height) as i64) > 20 * x_diff - 3 * ((p1.width
        + p2.width) as i64);
    match (p1.role, p2.role) {
        (Role::Queen, Role::Queen) => {
            if vertical {
                if p1.y > p2.y {
                    kill_filtered(p2)
                } else if p2.y > p1.y {
                    kill_filtered(p1)
                } else {
                    AttackOutcome::Knockback
                }
            } else {
                let (l, r) = if p1.x < p2.x {
                    (*p1, *p2)
                } else {
                    (*p2, *p1)
                };
                if l.diving && r.diving {
                    AttackOutcome::Knockback
                } else if l.diving {
                    kill_filtered(&r)
                } else if r.diving {
                    kill_filtered(&l)
                } else {
                    match (l.facing, r.facing) {
                        (Direction::Right, Direction::Right) => kill_filtered(&r),
                        (Direction::Left, Direction::Left) => kill_filtered(&l),
                        _ => AttackOutcome::Knockback,
                    }
                }
            }
        },
        (Role::Queen, Role::Worker) => kill_filtered(p2),
        (Role::Worker, Role::Queen) => kill_filtered(p1),
        (Role::Worker, Role::Worker) => {
            if !vertical {
                AttackOutcome::Knockback
            } else {
                AttackOutcome::Ignored
            }
        },
    }
}

fn kill_filtered(victim: &Player) -> (r: AttackOutcome)
    ensures
        r == kill_unless_invincible(*victim),
{
    if victim.invincible.is_some() {
        AttackOutcome::Ignored
    } else {
        AttackOutcome::Kill { victim: victim.id }
    }
}

/// The entity identifiers of a player roster, in roster order.
pub open spec fn player_ids(players: Seq<Player>) -> Seq<u64> {
    players.map_values(|p: Player| p.id)
}

/// The entity identifiers of the ships, in order.
pub open spec fn ship_ids(ships: Seq<Ship>) -> Seq<u64> {
    ships.map_values(|s: Ship| s.id)
}

/// Everything combat resolution reads and writes during one tick: the
/// rosters it may mutate and the event lists it appends to.
#[verifier::ext_equal]
pub struct CombatState {
    pub players: Seq<Player>,
    pub ships: Seq<Ship>,
    pub queen_deaths: QueenDeaths,
    /// Source of fresh entity identifiers for dropped berries.
    pub next_id: u64,
    pub knockbacks: Seq<KnockBackEvent>,
    pub spawns: Seq<SpawnPlayerEvent>,
    pub dropped_berries: Seq<Berry>,
}

/// The state combat resolution starts from: the current rosters and no
/// events emitted yet.
pub open spec fn combat_start(players: Seq<Player>, ships: Seq<Ship>, queen_deaths: QueenDeaths, next_id: u64) -> CombatState {
    CombatState {
        players,
        ships,
        queen_deaths,
        next_id,
        knockbacks: Seq::empty(),
        spawns: Seq::empty(),
        dropped_berries: Seq::empty(),
    }
}

/// The ship claim released when its rider dies: the first ship with this
/// identifier loses its owner.
pub open spec fn release_ship(ships: Seq<Ship>, ship_id: u64) -> Seq<Ship> {
    let si = first_index_of(ship_ids(ships), ship_id);
    if si < 0 {
        ships
    } else {
        ships.update(si, Ship { owner: None, ..ships[si] })
    }
}

/// The death counters after `team`'s queen died once more.
pub open spec fn bump_deaths(queen_deaths: QueenDeaths, team: Team) -> QueenDeaths {
    match team {
        Team::Yellow => QueenDeaths {
            yellow_deaths: (queen_deaths.yellow_deaths + 1) as u32,
            ..queen_deaths
        },
        Team::Purple => QueenDeaths {
            purple_deaths: (queen_deaths.purple_deaths + 1) as u32,
            ..queen_deaths
        },
    }
}

/// A confirmed kill's side effects: the victim leaves the roster; a held
/// berry re-enters the world at the death location under a fresh
/// identifier; a ship claim the victim held is released; a queen's death
/// is counted against her team; and a delayed respawn with starting
/// invincibility is requested for the same team, role and input device.
pub open spec fn kill_player_spec(s: CombatState, victim_id: u64) -> CombatState {
    let vi = first_index_of(player_ids(s.players), victim_id);
    if vi < 0 {
        s
    } else {
        let v = s.players[vi];
        CombatState {
            players: s.players.remove(vi),
            ships: match v.riding_on_ship {
                Option::None => s.ships,
                Option::Some(riding) => release_ship(s.ships, riding.ship),
            },
            queen_deaths: if v.role is Queen {
                bump_deaths(s.queen_deaths, v.team)
            } else {
                s.queen_deaths
            },
            next_id: if v.has_berry {
                (s.next_id + 1) as u64
            } else {
                s.next_id
            },
            knockbacks: s.knockbacks,
            spawns: s.spawns.push(
                SpawnPlayerEvent {
                    team: v.team,
                    is_queen: v.role is Queen,
                    gamepad: v.gamepad,
                    delay_ms: RESPAWN_DELAY_MS,
                    start_invincible: true,
                },
            ),
            dropped_berries: if v.has_berry {
                s.dropped_berries.push(Berry { id: s.next_id, x: v.x, y: v.y })
            } else {
                s.dropped_berries
            },
        }
    }
}

/// One collision event's effect on the combat state. Only collision
/// starts matter; an event naming an entity that is not a live player is
/// skipped. A knockback pushes the left-positioned player left and the
/// right-positioned one right (at exactly equal x the first-named entity
/// counts as the right one).
pub open spec fn combat_step(s: CombatState, ev: CollisionEvent) -> CombatState {
    match ev {
        CollisionEvent::Stopped { .. } => s,
        CollisionEvent::Started { a, b } => {
            let i1 = first_index_of(player_ids(s.players), a);
            let i2 = first_index_of(player_ids(s.players), b);
            if i1 < 0 || i2 < 0 {
                s
            } else {
                let p1 = s.players[i1];
                let p2 = s.players[i2];
                match attack_outcome(p1, p2) {
                    AttackOutcome::Ignored => s,
                    AttackOutcome::Knockback => {
                        let l_id = if p1.x < p2.x {
                            p1.id
                        } else {
                            p2.id
                        };
                        let r_id = if p1.x < p2.x {
                            p2.id
                        } else {
                            p1.id
                        };
                        CombatState {
                            knockbacks: s.knockbacks + seq![
                                KnockBackEvent { entity: l_id, direction: Direction::Left },
                                KnockBackEvent { entity: r_id, direction: Direction::Right },
                            ],
                            ..s
                        }
                    },
                    AttackOutcome::Kill { victim } => kill_player_spec(s, victim),
                }
            }
        },
    }
}

/// The combat state after this tick's collision events, processed in
/// order.
pub open spec fn combat_run(s: CombatState, events: Seq<CollisionEvent>) -> CombatState
    decreases events.len(),
{
    if events.len() == 0 {
        s
    } else {
        combat_step(combat_run(s, events.drop_last()), events.last())
    }
}

/// What one tick of combat resolution emitted.
pub struct AttackEffects {
    pub knockbacks: Vec<KnockBackEvent>,
    pub spawns: Vec<SpawnPlayerEvent>,
    pub dropped_berries: Vec<Berry>,
}

/// Index of the first player owning entity `id`, if any.
pub(crate) fn find_player(players: &Vec<Player>, id: u64) -> (r: Option<usize>)
    ensures
        match r {
            Option::Some(i) => i < players@.len() && players@[i as int].id == id && first_index_of(
                player_ids(players@),
                id,
            ) == i as int,
            Option::None => first_index_of(player_ids(players@), id) == -1,
        },
{
    let mut i: usize = 0;
    while i < players.len()
        invariant
            0 <= i <= players@.len(),
            forall|j: int| 0 <= j < i ==> players@[j].id != id,
        decreases players@.len() - i,
    {
        if players[i].id == id {
            proof {
                lemma_first_index_of_found(player_ids(players@), id, i as int);
            }
            return Some(i);
        }
        i = i + 1;
    }
    proof {
        lemma_first_index_of_absent(player_ids(players@), id);
    }
    None
}

/// Index of the first ship with entity `id`, if any.
pub(crate) fn find_ship(ships: &Vec<Ship>, id: u64) -> (r: Option<usize>)
    ensures
        match r {
            Option::Some(i) => i < ships@.len() && ships@[i as int].id == id && first_index_of(
                ship_ids(ships@),
                id,
            ) == i as int,
            Option::None => first_index_of(ship_ids(ships@), id) == -1,
        },
{
    let mut i: usize = 0;
    while i < ships.len()
        invariant
            0 <= i <= ships@.len(),
            forall|j: int| 0 <= j < i ==> ships@[j].id != id,
        decreases ships@.len() - i,
    {
        if ships[i].id == id {
            proof {
                lemma_first_index_of_found(ship_ids(ships@), id, i as int);
            }
            return Some(i);
        }
        i = i + 1;
    }
    proof {
        lemma_first_index_of_absent(ship_ids(ships@), id);
    }
    None
}

/// Applies a confirmed kill's side effects for the victim at roster index
/// `vi`.
fn kill_player(
    players: &mut Vec<Player>,
    ships: &mut Vec<Ship>,
    queen_deaths: &mut QueenDeaths,
    next_id: &mut u64,
    spawns: &mut Vec<SpawnPlayerEvent>,
    dropped_berries: &mut Vec<Berry>,
    vi: usize,
    victim_id: u64,
)
    requires
        vi < old(players)@.len(),
        first_index_of(player_ids(old(players)@), victim_id) == vi as int,
        old(queen_deaths).yellow_deaths < u32::MAX,
        old(queen_deaths).purple_deaths < u32::MAX,
        *old(next_id) < u64::MAX,
    ensures
        ({
            let s1 = kill_player_spec(
                combat_start(old(players)@, old(ships)@, *old(queen_deaths), *old(next_id)),
                victim_id,
            );
            &&& final(players)@ == s1.players
            &&& final(ships)@ == s1.ships
            &&& *final(queen_deaths) == s1.queen_deaths
            &&& *final(next_id) == s1.next_id
            &&& final(spawns)@ == old(spawns)@ + s1.spawns
            &&& final(dropped_berries)@ == old(dropped_berries)@ + s1.dropped_berries
        }),
{
    let ghost s0 = combat_start(players@, ships@, *queen_deaths, *next_id);
    let v = players[vi];
    proof {
        crate::ids::lemma_first_index_of_props(player_ids(players@), victim_id);
    }
    if let Role::Queen = v.role {
        match v.team {
            Team::Yellow => {
                queen_deaths.yellow_deaths = queen_deaths.yellow_deaths + 1;
            },
            Team::Purple => {
                queen_deaths.purple_deaths = queen_deaths.purple_deaths + 1;
            },
        }
    }
    if let Some(riding) = v.riding_on_ship {
        if let Some(si) = find_ship(ships, riding.ship) {
            let released = Ship { owner: None, ..ships[si] };
            ships[si] = released;
            proof {
                assert(ships@ =~= release_ship(s0.ships, riding.ship));
            }
        }
    }
    if v.has_berry {
        dropped_berries.push(Berry { id: *next_id, x: v.x, y: v.y });
        *next_id = *next_id + 1;
    }
    spawns.push(
        SpawnPlayerEvent {
            team: v.team,
            is_queen: match v.role {
                Role::Queen => true,
                Role::Worker => false,
            },
            gamepad: v.gamepad,
            delay_ms: RESPAWN_DELAY_MS,
            start_invincible: true,
        },
    );
    players.remove(vi);
    proof {
        let s1 = kill_player_spec(s0, victim_id);
        assert(spawns@ =~= old(spawns)@ + s1.spawns);
        assert(dropped_berries@ =~= old(dropped_berries)@ + s1.dropped_berries);
    }
}

/// Resolves this tick's collision-start events between players: decides
/// each collision with [`attack_outcome`] and applies the outcome —
/// knockback events, or a kill with its side effects. The final rosters,
/// counters and emitted events are exactly those of [`combat_run`] over
/// the events in order, starting from [`combat_start`].
pub fn players_attack(
    players: &mut Vec<Player>,
    ships: &mut Vec<Ship>,
    queen_deaths: &mut QueenDeaths,
    next_id: &mut u64,
    events: &Vec<CollisionEvent>,
) -> (r: AttackEffects)
    requires
        forall|i: int| 0 <= i < old(players)@.len() ==> old(players)@[i].in_bounds(),
        old(queen_deaths).yellow_deaths + events@.len() <= u32::MAX,
        old(queen_deaths).purple_deaths + events@.len() <= u32::MAX,
        *old(next_id) + events@.len() <= u64::MAX,
    ensures
        ({
            let fs = combat_run(
                combat_start(old(players)@, old(ships)@, *old(queen_deaths), *old(next_id)),
                events@,
            );
            &&& final(players)@ == fs.players
            &&& final(ships)@ == fs.ships
            &&& *final(queen_deaths) == fs.queen_deaths
            &&& *final(next_id) == fs.next_id
            &&& r.knockbacks@ == fs.knockbacks
            &&& r.spawns@ == fs.spawns
            &&& r.dropped_berries@ == fs.dropped_berries
        }),
{
    let ghost s0 = combat_start(players@, ships@, *queen_deaths, *next_id);
    let mut knockbacks: Vec<KnockBackEvent> = Vec::new();
    let mut spawns: Vec<SpawnPlayerEvent> = Vec::new();
    let mut dropped_berries: Vec<Berry> = Vec::new();
    let mut i: usize = 0;
    while i < events.len()
        invariant
            0 <= i <= events@.len(),
            old(queen_deaths).yellow_deaths + events@.len() <= u32::MAX,
            old(queen_deaths).purple_deaths + events@.len() <= u32::MAX,
            *old(next_id) + events@.len() <= u64::MAX,
            s0 == combat_start(old(players)@, old(ships)@, *old(queen_deaths), *old(next_id)),
            queen_deaths.yellow_deaths <= s0.queen_deaths.yellow_deaths + i,
            queen_deaths.purple_deaths <= s0.queen_deaths.purple_deaths + i,
            *next_id <= s0.next_id + i,
            forall|k: int| 0 <= k < players@.len() ==> players@[k].in_bounds(),
            (CombatState {
                players: players@,
                ships: ships@,
                queen_deaths: *queen_deaths,
                next_id: *next_id,
                knockbacks: knockbacks@,
                spawns: spawns@,
                dropped_berries: dropped_berries@,
            }) == combat_run(s0, events@.take(i as int)),
        decreases events@.len() - i,
    {
        let ghost pre = combat_run(s0, events@.take(i as int));
        proof {
            assert(events@.take(i + 1).drop_last() =~= events@.take(i as int));
            assert(events@.take(i + 1).last() == events@[i as int]);
        }
        let ev = events[i];
        if let CollisionEvent::Started { a, b } = ev {
            let o1 = find_player(players, a);
            let o2 = find_player(players, b);
            if let (Some(i1), Some(i2)) = (o1, o2) {
                let p1 = players[i1];
                let p2 = players[i2];
                let outcome = attack(&p1, &p2);
                match outcome {
                    AttackOutcome::Ignored => {},
                    AttackOutcome::Knockback => {
                        let (l_id, r_id) = if p1.x < p2.x {
                            (p1.id, p2.id)
                        } else {
                            (p2.id, p1.id)
                        };
                        knockbacks.push(KnockBackEvent { entity: l_id, direction: Direction::Left });
                        knockbacks.push(KnockBackEvent { entity: r_id, direction: Direction::Right });
                        proof {
                            assert(knockbacks@ =~= combat_step(pre, ev).knockbacks);
                        }
                    },
                    AttackOutcome::Kill { victim } => {
                        let vi = if victim == p1.id {
                            i1
                        } else {
                            i2
                        };
                        let ghost pre_spawns = spawns@;
                        let ghost pre_drops = dropped_berries@;
                        kill_player(
                            players,
                            ships,
                            queen_deaths,
                            next_id,
                            &mut spawns,
                            &mut dropped_berries,
                            vi,
                            victim,
                        );
                        proof {
                            let s1 = kill_player_spec(pre, victim);
                            assert(spawns@ =~= s1.spawns);
                            assert(dropped_berries@ =~= s1.dropped_berries);
                            assert forall|k: int| 0 <= k < players@.len() implies players@[k].in_bounds() by {
                                pre.players.remove_ensures(
                                    first_index_of(player_ids(pre.players), victim),
                                );
                            }
                        }
                    },
                }
            }
        }
        i = i + 1;
    }
    proof {
        assert(events@.take(events@.len() as int) =~= events@);
    }
    AttackEffects { knockbacks, spawns, dropped_berries }
}

/// Same-team immunity: a collision between players of one team is always
/// ignored — no kill and no knockback, whatever the roles, positions or
/// states.
pub proof fn lemma_same_team_immunity(p1: Player, p2: Player)
    requires
        p1.team == p2.team,
    ensures
        attack_outcome(p1, p2) == AttackOutcome::Ignored,
{
}

/// Invincibility immunity: a player with an active invincibility window
/// is never the victim of a kill decision, in either argument order,
/// regardless of role, direction or position. (Entity identifiers are
/// unique, so the other player does not share `p1.id`.)
pub proof fn lemma_invincibility_immunity(p1: Player, p2: Player)
    requires
        p1.invincible is Some,
        p1.id != p2.id,
    ensures
        !(attack_outcome(p1, p2) matches AttackOutcome::Kill { victim } && victim == p1.id),
        !(attack_outcome(p2, p1) matches AttackOutcome::Kill { victim } && victim == p1.id),
{
}

/// Flier-over-worker dominance: when a queen and a worker of opposing
/// teams collide, the worker is the one killed, independent of geometry
/// and in either argument order (unless its invincibility drops the kill,
/// which [`lemma_invincibility_immunity`] covers).
pub proof fn lemma_flier_over_worker(queen: Player, worker: Player)
    requires
        queen.team != worker.team,
        queen.role is Queen,
        worker.role is Worker,
        worker.invincible is None,
    ensures
        attack_outcome(queen, worker) == (AttackOutcome::Kill { victim: worker.id }),
        attack_outcome(worker, queen) == (AttackOutcome::Kill { victim: worker.id }),
{
}

/// Vertical tie-break: in a flier-against-flier collision classified
/// vertical, the queen with the strictly lower y coordinate is killed.
pub proof fn lemma_vertical_tie_break(upper: Player, lower: Player)
    requires
        upper.team != lower.team,
        upper.role is Queen,
        lower.role is Queen,
        one_player_on_top(upper, lower),
        lower.y < upper.y,
        lower.invincible is None,
    ensures
        attack_outcome(upper, lower) == (AttackOutcome::Kill { victim: lower.id }),
        attack_outcome(lower, upper) == (AttackOutcome::Kill { victim: lower.id }),
{
}

/// At exactly equal heights a vertical queen collision has no higher
/// player; it resolves symmetrically as a mutual knockback, never a kill.
pub proof fn lemma_vertical_equal_height_clash(p1: Player, p2: Player)
    requires
        p1.team != p2.team,
        p1.role is Queen,
        p2.role is Queen,
        one_player_on_top(p1, p2),
        p1.y == p2.y,
    ensures
        attack_outcome(p1, p2) == AttackOutcome::Knockback,
{
}

/// Mutual clash: two non-diving queens meeting horizontally while facing
/// each other — the left-positioned one facing right, the
/// right-positioned one facing left — produce a knockback and no kill.
pub proof fn lemma_mutual_clash_no_kill(left: Player, right: Player)
    requires
        left.team != right.team,
        left.role is Queen,
        right.role is Queen,
        !one_player_on_top(left, right),
        left.x < right.x,
        left.facing is Right,
        right.facing is Left,
        !left.diving,
        !right.diving,
    ensures
        attack_outcome(left, right) == AttackOutcome::Knockback,
        attack_outcome(right, left) == AttackOutcome::Knockback,
{
}

/// An ignored collision — same team, invincible victim, or vertical
/// worker contact — changes nothing at all: no roster, counter or event
/// moves.
pub proof fn lemma_ignored_step_effects(s: CombatState, a: u64, b: u64)
    requires
        ({
            let i1 = first_index_of(player_ids(s.players), a);
            let i2 = first_index_of(player_ids(s.players), b);
            &&& i1 >= 0
            &&& i2 >= 0
            &&& attack_outcome(s.players[i1], s.players[i2]) == AttackOutcome::Ignored
        }),
    ensures
        combat_step(s, CollisionEvent::Started { a, b }) == s,
{
}

/// Round trip of berry possession, death half: killing a berry carrier
/// re-spawns exactly one free berry, at the carrier's last position,
/// under the next fresh identifier; killing a player without a berry
/// re-spawns none. Either way exactly one player — the victim — leaves
/// the roster and exactly one respawn is requested.
pub proof fn lemma_kill_drops_held_berry(s: CombatState, victim_id: u64)
    requires
        first_index_of(player_ids(s.players), victim_id) >= 0,
    ensures
        ({
            let vi = first_index_of(player_ids(s.players), victim_id);
            let v = s.players[vi];
            let after = kill_player_spec(s, victim_id);
            &&& after.players == s.players.remove(vi)
            &&& after.players.len() == s.players.len() - 1
            &&& v.has_berry ==> after.dropped_berries == s.dropped_berries.push(
                (Berry { id: s.next_id, x: v.x, y: v.y }),
            )
            &&& !v.has_berry ==> after.dropped_berries == s.dropped_berries
            &&& after.spawns == s.spawns.push(
                (SpawnPlayerEvent {
                    team: v.team,
                    is_queen: v.role is Queen,
                    gamepad: v.gamepad,
                    delay_ms: RESPAWN_DELAY_MS,
                    start_invincible: true,
                }),
            )
        }),
{
    crate::ids::lemma_first_index_of_props(player_ids(s.players), victim_id);
}

/// A knockback outcome leaves every roster and counter untouched and
/// emits exactly two knockback events: the left-positioned player pushed
/// left and the right-positioned player pushed right — opposite
/// directions, whose impulses are the fly impulse with opposite signs.
pub proof fn lemma_knockback_step_effects(s: CombatState, a: u64, b: u64)
    requires
        ({
            let i1 = first_index_of(player_ids(s.players), a);
            let i2 = first_index_of(player_ids(s.players), b);
            &&& i1 >= 0
            &&& i2 >= 0
            &&& attack_outcome(s.players[i1], s.players[i2]) == AttackOutcome::Knockback
        }),
    ensures
        ({
            let i1 = first_index_of(player_ids(s.players), a);
            let i2 = first_index_of(player_ids(s.players), b);
            let p1 = s.players[i1];
            let p2 = s.players[i2];
            let l = if p1.x < p2.x {
                p1
            } else {
                p2
            };
            let r = if p1.x < p2.x {
                p2
            } else {
                p1
            };
            let after = combat_step(s, CollisionEvent::Started { a, b });
            &&& after.players == s.players
            &&& after.ships == s.ships
            &&& after.queen_deaths == s.queen_deaths
            &&& after.spawns == s.spawns
            &&& after.dropped_berries == s.dropped_berries
            &&& after.knockbacks == s.knockbacks + seq![
                (KnockBackEvent { entity: l.id, direction: Direction::Left }),
                (KnockBackEvent { entity: r.id, direction: Direction::Right }),
            ]
            &&& crate::player::knockback_impulse(Direction::Left) == -crate::player::knockback_impulse(
                Direction::Right,
            )
            &&& crate::player::knockback_impulse(Direction::Right) == crate::player::PLAYER_FLY_IMPULSE
        }),
{
}

} // verus!
