use hive_rules::CollisionEvent;
use hive_rules::Team;
use hive_rules::combat::AttackOutcome;
use hive_rules::combat::attack;
use hive_rules::combat::players_attack;
use hive_rules::player::Direction;
use hive_rules::player::PLAYER_FLY_IMPULSE;
use hive_rules::player::Player;
use hive_rules::player::QueenDeaths;
use hive_rules::player::RESPAWN_DELAY_MS;
use hive_rules::player::Role;
use hive_rules::player::apply_knockbacks;
use hive_rules::ship::Ship;

fn base_player(id: u64, team: Team, role: Role, x: i64, y: i64) -> Player {
    let size = match role {
        Role::Queen => 60,
        Role::Worker => 40,
    };
    Player {
        id,
        gamepad: id,
        team,
        role,
        x,
        y,
        width: size,
        height: size,
        facing: Direction::Right,
        on_ground: false,
        has_berry: false,
        diving: false,
        visible: true,
        invincible: None,
        gate_timer: None,
        riding_on_ship: None,
    }
}

fn run_attack(
    players: &mut Vec<Player>,
    ships: &mut Vec<Ship>,
    deaths: &mut QueenDeaths,
    events: Vec<CollisionEvent>,
) -> hive_rules::combat::AttackEffects {
    let mut next_id: u64 = 1000;
    players_attack(players, ships, deaths, &mut next_id, &events)
}

#[test]
fn same_team_collision_is_ignored() {
    let q1 = base_player(1, Team::Yellow, Role::Queen, 0, 100);
    let q2 = base_player(2, Team::Yellow, Role::Queen, 5, 0);
    let mut players = vec![q1, q2];
    let mut ships: Vec<Ship> = Vec::new();
    let mut deaths = QueenDeaths::new();
    let fx = run_attack(&mut players, &mut ships, &mut deaths, vec![CollisionEvent::Started {
        a: 1,
        b: 2,
    }]);
    assert_eq!(players.len(), 2);
    assert_eq!(fx.knockbacks.len(), 0);
    assert_eq!(fx.spawns.len(), 0);
    assert_eq!(deaths.yellow_deaths, 0);
    assert_eq!(deaths.purple_deaths, 0);
}

#[test]
fn invincible_queen_is_never_killed() {
    let mut low = base_player(1, Team::Purple, Role::Queen, 0, 0);
    low.invincible = Some(hive_rules::player::Invincible { timer_ms: 1500, animation_ms: 100 });
    let high = base_player(2, Team::Yellow, Role::Queen, 0, 50);
    assert_eq!(attack(&high, &low), AttackOutcome::Ignored);
    assert_eq!(attack(&low, &high), AttackOutcome::Ignored);
}

#[test]
fn queen_always_kills_worker() {
    let queen = base_player(1, Team::Yellow, Role::Queen, 0, 0);
    // Worker above the queen, below it, or beside it: geometry is
    // irrelevant for the mixed pairing.
    for (wx, wy) in [(0, 80), (0, -80), (70, 0)] {
        let worker = base_player(2, Team::Purple, Role::Worker, wx, wy);
        assert_eq!(attack(&queen, &worker), AttackOutcome::Kill { victim: 2 });
        assert_eq!(attack(&worker, &queen), AttackOutcome::Kill { victim: 2 });
    }
}

#[test]
fn vertical_pounce_kills_lower_queen() {
    // Same x, clearly separated in y: classified vertical.
    let high = base_player(1, Team::Yellow, Role::Queen, 0, 100);
    let low = base_player(2, Team::Purple, Role::Queen, 0, 0);
    assert_eq!(attack(&high, &low), AttackOutcome::Kill { victim: 2 });
    assert_eq!(attack(&low, &high), AttackOutcome::Kill { victim: 2 });
}

#[test]
fn equal_height_vertical_contact_is_mutual_knockback() {
    // A vertical classification at exactly equal y needs flat, wide
    // sprites; the symmetric rule then pushes both apart instead of
    // picking a winner by argument order.
    let mut p1 = base_player(1, Team::Yellow, Role::Queen, 0, 0);
    p1.height = 2;
    let mut p2 = base_player(2, Team::Purple, Role::Queen, 0, 0);
    p2.height = 2;
    assert_eq!(attack(&p1, &p2), AttackOutcome::Knockback);
    assert_eq!(attack(&p2, &p1), AttackOutcome::Knockback);
}

#[test]
fn facing_queens_clash_without_kill() {
    let mut left = base_player(1, Team::Yellow, Role::Queen, -50, 0);
    left.facing = Direction::Right;
    let mut right = base_player(2, Team::Purple, Role::Queen, 50, 0);
    right.facing = Direction::Left;
    let mut players = vec![left, right];
    let mut ships: Vec<Ship> = Vec::new();
    let mut deaths = QueenDeaths::new();
    let fx = run_attack(&mut players, &mut ships, &mut deaths, vec![CollisionEvent::Started {
        a: 1,
        b: 2,
    }]);
    assert_eq!(players.len(), 2);
    assert_eq!(fx.spawns.len(), 0);
    assert_eq!(fx.knockbacks.len(), 2);
    assert_eq!(fx.knockbacks[0].entity, 1);
    assert_eq!(fx.knockbacks[0].direction, Direction::Left);
    assert_eq!(fx.knockbacks[1].entity, 2);
    assert_eq!(fx.knockbacks[1].direction, Direction::Right);
    // The impulses are the fly impulse with opposite signs.
    let impulses = apply_knockbacks(&fx.knockbacks);
    assert_eq!(impulses, vec![(1, -PLAYER_FLY_IMPULSE), (2, PLAYER_FLY_IMPULSE)]);
}

#[test]
fn back_turned_queen_is_killed() {
    // Both face right: the right-positioned queen shows her back.
    let left = base_player(1, Team::Yellow, Role::Queen, -50, 0);
    let right = base_player(2, Team::Purple, Role::Queen, 50, 0);
    assert_eq!(attack(&left, &right), AttackOutcome::Kill { victim: 2 });
    // Both face left: the left-positioned queen shows her back.
    let mut left2 = left;
    left2.facing = Direction::Left;
    let mut right2 = right;
    right2.facing = Direction::Left;
    assert_eq!(attack(&left2, &right2), AttackOutcome::Kill { victim: 1 });
}

#[test]
fn diving_queen_beats_level_queen() {
    let mut left = base_player(1, Team::Yellow, Role::Queen, -50, 0);
    left.diving = true;
    left.facing = Direction::Right;
    let mut right = base_player(2, Team::Purple, Role::Queen, 50, 0);
    right.facing = Direction::Left;
    assert_eq!(attack(&left, &right), AttackOutcome::Kill { victim: 2 });
    let mut both_left = left;
    both_left.diving = true;
    let mut both_right = right;
    both_right.diving = true;
    assert_eq!(attack(&both_left, &both_right), AttackOutcome::Knockback);
}

#[test]
fn worker_bump_never_kills() {
    let left = base_player(1, Team::Yellow, Role::Worker, -30, 0);
    let right = base_player(2, Team::Purple, Role::Worker, 30, 0);
    assert_eq!(attack(&left, &right), AttackOutcome::Knockback);
    // Vertical worker contact does nothing at all.
    let top = base_player(3, Team::Yellow, Role::Worker, 0, 80);
    let bottom = base_player(4, Team::Purple, Role::Worker, 0, 0);
    assert_eq!(attack(&top, &bottom), AttackOutcome::Ignored);
}

#[test]
fn killed_queen_drops_berry_counts_death_and_respawns() {
    // A Yellow queen clearly above a Purple queen, overlapping enough to
    // classify vertical: the Purple queen is despawned, purple deaths
    // step up, and a delayed invincible respawn is requested for the
    // same team, role and input device.
    let high = base_player(1, Team::Yellow, Role::Queen, 0, 100);
    let mut low = base_player(2, Team::Purple, Role::Queen, 0, 0);
    low.gamepad = 7;
    low.has_berry = true;
    let mut players = vec![high, low];
    let mut ships: Vec<Ship> = Vec::new();
    let mut deaths = QueenDeaths::new();
    let mut next_id: u64 = 500;
    let events = vec![CollisionEvent::Started { a: 1, b: 2 }];
    let fx = players_attack(&mut players, &mut ships, &mut deaths, &mut next_id, &events);
    assert_eq!(players.len(), 1);
    assert_eq!(players[0].id, 1);
    assert_eq!(deaths.purple_deaths, 1);
    assert_eq!(deaths.yellow_deaths, 0);
    assert_eq!(fx.spawns.len(), 1);
    let spawn = fx.spawns[0];
    assert_eq!(spawn.team, Team::Purple);
    assert!(spawn.is_queen);
    assert_eq!(spawn.gamepad, 7);
    assert_eq!(spawn.delay_ms, RESPAWN_DELAY_MS);
    assert!(spawn.delay_ms > 0);
    assert!(spawn.start_invincible);
    // The held berry re-entered the world at the death location.
    assert_eq!(fx.dropped_berries.len(), 1);
    assert_eq!(fx.dropped_berries[0].x, 0);
    assert_eq!(fx.dropped_berries[0].y, 0);
    assert_eq!(fx.dropped_berries[0].id, 500);
    assert_eq!(next_id, 501);
}

#[test]
fn killed_rider_releases_ship_claim() {
    let queen = base_player(1, Team::Yellow, Role::Queen, 0, 100);
    let mut worker = base_player(2, Team::Purple, Role::Worker, 0, 0);
    worker.riding_on_ship = Some(hive_rules::ship::RidingOnShip { ship: 90 });
    let mut players = vec![queen, worker];
    let mut ships = vec![Ship { id: 90, owner: Some(Team::Purple), x: 0 }];
    let mut deaths = QueenDeaths::new();
    let fx = run_attack(&mut players, &mut ships, &mut deaths, vec![CollisionEvent::Started {
        a: 1,
        b: 2,
    }]);
    assert_eq!(players.len(), 1);
    assert_eq!(ships[0].owner, None);
    // A worker death does not touch the queen-death counters.
    assert_eq!(deaths.purple_deaths, 0);
    assert_eq!(fx.spawns.len(), 1);
    assert!(!fx.spawns[0].is_queen);
}

#[test]
fn opposing_workers_meet_at_a_gate_without_casualties() {
    // Two opposing berry-carrying workers at the same height, one just
    // left of a gate and one just right, run into each other: both are
    // knocked back, nobody despawns, and no counter moves.
    let mut left = base_player(1, Team::Yellow, Role::Worker, -40, 0);
    left.has_berry = true;
    left.facing = Direction::Right;
    let mut right = base_player(2, Team::Purple, Role::Worker, 40, 0);
    right.has_berry = true;
    right.facing = Direction::Left;
    let mut players = vec![left, right];
    let mut gates = vec![hive_rules::gates::Gate { id: 50, owner: None, join_gate: false }];
    let mut collected = hive_rules::berries::BerriesCollected::new();
    let mut deaths = QueenDeaths::new();
    let mut ships: Vec<Ship> = Vec::new();
    // Both workers brush a gate as they meet in the middle.
    let events = vec![
        CollisionEvent::Started { a: 50, b: 1 },
        CollisionEvent::Started { a: 50, b: 2 },
        CollisionEvent::Started { a: 1, b: 2 },
    ];
    hive_rules::gates::check_worker_gate_collisions(&mut gates, &mut players, &events);
    let mut next_id: u64 = 100;
    let fx = players_attack(&mut players, &mut ships, &mut deaths, &mut next_id, &events);
    assert_eq!(fx.knockbacks.len(), 2);
    assert_eq!(fx.knockbacks[0].entity, 1);
    assert_eq!(fx.knockbacks[0].direction, Direction::Left);
    assert_eq!(fx.knockbacks[1].entity, 2);
    assert_eq!(fx.knockbacks[1].direction, Direction::Right);
    assert_eq!(players.len(), 2);
    assert_eq!(fx.spawns.len(), 0);
    assert_eq!(fx.dropped_berries.len(), 0);
    assert_eq!(deaths.yellow_deaths, 0);
    assert_eq!(deaths.purple_deaths, 0);
    assert_eq!(collected.yellow_berries, 0);
    assert_eq!(collected.purple_berries, 0);
    assert!(players[0].has_berry && players[1].has_berry);
}

#[test]
fn events_for_unknown_entities_are_skipped() {
    let q = base_player(1, Team::Yellow, Role::Queen, 0, 0);
    let mut players = vec![q];
    let mut ships: Vec<Ship> = Vec::new();
    let mut deaths = QueenDeaths::new();
    let fx = run_attack(&mut players, &mut ships, &mut deaths, vec![
        CollisionEvent::Started { a: 1, b: 99 },
        CollisionEvent::Stopped { a: 1, b: 1 },
    ]);
    assert_eq!(players.len(), 1);
    assert_eq!(fx.knockbacks.len(), 0);
    assert_eq!(fx.spawns.len(), 0);
}
