use hive_rules::CollisionEvent;
use hive_rules::Team;
use hive_rules::WinCondition;
use hive_rules::gates::GATE_TIME_MS;
use hive_rules::gates::Gate;
use hive_rules::gates::GateTimer;
use hive_rules::gates::check_worker_gate_collisions;
use hive_rules::gates::progress_gate_timers;
use hive_rules::gates::remove_gates;
use hive_rules::player::Direction;
use hive_rules::player::PLAYER_JUMP_IMPULSE;
use hive_rules::player::Player;
use hive_rules::player::Role;
use hive_rules::ship::RidingOnShip;
use hive_rules::ship::Ship;
use hive_rules::ship::check_for_ship_win;
use hive_rules::ship::get_on_ship;
use hive_rules::ship::jump_off_ship;
use hive_rules::ship::move_ship;
use hive_rules::settings::GameSettings;

fn player(id: u64, team: Team, role: Role, x: i64, y: i64) -> Player {
    let size = match role {
        Role::Queen => 60,
        Role::Worker => 40,
    };
    Player {
        id,
        gamepad: id,
        team,
        role,
        x,
        y,
        width: size,
        height: size,
        facing: Direction::Right,
        on_ground: true,
        has_berry: false,
        diving: false,
        visible: true,
        invincible: None,
        gate_timer: None,
        riding_on_ship: None,
    }
}

fn gate(id: u64) -> Gate {
    Gate { id, owner: None, join_gate: false }
}

#[test]
fn carrier_starts_gate_timer_on_matching_gate() {
    let mut gates = vec![gate(50)];
    let mut carrier = player(1, Team::Yellow, Role::Worker, 0, 0);
    carrier.has_berry = true;
    let mut players = vec![carrier];
    check_worker_gate_collisions(&mut gates, &mut players, &vec![CollisionEvent::Started {
        a: 50,
        b: 1,
    }]);
    assert_eq!(players[0].gate_timer, Some(GateTimer { elapsed_ms: 0 }));
}

#[test]
fn enemy_gate_starts_no_timer() {
    let mut owned = gate(50);
    owned.owner = Some(Team::Purple);
    let mut gates = vec![owned];
    let mut carrier = player(1, Team::Yellow, Role::Worker, 0, 0);
    carrier.has_berry = true;
    let mut players = vec![carrier];
    check_worker_gate_collisions(&mut gates, &mut players, &vec![CollisionEvent::Started {
        a: 50,
        b: 1,
    }]);
    assert_eq!(players[0].gate_timer, None);
}

#[test]
fn berryless_worker_starts_no_timer() {
    let mut gates = vec![gate(50)];
    let mut players = vec![player(1, Team::Yellow, Role::Worker, 0, 0)];
    check_worker_gate_collisions(&mut gates, &mut players, &vec![CollisionEvent::Started {
        a: 50,
        b: 1,
    }]);
    assert_eq!(players[0].gate_timer, None);
}

#[test]
fn queen_claims_unowned_gate() {
    let mut gates = vec![gate(50)];
    let mut players = vec![player(1, Team::Purple, Role::Queen, 0, 0)];
    check_worker_gate_collisions(&mut gates, &mut players, &vec![CollisionEvent::Started {
        a: 1,
        b: 50,
    }]);
    assert_eq!(gates[0].owner, Some(Team::Purple));
    // An already owned gate keeps its first claimant.
    let mut players2 = vec![player(2, Team::Yellow, Role::Queen, 0, 0)];
    check_worker_gate_collisions(&mut gates, &mut players2, &vec![CollisionEvent::Started {
        a: 2,
        b: 50,
    }]);
    assert_eq!(gates[0].owner, Some(Team::Purple));
}

#[test]
fn early_exit_cancels_promotion_and_restarts_from_zero() {
    let mut gates = vec![gate(50)];
    let mut carrier = player(1, Team::Yellow, Role::Worker, 0, 0);
    carrier.has_berry = true;
    let mut players = vec![carrier];
    check_worker_gate_collisions(&mut gates, &mut players, &vec![CollisionEvent::Started {
        a: 50,
        b: 1,
    }]);
    // Stand in gate contact for less than the promotion time: the sprite
    // grows, the worker stays a worker.
    progress_gate_timers(&mut players, 400);
    assert_eq!(players[0].role, Role::Worker);
    assert_eq!(players[0].gate_timer, Some(GateTimer { elapsed_ms: 400 }));
    assert_eq!(players[0].width, 48);
    assert_eq!(players[0].height, 48);
    // Leaving gate contact loses all progress and restores worker size.
    check_worker_gate_collisions(&mut gates, &mut players, &vec![CollisionEvent::Stopped {
        a: 50,
        b: 1,
    }]);
    assert_eq!(players[0].role, Role::Worker);
    assert_eq!(players[0].gate_timer, None);
    assert_eq!(players[0].width, 40);
    assert_eq!(players[0].height, 40);
    // A second touch starts over at zero rather than resuming.
    check_worker_gate_collisions(&mut gates, &mut players, &vec![CollisionEvent::Started {
        a: 50,
        b: 1,
    }]);
    assert_eq!(players[0].gate_timer, Some(GateTimer { elapsed_ms: 0 }));
}

#[test]
fn full_gate_contact_promotes_worker() {
    let mut gates = vec![gate(50)];
    let mut carrier = player(1, Team::Yellow, Role::Worker, 0, 100);
    carrier.has_berry = true;
    let mut players = vec![carrier];
    check_worker_gate_collisions(&mut gates, &mut players, &vec![CollisionEvent::Started {
        a: 50,
        b: 1,
    }]);
    progress_gate_timers(&mut players, GATE_TIME_MS);
    let p = players[0];
    assert_eq!(p.role, Role::Queen);
    assert_eq!(p.width, 60);
    assert_eq!(p.height, 60);
    assert_eq!(p.y, 110);
    assert!(!p.has_berry);
    assert_eq!(p.gate_timer, None);
}

#[test]
fn gates_are_removed_on_reset() {
    let mut gates = vec![gate(50), gate(51)];
    remove_gates(&mut gates);
    assert_eq!(gates.len(), 0);
}

#[test]
fn first_worker_boards_and_claims_ship() {
    let mut ships = vec![Ship { id: 90, owner: None, x: 0 }];
    let mut players = vec![player(1, Team::Yellow, Role::Worker, 0, 0)];
    let knockbacks = get_on_ship(&mut ships, &mut players, &vec![CollisionEvent::Started {
        a: 90,
        b: 1,
    }]);
    assert_eq!(ships[0].owner, Some(Team::Yellow));
    assert_eq!(players[0].riding_on_ship, Some(RidingOnShip { ship: 90 }));
    assert_eq!(knockbacks.len(), 0);
}

#[test]
fn second_worker_is_bounced_off_claimed_ship() {
    let mut ships = vec![Ship { id: 90, owner: Some(Team::Yellow), x: 0 }];
    let mut players = vec![player(2, Team::Purple, Role::Worker, -10, 0)];
    let knockbacks = get_on_ship(&mut ships, &mut players, &vec![CollisionEvent::Started {
        a: 2,
        b: 90,
    }]);
    assert_eq!(players[0].riding_on_ship, None);
    assert_eq!(knockbacks.len(), 1);
    assert_eq!(knockbacks[0].entity, 2);
    assert_eq!(knockbacks[0].direction, Direction::Left);
}

#[test]
fn queen_cannot_board_ship() {
    let mut ships = vec![Ship { id: 90, owner: None, x: 0 }];
    let mut players = vec![player(1, Team::Yellow, Role::Queen, 0, 0)];
    let knockbacks = get_on_ship(&mut ships, &mut players, &vec![CollisionEvent::Started {
        a: 90,
        b: 1,
    }]);
    assert_eq!(ships[0].owner, None);
    assert_eq!(players[0].riding_on_ship, None);
    assert_eq!(knockbacks.len(), 0);
}

#[test]
fn claimed_ship_drives_toward_team_edge_and_carries_rider() {
    let settings = GameSettings::default();
    let mut rider = player(1, Team::Yellow, Role::Worker, 0, 0);
    rider.riding_on_ship = Some(RidingOnShip { ship: 90 });
    let mut players = vec![rider];
    // Yellow drives left: thirty pixels per second for 16 ms is exactly
    // 480 thousandths of a pixel.
    let mut ships = vec![Ship { id: 90, owner: Some(Team::Yellow), x: 0 }];
    move_ship(&mut players, &mut ships, &settings, 16);
    assert_eq!(ships[0].x, -480);
    assert_eq!(players[0].x, 0);
    // After enough ticks the whole pixels show up, and the rider snaps
    // to the ship's pixel position.
    for _ in 0..124 {
        move_ship(&mut players, &mut ships, &settings, 16);
    }
    assert_eq!(ships[0].x, -60000);
    assert_eq!(players[0].x, -60);
    // An unclaimed ship rests.
    let mut free_ships = vec![Ship { id: 91, owner: None, x: 100 }];
    let mut nobody: Vec<Player> = Vec::new();
    move_ship(&mut nobody, &mut free_ships, &settings, 1000);
    assert_eq!(free_ships[0].x, 100);
}

#[test]
fn jumping_off_releases_the_claim() {
    let mut rider = player(1, Team::Yellow, Role::Worker, 0, 0);
    rider.riding_on_ship = Some(RidingOnShip { ship: 90 });
    let mut players = vec![rider];
    let mut ships = vec![Ship { id: 90, owner: Some(Team::Yellow), x: 500 }];
    let impulses = jump_off_ship(&mut players, &mut ships, &vec![1]);
    assert_eq!(players[0].riding_on_ship, None);
    assert_eq!(ships[0].owner, None);
    assert_eq!(impulses, vec![(1, PLAYER_JUMP_IMPULSE)]);
    // Without a jump press nothing happens.
    let mut rider2 = player(2, Team::Purple, Role::Worker, 0, 0);
    rider2.riding_on_ship = Some(RidingOnShip { ship: 91 });
    let mut players2 = vec![rider2];
    let mut ships2 = vec![Ship { id: 91, owner: Some(Team::Purple), x: 0 }];
    let impulses2 = jump_off_ship(&mut players2, &mut ships2, &vec![1]);
    assert_eq!(players2[0].riding_on_ship, Some(RidingOnShip { ship: 91 }));
    assert_eq!(ships2[0].owner, Some(Team::Purple));
    assert_eq!(impulses2.len(), 0);
}

#[test]
fn ship_win_fires_past_the_winning_spot() {
    // The winning spot sits at 2560/3 pixels from the centre: 853333
    // thousandths is still short, 853334 is past it.
    let short = vec![Ship { id: 90, owner: Some(Team::Purple), x: 853333 }];
    assert_eq!(check_for_ship_win(&short).len(), 0);
    let past = vec![Ship { id: 90, owner: Some(Team::Purple), x: 853334 }];
    let wins = check_for_ship_win(&past);
    assert_eq!(wins.len(), 1);
    assert_eq!(wins[0].team, Team::Purple);
    assert_eq!(wins[0].win_condition, WinCondition::Ship);
    // The far left edge counts for Yellow the same way.
    let left = vec![Ship { id: 90, owner: Some(Team::Yellow), x: -853334 }];
    let wins_left = check_for_ship_win(&left);
    assert_eq!(wins_left.len(), 1);
    assert_eq!(wins_left[0].team, Team::Yellow);
    // An unclaimed ship never wins, wherever it sits.
    let unclaimed = vec![Ship { id: 90, owner: None, x: 900000 }];
    assert_eq!(check_for_ship_win(&unclaimed).len(), 0);
}
