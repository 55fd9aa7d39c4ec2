use hive_rules::CollisionEvent;
use hive_rules::Team;
use hive_rules::WinCondition;
use hive_rules::berries::BerriesCollected;
use hive_rules::berries::Berry;
use hive_rules::berries::BerryCell;
use hive_rules::berries::check_for_berry_win;
use hive_rules::berries::grab_berries;
use hive_rules::berries::handle_respawn_berries_event;
use hive_rules::berries::put_berries_in_cells;
use hive_rules::player::Direction;
use hive_rules::player::Player;
use hive_rules::player::Role;
use hive_rules::settings::GameSettings;

fn worker(id: u64, team: Team, x: i64, y: i64) -> Player {
    Player {
        id,
        gamepad: id,
        team,
        role: Role::Worker,
        x,
        y,
        width: 40,
        height: 40,
        facing: Direction::Right,
        on_ground: true,
        has_berry: false,
        diving: false,
        visible: true,
        invincible: None,
        gate_timer: None,
        riding_on_ship: None,
    }
}

fn cell(id: u64, team: Team) -> BerryCell {
    BerryCell { id, team, filled: false, column: 0, row: 0 }
}

#[test]
fn worker_grabs_free_berry() {
    let mut berries = vec![Berry { id: 10, x: 5, y: 5 }];
    let mut players = vec![worker(1, Team::Yellow, 0, 0)];
    let events = vec![CollisionEvent::Started { a: 10, b: 1 }];
    grab_berries(&mut berries, &mut players, &events);
    assert_eq!(berries.len(), 0);
    assert!(players[0].has_berry);
}

#[test]
fn queen_cannot_grab_berry() {
    let mut berries = vec![Berry { id: 10, x: 5, y: 5 }];
    let mut queen = worker(1, Team::Yellow, 0, 0);
    queen.role = Role::Queen;
    queen.width = 60;
    queen.height = 60;
    let mut players = vec![queen];
    let events = vec![CollisionEvent::Started { a: 1, b: 10 }];
    grab_berries(&mut berries, &mut players, &events);
    assert_eq!(berries.len(), 1);
    assert!(!players[0].has_berry);
}

#[test]
fn one_berry_feeds_only_one_worker() {
    // Two workers touch the same berry in one tick: the first collision
    // processed takes it, the second finds it gone.
    let mut berries = vec![Berry { id: 10, x: 5, y: 5 }];
    let mut players = vec![worker(1, Team::Yellow, 0, 0), worker(2, Team::Purple, 10, 0)];
    let events = vec![
        CollisionEvent::Started { a: 10, b: 1 },
        CollisionEvent::Started { a: 10, b: 2 },
    ];
    grab_berries(&mut berries, &mut players, &events);
    assert_eq!(berries.len(), 0);
    assert!(players[0].has_berry);
    assert!(!players[1].has_berry);
}

#[test]
fn carrier_cannot_grab_second_berry() {
    let mut berries = vec![Berry { id: 10, x: 5, y: 5 }, Berry { id: 11, x: 6, y: 5 }];
    let mut players = vec![worker(1, Team::Yellow, 0, 0)];
    let events = vec![
        CollisionEvent::Started { a: 10, b: 1 },
        CollisionEvent::Started { a: 11, b: 1 },
    ];
    grab_berries(&mut berries, &mut players, &events);
    assert_eq!(berries.len(), 1);
    assert_eq!(berries[0].id, 11);
    assert!(players[0].has_berry);
}

#[test]
fn deposit_counts_once_for_both_pair_orderings() {
    // Both (cell, player) and (player, cell) orderings of the same
    // contact arrive in one tick: one berry banked, not two.
    let mut cells = vec![cell(20, Team::Yellow)];
    let mut carrier = worker(1, Team::Yellow, 0, 0);
    carrier.has_berry = true;
    let mut players = vec![carrier];
    let mut collected = BerriesCollected::new();
    let events = vec![
        CollisionEvent::Started { a: 20, b: 1 },
        CollisionEvent::Started { a: 1, b: 20 },
    ];
    put_berries_in_cells(&mut cells, &mut players, &mut collected, &events);
    assert_eq!(collected.yellow_berries, 1);
    assert_eq!(collected.purple_berries, 0);
    assert_eq!(collected.collected_by(Team::Yellow), 1);
    assert_eq!(collected.collected_by(Team::Purple), 0);
    assert!(cells[0].filled);
    assert!(!players[0].has_berry);
}

#[test]
fn deposit_needs_matching_team_and_empty_cell() {
    let mut cells = vec![cell(20, Team::Purple)];
    let mut carrier = worker(1, Team::Yellow, 0, 0);
    carrier.has_berry = true;
    let mut players = vec![carrier];
    let mut collected = BerriesCollected::new();
    let events = vec![CollisionEvent::Started { a: 20, b: 1 }];
    put_berries_in_cells(&mut cells, &mut players, &mut collected, &events);
    assert_eq!(collected.yellow_berries, 0);
    assert!(!cells[0].filled);
    assert!(players[0].has_berry);
    // A filled cell accepts nothing either.
    let mut filled = vec![BerryCell { id: 21, team: Team::Yellow, filled: true, column: 0, row: 0 }];
    let events2 = vec![CollisionEvent::Started { a: 21, b: 1 }];
    put_berries_in_cells(&mut filled, &mut players, &mut collected, &events2);
    assert_eq!(collected.yellow_berries, 0);
    assert!(players[0].has_berry);
}

#[test]
fn deposited_berry_is_gone_for_good() {
    // Grab then deposit: the berry leaves the world on the grab and is
    // consumed by the deposit — nothing re-enters the berry roster.
    let mut berries = vec![Berry { id: 10, x: 5, y: 5 }];
    let mut players = vec![worker(1, Team::Yellow, 0, 0)];
    grab_berries(&mut berries, &mut players, &vec![CollisionEvent::Started { a: 10, b: 1 }]);
    assert_eq!(berries.len(), 0);
    let mut cells = vec![cell(20, Team::Yellow)];
    let mut collected = BerriesCollected::new();
    put_berries_in_cells(&mut cells, &mut players, &mut collected, &vec![CollisionEvent::Started {
        a: 20,
        b: 1,
    }]);
    assert_eq!(berries.len(), 0);
    assert!(!players[0].has_berry);
    assert_eq!(collected.yellow_berries, 1);
}

#[test]
fn win_fires_exactly_at_threshold() {
    let mut settings = GameSettings::default();
    let changed = settings.set_berries_to_win(3);
    assert!(changed.is_some());
    let below = BerriesCollected { yellow_berries: 2, purple_berries: 0 };
    assert_eq!(check_for_berry_win(&below, &settings).len(), 0);
    let at = BerriesCollected { yellow_berries: 3, purple_berries: 0 };
    let wins = check_for_berry_win(&at, &settings);
    assert_eq!(wins.len(), 1);
    assert_eq!(wins[0].team, Team::Yellow);
    assert_eq!(wins[0].win_condition, WinCondition::Economic);
}

#[test]
fn nth_deposit_triggers_the_win_that_tick() {
    // berries_to_win = 2: after the first deposit no win, after the
    // second exactly one win event for the team, that same tick.
    let mut settings = GameSettings::default();
    settings.set_berries_to_win(2);
    let mut cells = vec![cell(20, Team::Yellow), cell(21, Team::Yellow)];
    let mut collected = BerriesCollected::new();
    let mut carrier = worker(1, Team::Yellow, 0, 0);
    carrier.has_berry = true;
    let mut players = vec![carrier];
    put_berries_in_cells(&mut cells, &mut players, &mut collected, &vec![CollisionEvent::Started {
        a: 20,
        b: 1,
    }]);
    assert_eq!(check_for_berry_win(&collected, &settings).len(), 0);
    players[0].has_berry = true;
    put_berries_in_cells(&mut cells, &mut players, &mut collected, &vec![CollisionEvent::Started {
        a: 21,
        b: 1,
    }]);
    assert_eq!(collected.yellow_berries, 2);
    let wins = check_for_berry_win(&collected, &settings);
    assert_eq!(wins.len(), 1);
    assert_eq!(wins[0].team, Team::Yellow);
}

#[test]
fn layout_rebuild_resets_economy() {
    let settings = GameSettings::default();
    let mut collected = BerriesCollected { yellow_berries: 4, purple_berries: 2 };
    let mut berries = vec![Berry { id: 1, x: 0, y: 0 }];
    let mut cells = vec![BerryCell { id: 2, team: Team::Yellow, filled: true, column: 0, row: 0 }];
    let mut next_id: u64 = 100;
    let positions = vec![(-300i64, -400i64), (300i64, -400i64)];
    handle_respawn_berries_event(
        &mut collected,
        &mut berries,
        &mut cells,
        &settings,
        &positions,
        &mut next_id,
    );
    assert_eq!(collected.yellow_berries, 0);
    assert_eq!(collected.purple_berries, 0);
    assert_eq!(berries.len(), 2);
    assert_eq!(berries[0], Berry { id: 100, x: -300, y: -400 });
    assert_eq!(berries[1], Berry { id: 101, x: 300, y: -400 });
    // Six cells per team, three rows per column, top to bottom.
    assert_eq!(cells.len(), 12);
    for k in 0..6usize {
        assert_eq!(cells[k].team, Team::Yellow);
        assert_eq!(cells[6 + k].team, Team::Purple);
        assert!(!cells[k].filled);
        assert_eq!(cells[k].column, -2 + (k as i64) / 3);
        assert_eq!(cells[k].row, 2 - (k as i64) % 3);
    }
    assert_eq!(cells[0].id, 102);
    assert_eq!(cells[11].id, 113);
    assert_eq!(next_id, 114);
}
