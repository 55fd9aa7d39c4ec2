use hive_rules::GameState;
use hive_rules::NextGameTimer;
use hive_rules::Team;
use hive_rules::WinCondition;
use hive_rules::WinEvent;
use hive_rules::berries::Berry;
use hive_rules::gates::Gate;
use hive_rules::handle_win_events;
use hive_rules::join::JoinedGamepads;
use hive_rules::join::check_for_start_game;
use hive_rules::join::delete_join_gates;
use hive_rules::join::disconnect;
use hive_rules::join::join;
use hive_rules::join::remove_player;
use hive_rules::player::Direction;
use hive_rules::player::Player;
use hive_rules::player::Role;
use hive_rules::ship::RidingOnShip;
use hive_rules::ship::Ship;
use hive_rules::start_next_game;

fn player(id: u64, team: Team, role: Role) -> Player {
    Player {
        id,
        gamepad: id,
        team,
        role,
        x: 0,
        y: 0,
        width: 40,
        height: 40,
        facing: Direction::Right,
        on_ground: true,
        has_berry: false,
        diving: false,
        visible: true,
        invincible: None,
        gate_timer: None,
        riding_on_ship: None,
    }
}

#[test]
fn first_join_of_a_team_is_the_queen() {
    let mut joined = JoinedGamepads::new();
    let players: Vec<Player> = Vec::new();
    let ev = join(&mut joined, 3, Team::Yellow, &players).unwrap();
    assert!(ev.is_queen);
    assert_eq!(ev.team, Team::Yellow);
    assert_eq!(ev.gamepad, 3);
    assert_eq!(ev.delay_ms, 0);
    assert!(!ev.start_invincible);
    // With a live Yellow queen the next Yellow join is a worker; the
    // first Purple join is still a queen.
    let roster = vec![player(1, Team::Yellow, Role::Queen)];
    let ev2 = join(&mut joined, 4, Team::Yellow, &roster).unwrap();
    assert!(!ev2.is_queen);
    let ev3 = join(&mut joined, 5, Team::Purple, &roster).unwrap();
    assert!(ev3.is_queen);
}

#[test]
fn joining_twice_is_rejected() {
    let mut joined = JoinedGamepads::new();
    let players: Vec<Player> = Vec::new();
    assert!(join(&mut joined, 3, Team::Yellow, &players).is_some());
    assert!(join(&mut joined, 3, Team::Purple, &players).is_none());
    assert_eq!(joined.0.len(), 1);
}

#[test]
fn removed_player_drops_berry_and_frees_ship() {
    let mut carrier = player(1, Team::Yellow, Role::Worker);
    carrier.has_berry = true;
    carrier.x = 44;
    carrier.y = -55;
    carrier.riding_on_ship = Some(RidingOnShip { ship: 90 });
    let mut players = vec![carrier];
    let mut ships = vec![Ship { id: 90, owner: Some(Team::Yellow), x: 0 }];
    let mut next_id: u64 = 7;
    let dropped = remove_player(&mut players, 0, &mut ships, &mut next_id);
    assert_eq!(players.len(), 0);
    assert_eq!(dropped, Some(Berry { id: 7, x: 44, y: -55 }));
    assert_eq!(next_id, 8);
    assert_eq!(ships[0].owner, None);
}

#[test]
fn disconnecting_queen_releases_join_gates() {
    let mut joined = JoinedGamepads::new();
    let none: Vec<Player> = Vec::new();
    join(&mut joined, 1, Team::Yellow, &none);
    join(&mut joined, 2, Team::Purple, &none);
    let mut players = vec![player(1, Team::Yellow, Role::Queen), player(2, Team::Purple, Role::Queen)];
    let mut ships: Vec<Ship> = Vec::new();
    let mut gates = vec![
        Gate { id: 60, owner: Some(Team::Yellow), join_gate: true },
        Gate { id: 61, owner: Some(Team::Purple), join_gate: true },
        Gate { id: 62, owner: Some(Team::Yellow), join_gate: false },
    ];
    let mut next_id: u64 = 10;
    let dropped = disconnect(&mut players, 0, &mut joined, &mut ships, &mut gates, &mut next_id);
    assert_eq!(dropped, None);
    assert_eq!(players.len(), 1);
    assert_eq!(players[0].id, 2);
    assert_eq!(joined.0, vec![2]);
    // Only the Yellow join gate opens again; ordinary gates keep their
    // claim.
    assert_eq!(gates[0].owner, None);
    assert_eq!(gates[1].owner, Some(Team::Purple));
    assert_eq!(gates[2].owner, Some(Team::Yellow));
}

#[test]
fn match_starts_once_every_join_gate_is_claimed() {
    let mut state = GameState::Join;
    let pending = vec![
        Gate { id: 60, owner: Some(Team::Yellow), join_gate: true },
        Gate { id: 61, owner: None, join_gate: true },
    ];
    check_for_start_game(&mut state, &pending);
    assert_eq!(state, GameState::Join);
    let ready = vec![
        Gate { id: 60, owner: Some(Team::Yellow), join_gate: true },
        Gate { id: 61, owner: Some(Team::Purple), join_gate: true },
    ];
    check_for_start_game(&mut state, &ready);
    assert_eq!(state, GameState::Play);
    // Outside the join phase the check does nothing.
    let mut over = GameState::GameOver;
    check_for_start_game(&mut over, &ready);
    assert_eq!(over, GameState::GameOver);
}

#[test]
fn join_gates_leave_when_play_begins() {
    let mut gates = vec![
        Gate { id: 60, owner: Some(Team::Yellow), join_gate: true },
        Gate { id: 62, owner: None, join_gate: false },
        Gate { id: 61, owner: Some(Team::Purple), join_gate: true },
    ];
    delete_join_gates(&mut gates);
    assert_eq!(gates, vec![Gate { id: 62, owner: None, join_gate: false }]);
}

#[test]
fn first_win_event_ends_the_match() {
    let mut state = GameState::Play;
    let mut timers: Vec<NextGameTimer> = Vec::new();
    let events = vec![
        WinEvent { team: Team::Purple, win_condition: WinCondition::Military },
        WinEvent { team: Team::Yellow, win_condition: WinCondition::Economic },
    ];
    let taken = handle_win_events(&mut state, &mut timers, &events);
    assert_eq!(state, GameState::GameOver);
    assert_eq!(taken, Some(events[0]));
    assert_eq!(timers.len(), 1);
    // Outside play, win events are ignored.
    let mut joining = GameState::Join;
    let mut timers2: Vec<NextGameTimer> = Vec::new();
    let ignored = handle_win_events(&mut joining, &mut timers2, &events);
    assert_eq!(joining, GameState::Join);
    assert_eq!(ignored, None);
    assert_eq!(timers2.len(), 0);
}

#[test]
fn next_round_starts_after_the_delay() {
    let mut state = GameState::GameOver;
    let mut timers = vec![NextGameTimer { timer_ms: 3000 }];
    start_next_game(&mut timers, &mut state, 1000);
    assert_eq!(state, GameState::GameOver);
    assert_eq!(timers, vec![NextGameTimer { timer_ms: 2000 }]);
    start_next_game(&mut timers, &mut state, 2000);
    assert_eq!(state, GameState::Join);
    assert_eq!(timers.len(), 0);
}
