//! Berries, berry cells, and the economy that feeds the economic win.

use vstd::prelude::*;

use crate::CollisionEvent;
use crate::Team;
use crate::WinCondition;
use crate::WinEvent;
use crate::combat::find_player;
use crate::combat::player_ids;
use crate::ids::first_index_of;
use crate::ids::lemma_first_index_of_absent;
use crate::ids::lemma_first_index_of_found;
use crate::player::Player;
use crate::player::Role;
use crate::settings::GameSettings;

verus! {

/// A free berry lying in the arena, grabbable by workers.
#[derive(Clone, Copy, Debug, PartialEq, Eq, Structural)]
pub struct Berry {
    pub id: u64,
    pub x: i64,
    pub y: i64,
}

/// A per-team deposit slot. Cells are laid out in a per-team grid sized
/// to the configured berries-to-win count; a filled cell stops accepting
/// berries.
#[derive(Clone, Copy, Debug, PartialEq, Eq, Structural)]
pub struct BerryCell {
    pub id: u64,
    pub team: Team,
    pub filled: bool,
    /// Grid column, counted outward from the team's side of the top wall.
    pub column: i64,
    /// Grid row, top to bottom.
    pub row: i64,
}

/// Berries deposited by each team; the economic win condition reads these
/// against the configured threshold.
#[derive(Clone, Copy, Debug, PartialEq, Eq, Structural)]
pub struct BerriesCollected {
    pub yellow_berries: u32,
    pub purple_berries: u32,
}

impl BerriesCollected {
    /// Berries deposited by `team`.
    pub open spec fn spec_collected_by(self, team: Team) -> u32 {
        match team {
            Team::Yellow => self.yellow_berries,
            Team::Purple => self.purple_berries,
        }
    }

    pub fn new() -> (r: BerriesCollected)
        ensures
            r.yellow_berries == 0,
            r.purple_berries == 0,
    {
        BerriesCollected { yellow_berries: 0, purple_berries: 0 }
    }

    pub fn collected_by(&self, team: Team) -> (r: u32)
        ensures
            r == self.spec_collected_by(team),
    {
        match team {
            Team::Yellow => self.yellow_berries,
            Team::Purple => self.purple_berries,
        }
    }
}

/// Requests a fresh berry and cell layout; sent at round setup and when
/// the berries-to-win setting changes.
#[derive(Clone, Copy, Debug, PartialEq, Eq, Structural)]
pub struct RespawnBerriesEvent {}

/// The entity identifiers of the free berries, in order.
pub open spec fn berry_ids(berries: Seq<Berry>) -> Seq<u64> {
    berries.map_values(|b: Berry| b.id)
}

/// The entity identifiers of the berry cells, in order.
pub open spec fn cell_ids(cells: Seq<BerryCell>) -> Seq<u64> {
    cells.map_values(|c: BerryCell| c.id)
}

/// The player with its held-berry flag replaced.
pub open spec fn with_berry(p: Player, has_berry: bool) -> Player {
    Player { has_berry, ..p }
}

/// One orientation of a grab: when `berry_id` is a free berry and
/// `player_id` a worker not yet holding one, the berry leaves the world
/// and the worker now holds a berry. Queens cannot grab.
pub open spec fn grab_orient(
    berries: Seq<Berry>,
    players: Seq<Player>,
    berry_id: u64,
    player_id: u64,
) -> (Seq<Berry>, Seq<Player>) {
    let bi = first_index_of(berry_ids(berries), berry_id);
    let pi = first_index_of(player_ids(players), player_id);
    if bi >= 0 && pi >= 0 && players[pi].role is Worker && !players[pi].has_berry {
        (berries.remove(bi), players.update(pi, with_berry(players[pi], true)))
    } else {
        (berries, players)
    }
}

/// One collision event's effect on grabbing: both orientations of the
/// pair are tried, so whichever side is the berry is found. Because the
/// berry leaves the world and the worker's flag flips at once, a repeated
/// ordering of the same pair finds nothing left to grab.
pub open spec fn grab_step(berries: Seq<Berry>, players: Seq<Player>, ev: CollisionEvent) -> (
    Seq<Berry>,
    Seq<Player>,
) {
    match ev {
        CollisionEvent::Stopped { .. } => (berries, players),
        CollisionEvent::Started { a, b } => {
            let (berries1, players1) = grab_orient(berries, players, a, b);
            grab_orient(berries1, players1, b, a)
        },
    }
}

/// The berries and players after this tick's grab events, in order.
pub open spec fn grab_run(berries: Seq<Berry>, players: Seq<Player>, events: Seq<CollisionEvent>) -> (
    Seq<Berry>,
    Seq<Player>,
)
    decreases events.len(),
{
    if events.len() == 0 {
        (berries, players)
    } else {
        let (berries1, players1) = grab_run(berries, players, events.drop_last());
        grab_step(berries1, players1, events.last())
    }
}

/// Index of the first free berry with entity `id`, if any.
fn find_berry(berries: &Vec<Berry>, id: u64) -> (r: Option<usize>)
    ensures
        match r {
            Option::Some(i) => i < berries@.len() && berries@[i as int].id == id && first_index_of(
                berry_ids(berries@),
                id,
            ) == i as int,
            Option::None => first_index_of(berry_ids(berries@), id) == -1,
        },
{
    let mut i: usize = 0;
    while i < berries.len()
        invariant
            0 <= i <= berries@.len(),
            forall|j: int| 0 <= j < i ==> berries@[j].id != id,
        decreases berries@.len() - i,
    {
        if berries[i].id == id {
            proof {
                lemma_first_index_of_found(berry_ids(berries@), id, i as int);
            }
            return Some(i);
        }
        i = i + 1;
    }
    proof {
        lemma_first_index_of_absent(berry_ids(berries@), id);
    }
    None
}

/// Index of the first berry cell with entity `id`, if any.
fn find_cell(cells: &Vec<BerryCell>, id: u64) -> (r: Option<usize>)
    ensures
        match r {
            Option::Some(i) => i < cells@.len() && cells@[i as int].id == id && first_index_of(
                cell_ids(cells@),
                id,
            ) == i as int,
            Option::None => first_index_of(cell_ids(cells@), id) == -1,
        },
{
    let mut i: usize = 0;
    while i < cells.len()
        invariant
            0 <= i <= cells@.len(),
            forall|j: int| 0 <= j < i ==> cells@[j].id != id,
        decreases cells@.len() - i,
    {
        if cells[i].id == id {
            proof {
                lemma_first_index_of_found(cell_ids(cells@), id, i as int);
            }
            return Some(i);
        }
        i = i + 1;
    }
    proof {
        lemma_first_index_of_absent(cell_ids(cells@), id);
    }
    None
}

/// Applies one grab orientation; shared by both orderings of an event.
fn grab_one(berries: &mut Vec<Berry>, players: &mut Vec<Player>, berry_id: u64, player_id: u64)
    ensures
        (final(berries)@, final(players)@) == grab_orient(old(berries)@, old(players)@, berry_id, player_id),
{
    let ob = find_berry(berries, berry_id);
    let op = find_player(players, player_id);
    if let (Some(bi), Some(pi)) = (ob, op) {
        let p = players[pi];
        let eligible = match p.role {
            Role::Worker => !p.has_berry,
            Role::Queen => false,
        };
        if eligible {
            players[pi].has_berry = true;
            berries.remove(bi);
        }
    }
}

/// Resolves this tick's berry grabs: a free berry touching a worker who
/// does not already hold one is despawned and the worker now carries it.
/// Both orderings of each collision pair are tried, and each grab takes
/// effect at once, so no berry is grabbed twice and no worker grabs two.
pub fn grab_berries(berries: &mut Vec<Berry>, players: &mut Vec<Player>, events: &Vec<CollisionEvent>)
    ensures
        (final(berries)@, final(players)@) == grab_run(old(berries)@, old(players)@, events@),
{
    let ghost berries0 = berries@;
    let ghost players0 = players@;
    let mut i: usize = 0;
    while i < events.len()
        invariant
            0 <= i <= events@.len(),
            (berries@, players@) == grab_run(berries0, players0, events@.take(i as int)),
        decreases events@.len() - i,
    {
        proof {
            assert(events@.take(i + 1).drop_last() =~= events@.take(i as int));
            assert(events@.take(i + 1).last() == events@[i as int]);
        }
        let ev = events[i];
        if let CollisionEvent::Started { a, b } = ev {
            grab_one(berries, players, a, b);
            grab_one(berries, players, b, a);
        }
        i = i + 1;
    }
    proof {
        assert(events@.take(events@.len() as int) =~= events@);
    }
}

/// The cell with its filled flag set.
pub open spec fn filled_cell(c: BerryCell) -> BerryCell {
    BerryCell { filled: true, ..c }
}

/// The deposit counters after `team` banked one more berry.
pub open spec fn bump_collected(collected: BerriesCollected, team: Team) -> BerriesCollected {
    match team {
        Team::Yellow => BerriesCollected {
            yellow_berries: (collected.yellow_berries + 1) as u32,
            ..collected
        },
        Team::Purple => BerriesCollected {
            purple_berries: (collected.purple_berries + 1) as u32,
            ..collected
        },
    }
}

/// One orientation of a deposit: when `cell_id` is an empty cell,
/// `player_id` a berry-carrying worker, and the teams match, the cell
/// fills, the held berry is consumed, and the team's counter steps up.
pub open spec fn deposit_orient(
    cells: Seq<BerryCell>,
    players: Seq<Player>,
    collected: BerriesCollected,
    cell_id: u64,
    player_id: u64,
) -> (Seq<BerryCell>, Seq<Player>, BerriesCollected) {
    let ci = first_index_of(cell_ids(cells), cell_id);
    let pi = first_index_of(player_ids(players), player_id);
    if ci >= 0 && !cells[ci].filled && pi >= 0 && players[pi].has_berry && players[pi].role is Worker
        && cells[ci].team == players[pi].team {
        (
            cells.update(ci, filled_cell(cells[ci])),
            players.update(pi, with_berry(players[pi], false)),
            bump_collected(collected, players[pi].team),
        )
    } else {
        (cells, players, collected)
    }
}

/// One collision event's effect on deposits: both orientations of the
/// pair are tried. A deposit fills the cell and consumes the held berry
/// at once, so a repeated ordering of the same pair deposits nothing.
pub open spec fn deposit_step(
    cells: Seq<BerryCell>,
    players: Seq<Player>,
    collected: BerriesCollected,
    ev: CollisionEvent,
) -> (Seq<BerryCell>, Seq<Player>, BerriesCollected) {
    match ev {
        CollisionEvent::Stopped { .. } => (cells, players, collected),
        CollisionEvent::Started { a, b } => {
            let (cells1, players1, collected1) = deposit_orient(cells, players, collected, a, b);
            deposit_orient(cells1, players1, collected1, b, a)
        },
    }
}

/// The cells, players and counters after this tick's deposit events, in
/// order.
pub open spec fn deposit_run(
    cells: Seq<BerryCell>,
    players: Seq<Player>,
    collected: BerriesCollected,
    events: Seq<CollisionEvent>,
) -> (Seq<BerryCell>, Seq<Player>, BerriesCollected)
    decreases events.len(),
{
    if events.len() == 0 {
        (cells, players, collected)
    } else {
        let (cells1, players1, collected1) = deposit_run(cells, players, collected, events.drop_last());
        deposit_step(cells1, players1, collected1, events.last())
    }
}

/// Applies one deposit orientation; shared by both orderings of an event.
fn deposit_one(
    cells: &mut Vec<BerryCell>,
    players: &mut Vec<Player>,
    collected: &mut BerriesCollected,
    cell_id: u64,
    player_id: u64,
)
    requires
        old(collected).yellow_berries < u32::MAX,
        old(collected).purple_berries < u32::MAX,
    ensures
        (final(cells)@, final(players)@, *final(collected)) == deposit_orient(
            old(cells)@,
            old(players)@,
            *old(collected),
            cell_id,
            player_id,
        ),
        final(collected).yellow_berries <= old(collected).yellow_berries + 1,
        final(collected).purple_berries <= old(collected).purple_berries + 1,
{
    let oc = find_cell(cells, cell_id);
    let op = find_player(players, player_id);
    if let (Some(ci), Some(pi)) = (oc, op) {
        let c = cells[ci];
        let p = players[pi];
        let eligible = !c.filled && p.has_berry && (match p.role {
            Role::Worker => true,
            Role::Queen => false,
        }) && c.team == p.team;
        if eligible {
            cells[ci].filled = true;
            players[pi].has_berry = false;
            match p.team {
                Team::Yellow => {
                    collected.yellow_berries = collected.yellow_berries + 1;
                },
                Team::Purple => {
                    collected.purple_berries = collected.purple_berries + 1;
                },
            }
        }
    }
}

/// Resolves this tick's deposits: a berry-carrying worker touching an
/// empty cell of its own team fills the cell, loses the held berry, and
/// steps the team's counter up by one. Both orderings of each collision
/// pair are tried; because the cell fills at once, a pair appearing in
/// both orderings deposits exactly once.
pub fn put_berries_in_cells(
    cells: &mut Vec<BerryCell>,
    players: &mut Vec<Player>,
    berries_collected: &mut BerriesCollected,
    events: &Vec<CollisionEvent>,
)
    requires
        old(berries_collected).yellow_berries + 2 * events@.len() <= u32::MAX,
        old(berries_collected).purple_berries + 2 * events@.len() <= u32::MAX,
    ensures
        (final(cells)@, final(players)@, *final(berries_collected)) == deposit_run(
            old(cells)@,
            old(players)@,
            *old(berries_collected),
            events@,
        ),
{
    let ghost cells0 = cells@;
    let ghost players0 = players@;
    let ghost collected0 = *berries_collected;
    let mut i: usize = 0;
    while i < events.len()
        invariant
            0 <= i <= events@.len(),
            collected0.yellow_berries + 2 * events@.len() <= u32::MAX,
            collected0.purple_berries + 2 * events@.len() <= u32::MAX,
            berries_collected.yellow_berries <= collected0.yellow_berries + 2 * i,
            berries_collected.purple_berries <= collected0.purple_berries + 2 * i,
            (cells@, players@, *berries_collected) == deposit_run(
                cells0,
                players0,
                collected0,
                events@.take(i as int),
            ),
        decreases events@.len() - i,
    {
        proof {
            assert(events@.take(i + 1).drop_last() =~= events@.take(i as int));
            assert(events@.take(i + 1).last() == events@[i as int]);
        }
        let ev = events[i];
        if let CollisionEvent::Started { a, b } = ev {
            deposit_one(cells, players, berries_collected, a, b);
            deposit_one(cells, players, berries_collected, b, a);
        }
        i = i + 1;
    }
    proof {
        assert(events@.take(events@.len() as int) =~= events@);
    }
}

/// The economic win events owed for the current counters: a team wins
/// when it has deposited at least `berries_to_win` berries. Both events
/// appear when both teams are at the threshold.
pub open spec fn berry_wins(collected: BerriesCollected, berries_to_win: u32) -> Seq<WinEvent> {
    let base: Seq<WinEvent> = Seq::empty();
    let after_yellow: Seq<WinEvent> = if collected.yellow_berries >= berries_to_win {
        base.push(WinEvent { team: Team::Yellow, win_condition: WinCondition::Economic })
    } else {
        base
    };
    if collected.purple_berries >= berries_to_win {
        after_yellow.push(WinEvent { team: Team::Purple, win_condition: WinCondition::Economic })
    } else {
        after_yellow
    }
}

/// Emits the economic win events for the current counters.
pub fn check_for_berry_win(berries_collected: &BerriesCollected, settings: &GameSettings) -> (r: Vec<
    WinEvent,
>)
    ensures
        r@ == berry_wins(*berries_collected, settings.berries_to_win),
{
    let mut r: Vec<WinEvent> = Vec::new();
    if berries_collected.yellow_berries >= settings.berries_to_win {
        r.push(WinEvent { team: Team::Yellow, win_condition: WinCondition::Economic });
    }
    if berries_collected.purple_berries >= settings.berries_to_win {
        r.push(WinEvent { team: Team::Purple, win_condition: WinCondition::Economic });
    }
    proof {
        assert(r@ =~= berry_wins(*berries_collected, settings.berries_to_win));
    }
    r
}

/// The `k`-th cell of a team's layout: three rows per column, filled top
/// to bottom, columns growing outward from two columns inside the team's
/// side.
pub open spec fn cell_at(team: Team, k: int, id: u64) -> BerryCell {
    BerryCell { id, team, filled: false, column: (-2 + k / 3) as i64, row: (2 - k % 3) as i64 }
}

/// Rebuilds the berry and cell layout: counters reset, every free berry
/// and cell removed, a fresh berry spawned at each given bunch position,
/// and each team given `berries_to_win` empty cells in its grid. Held
/// berries are untouched. New entities take consecutive fresh
/// identifiers: first the berries, then Yellow's cells, then Purple's.
pub fn handle_respawn_berries_event(
    berries_collected: &mut BerriesCollected,
    berries: &mut Vec<Berry>,
    cells: &mut Vec<BerryCell>,
    settings: &GameSettings,
    bunch_positions: &Vec<(i64, i64)>,
    next_id: &mut u64,
)
    requires
        *old(next_id) + bunch_positions@.len() + 2 * settings.berries_to_win <= u64::MAX,
    ensures
        final(berries_collected).yellow_berries == 0,
        final(berries_collected).purple_berries == 0,
        final(berries)@.len() == bunch_positions@.len(),
        forall|i: int| 0 <= i < bunch_positions@.len() ==> final(berries)@[i] == (Berry {
            id: (*old(next_id) + i) as u64,
            x: bunch_positions@[i].0,
            y: bunch_positions@[i].1,
        }),
        final(cells)@.len() == 2 * settings.berries_to_win,
        forall|k: int| 0 <= k < settings.berries_to_win ==> final(cells)@[k] == cell_at(
            Team::Yellow,
            k,
            (*old(next_id) + bunch_positions@.len() + k) as u64,
        ),
        forall|k: int| settings.berries_to_win <= k < 2 * settings.berries_to_win ==> #[trigger] final(cells)@[k] == cell_at(
            Team::Purple,
            k - settings.berries_to_win,
            (*old(next_id) + bunch_positions@.len() + k) as u64,
        ),
        *final(next_id) == *old(next_id) + bunch_positions@.len() + 2 * settings.berries_to_win,
{
    let ghost next0 = *next_id;
    let ghost positions = bunch_positions@;
    berries_collected.yellow_berries = 0;
    berries_collected.purple_berries = 0;
    berries.clear();
    cells.clear();
    let mut i: usize = 0;
    while i < bunch_positions.len()
        invariant
            0 <= i <= positions.len(),
            bunch_positions@ == positions,
            next0 + positions.len() + 2 * settings.berries_to_win <= u64::MAX,
            *next_id == next0 + i,
            berries@.len() == i,
            forall|j: int| 0 <= j < i ==> berries@[j] == (Berry {
                id: (next0 + j) as u64,
                x: positions[j].0,
                y: positions[j].1,
            }),
        decreases positions.len() - i,
    {
        let (x, y) = bunch_positions[i];
        berries.push(Berry { id: *next_id, x, y });
        *next_id = *next_id + 1;
        i = i + 1;
    }
    let ghost cells_base = *next_id as int;
    let mut k: u32 = 0;
    while k < settings.berries_to_win
        invariant
            0 <= k <= settings.berries_to_win,
            cells_base == next0 + positions.len(),
            next0 + positions.len() + 2 * settings.berries_to_win <= u64::MAX,
            *next_id == cells_base + k,
            cells@.len() == k,
            forall|j: int| 0 <= j < k ==> cells@[j] == cell_at(Team::Yellow, j, (cells_base + j) as u64),
        decreases settings.berries_to_win - k,
    {
        cells.push(
            BerryCell {
                id: *next_id,
                team: Team::Yellow,
                filled: false,
                column: -2 + (k / 3) as i64,
                row: 2 - (k % 3) as i64,
            },
        );
        *next_id = *next_id + 1;
        k = k + 1;
    }
    let ghost purple_base = *next_id as int;
    let mut k2: u32 = 0;
    while k2 < settings.berries_to_win
        invariant
            0 <= k2 <= settings.berries_to_win,
            cells_base == next0 + positions.len(),
            purple_base == cells_base + settings.berries_to_win,
            next0 + positions.len() + 2 * settings.berries_to_win <= u64::MAX,
            *next_id == purple_base + k2,
            cells@.len() == settings.berries_to_win + k2,
            forall|j: int| 0 <= j < settings.berries_to_win ==> cells@[j] == cell_at(
                Team::Yellow,
                j,
                (cells_base + j) as u64,
            ),
            forall|j: int| settings.berries_to_win <= j < settings.berries_to_win + k2 ==> #[trigger] cells@[j]
                == cell_at(
                Team::Purple,
                j - settings.berries_to_win,
                (cells_base + j) as u64,
            ),
        decreases settings.berries_to_win - k2,
    {
        cells.push(
            BerryCell {
                id: *next_id,
                team: Team::Purple,
                filled: false,
                column: -2 + (k2 / 3) as i64,
                row: 2 - (k2 % 3) as i64,
            },
        );
        *next_id = *next_id + 1;
        k2 = k2 + 1;
    }
}

/// Deposit idempotence: when both orderings of the same cell/player pair
/// appear in one tick's event stream, the berry is deposited and counted
/// exactly once — the second event finds the cell already filled and the
/// berry already consumed. (Cells and players never share an entity
/// identifier.)
pub proof fn lemma_deposit_idempotent(
    cells: Seq<BerryCell>,
    players: Seq<Player>,
    collected: BerriesCollected,
    a: u64,
    b: u64,
)
    requires
        forall|i: int, j: int| 0 <= i < cells.len() && 0 <= j < players.len() ==> cells[i].id != players[j].id,
    ensures
        deposit_run(
            cells,
            players,
            collected,
            seq![CollisionEvent::Started { a, b }, CollisionEvent::Started { b, a }],
        ) == deposit_run(cells, players, collected, seq![CollisionEvent::Started { a, b }]),
{
    let evs2 = seq![CollisionEvent::Started { a, b }, CollisionEvent::Started { b, a }];
    let evs1 = seq![CollisionEvent::Started { a, b }];
    assert(evs2.drop_last() =~= evs1);
    assert(evs1.drop_last() =~= Seq::<CollisionEvent>::empty());
    assert(evs2.last() == CollisionEvent::Started { b, a });
    assert(evs1.last() == CollisionEvent::Started { a, b });
    assert(deposit_run(cells, players, collected, Seq::<CollisionEvent>::empty()) == (
        cells,
        players,
        collected,
    ));
    assert(deposit_run(cells, players, collected, evs1) == deposit_step(
        cells,
        players,
        collected,
        CollisionEvent::Started { a, b },
    ));
    let (cells1, players1, collected1) = deposit_step(cells, players, collected, CollisionEvent::Started { a, b });
    lemma_deposit_unordered_pair_once(cells, players, collected, a, b);
    assert(deposit_step(cells1, players1, collected1, CollisionEvent::Started { b, a }) == (
        cells1,
        players1,
        collected1,
    ));
}

/// After one event of a pair is processed, the reversed ordering of the
/// same pair deposits nothing more.
proof fn lemma_deposit_unordered_pair_once(
    cells: Seq<BerryCell>,
    players: Seq<Player>,
    collected: BerriesCollected,
    a: u64,
    b: u64,
)
    requires
        forall|i: int, j: int| 0 <= i < cells.len() && 0 <= j < players.len() ==> cells[i].id != players[j].id,
    ensures
        ({
            let (cells1, players1, collected1) = deposit_step(
                cells,
                players,
                collected,
                CollisionEvent::Started { a, b },
            );
            deposit_step(cells1, players1, collected1, CollisionEvent::Started { b, a }) == (
                cells1,
                players1,
                collected1,
            )
        }),
{
    let ci_a = first_index_of(cell_ids(cells), a);
    let pi_b = first_index_of(player_ids(players), b);
    let ci_b = first_index_of(cell_ids(cells), b);
    let pi_a = first_index_of(player_ids(players), a);
    crate::ids::lemma_first_index_of_props(cell_ids(cells), a);
    crate::ids::lemma_first_index_of_props(player_ids(players), b);
    crate::ids::lemma_first_index_of_props(cell_ids(cells), b);
    crate::ids::lemma_first_index_of_props(player_ids(players), a);
    lemma_deposit_orient_preserves_ids(cells, players, collected, a, b);
    let (cells1, players1, collected1) = deposit_orient(cells, players, collected, a, b);
    if ci_a >= 0 && !cells[ci_a].filled && pi_b >= 0 && players[pi_b].has_berry && players[pi_b].role
        is Worker && cells[ci_a].team == players[pi_b].team {
        // The forward orientation fired: the cell filled and the berry
        // was consumed, so the pair has nothing more to give. `b` is a
        // player, hence (identifiers being disjoint) no cell.
        assert(cells1[ci_a].filled);
        assert forall|j: int| 0 <= j < cell_ids(cells1).len() implies cell_ids(cells1)[j] != b by {
            assert(cell_ids(cells1)[j] == cell_ids(cells)[j]);
            assert(cell_ids(cells)[j] == cells[j].id);
            assert(players[pi_b].id == b);
        }
        lemma_first_index_of_absent(cell_ids(cells1), b);
        // So orienting (b, a) on the new state finds no cell, and
        // orienting (a, b) again finds the cell filled.
        assert(deposit_orient(cells1, players1, collected1, b, a) == (cells1, players1, collected1));
    } else {
        // The forward orientation was a no-op.
        assert(cells1 == cells && players1 == players && collected1 == collected);
        lemma_deposit_orient_preserves_ids(cells, players, collected, b, a);
        let (cells2, players2, collected2) = deposit_orient(cells, players, collected, b, a);
        if ci_b >= 0 && !cells[ci_b].filled && pi_a >= 0 && players[pi_a].has_berry && players[pi_a].role
            is Worker && cells[ci_b].team == players[pi_a].team {
            // The reversed orientation fired instead; afterwards the
            // cell `b` is filled and `a` (a player) is no cell.
            assert(cells2[ci_b].filled);
            assert forall|j: int| 0 <= j < cell_ids(cells2).len() implies cell_ids(cells2)[j] != a by {
                assert(cell_ids(cells2)[j] == cell_ids(cells)[j]);
                assert(cell_ids(cells)[j] == cells[j].id);
                assert(players[pi_a].id == a);
            }
            lemma_first_index_of_absent(cell_ids(cells2), a);
            assert(deposit_orient(cells2, players2, collected2, b, a) == (
                cells2,
                players2,
                collected2,
            ));
            assert(deposit_orient(cells2, players2, collected2, a, b) == (
                cells2,
                players2,
                collected2,
            ));
        } else {
            // Neither orientation fires on this state, in any order.
            assert(cells2 == cells && players2 == players && collected2 == collected);
        }
    }
}

/// A deposit orientation changes no entity identifier: the cell and
/// player rosters keep their identifier sequences.
proof fn lemma_deposit_orient_preserves_ids(
    cells: Seq<BerryCell>,
    players: Seq<Player>,
    collected: BerriesCollected,
    cell_id: u64,
    player_id: u64,
)
    ensures
        ({
            let (cells1, players1, collected1) = deposit_orient(cells, players, collected, cell_id, player_id);
            cell_ids(cells1) == cell_ids(cells) && player_ids(players1) == player_ids(players)
                && cells1.len() == cells.len() && players1.len() == players.len()
        }),
{
    crate::ids::lemma_first_index_of_props(cell_ids(cells), cell_id);
    crate::ids::lemma_first_index_of_props(player_ids(players), player_id);
    let (cells1, players1, collected1) = deposit_orient(cells, players, collected, cell_id, player_id);
    assert forall|j: int| 0 <= j < cells.len() implies cell_ids(cells1)[j] == cell_ids(cells)[j] by {
        assert(cells1[j].id == cells[j].id);
    }
    assert forall|j: int| 0 <= j < players.len() implies player_ids(players1)[j] == player_ids(players)[j] by {
        assert(players1[j].id == players[j].id);
    }
    assert(cell_ids(cells1) =~= cell_ids(cells));
    assert(player_ids(players1) =~= player_ids(players));
}

/// Round trip of berry possession, deposit half: a successful deposit
/// consumes the held berry — the worker carries nothing afterwards, the
/// cell is filled, and the team's counter steps up by exactly one. No
/// free berry is created anywhere: depositing touches no berry roster.
pub proof fn lemma_deposit_consumes_held_berry(
    cells: Seq<BerryCell>,
    players: Seq<Player>,
    collected: BerriesCollected,
    cell_id: u64,
    player_id: u64,
)
    requires
        ({
            let ci = first_index_of(cell_ids(cells), cell_id);
            let pi = first_index_of(player_ids(players), player_id);
            &&& ci >= 0
            &&& !cells[ci].filled
            &&& pi >= 0
            &&& players[pi].has_berry
            &&& players[pi].role is Worker
            &&& cells[ci].team == players[pi].team
        }),
    ensures
        ({
            let ci = first_index_of(cell_ids(cells), cell_id);
            let pi = first_index_of(player_ids(players), player_id);
            let (cells1, players1, collected1) = deposit_orient(cells, players, collected, cell_id, player_id);
            &&& players1.len() == players.len()
            &&& !players1[pi].has_berry
            &&& cells1[ci].filled
            &&& collected1 == bump_collected(collected, players[pi].team)
        }),
{
    crate::ids::lemma_first_index_of_props(cell_ids(cells), cell_id);
    crate::ids::lemma_first_index_of_props(player_ids(players), player_id);
}

/// Win threshold boundary: with `berries_to_win` set to `n`, a team's
/// counter at `n` or above yields exactly one economic win event for that
/// team, and a counter below `n` yields none.
pub proof fn lemma_berry_win_threshold(collected: BerriesCollected, n: u32)
    ensures
        collected.yellow_berries >= n && collected.purple_berries >= n ==> berry_wins(collected, n) =~= seq![
            (WinEvent { team: Team::Yellow, win_condition: WinCondition::Economic }),
            (WinEvent { team: Team::Purple, win_condition: WinCondition::Economic }),
        ],
        collected.yellow_berries >= n && collected.purple_berries < n ==> berry_wins(collected, n) =~= seq![
            (WinEvent { team: Team::Yellow, win_condition: WinCondition::Economic }),
        ],
        collected.yellow_berries < n && collected.purple_berries >= n ==> berry_wins(collected, n) =~= seq![
            (WinEvent { team: Team::Purple, win_condition: WinCondition::Economic }),
        ],
        collected.yellow_berries < n && collected.purple_berries < n ==> berry_wins(collected, n)
            =~= Seq::<WinEvent>::empty(),
{
}

} // verus!
