//! Join and disconnect lifecycle: one input device owns at most one live
//! player, and leaving releases everything the player held.

use vstd::prelude::*;

use crate::GameState;
use crate::Team;
use crate::berries::Berry;
use crate::combat::find_ship;
use crate::combat::release_ship;
use crate::gates::Gate;
use crate::ids::first_index_of;
use crate::ids::lemma_first_index_of_absent;
use crate::ids::lemma_first_index_of_found;
use crate::player::Player;
use crate::player::Role;
use crate::player::SpawnPlayerEvent;
use crate::ship::Ship;

verus! {

/// The input devices that currently own a live player. A device appears
/// at most once.
#[derive(Clone, Debug, PartialEq, Eq)]
pub struct JoinedGamepads(pub Vec<u64>);

impl JoinedGamepads {
    /// No device is registered twice.
    pub open spec fn wf(self) -> bool {
        forall|i: int, j: int| 0 <= i < j < self.0@.len() ==> self.0@[i] != self.0@[j]
    }

    pub fn new() -> (r: JoinedGamepads)
        ensures
            r.0@.len() == 0,
            r.wf(),
    {
        JoinedGamepads(Vec::new())
    }
}

/// Whether some live player of `team` is a queen.
pub open spec fn team_has_queen(players: Seq<Player>, team: Team) -> bool {
    exists|i: int| 0 <= i < players.len() && players[i].role is Queen && players[i].team == team
}

/// Handles one join request from an input device: rejected when the
/// device already owns a live player; otherwise the device is registered
/// and an immediate spawn is requested — as that team's queen when the
/// team has none yet, as a worker otherwise.
pub fn join(joined: &mut JoinedGamepads, gamepad: u64, team: Team, players: &Vec<Player>) -> (r: Option<
    SpawnPlayerEvent,
>)
    ensures
        old(joined).0@.contains(gamepad) ==> r is None && *final(joined) == *old(joined),
        !old(joined).0@.contains(gamepad) ==> {
            &&& final(joined).0@ == old(joined).0@.push(gamepad)
            &&& r == Some(
                (SpawnPlayerEvent {
                    team,
                    is_queen: !team_has_queen(players@, team),
                    gamepad,
                    delay_ms: 0,
                    start_invincible: false,
                }),
            )
        },
        old(joined).wf() ==> final(joined).wf(),
{
    let mut i: usize = 0;
    while i < joined.0.len()
        invariant
            0 <= i <= joined.0@.len(),
            forall|j: int| 0 <= j < i ==> joined.0@[j] != gamepad,
        decreases joined.0@.len() - i,
    {
        if joined.0[i] == gamepad {
            assert(joined.0@.contains(gamepad));
            return None;
        }
        i = i + 1;
    }
    assert(!joined.0@.contains(gamepad));
    let mut has_queen: bool = false;
    let mut k: usize = 0;
    while k < players.len()
        invariant
            0 <= k <= players@.len(),
            has_queen == exists|j: int| 0 <= j < k && players@[j].role is Queen && players@[j].team
                == team,
        decreases players@.len() - k,
    {
        let p = players[k];
        let is_queen_of_team = match p.role {
            Role::Queen => p.team == team,
            Role::Worker => false,
        };
        if is_queen_of_team {
            has_queen = true;
        }
        k = k + 1;
    }
    joined.0.push(gamepad);
    Some(
        SpawnPlayerEvent {
            team,
            is_queen: !has_queen,
            gamepad,
            delay_ms: 0,
            start_invincible: false,
        },
    )
}

/// The berry a removed player drops, if it carried one: a fresh free
/// berry at the player's last position.
pub open spec fn dropped_berry(p: Player, next_id: u64) -> Option<Berry> {
    if p.has_berry {
        Some(Berry { id: next_id, x: p.x, y: p.y })
    } else {
        None
    }
}

/// Removes the player at roster index `idx` from the world: the entity
/// despawns; a held berry re-enters the world at the player's last
/// position under a fresh identifier; a ship claim the player held is
/// released.
pub fn remove_player(players: &mut Vec<Player>, idx: usize, ships: &mut Vec<Ship>, next_id: &mut u64) -> (r:
    Option<Berry>)
    requires
        idx < old(players)@.len(),
        *old(next_id) < u64::MAX,
    ensures
        final(players)@ == old(players)@.remove(idx as int),
        r == dropped_berry(old(players)@[idx as int], *old(next_id)),
        *final(next_id) == if old(players)@[idx as int].has_berry {
            *old(next_id) + 1
        } else {
            *old(next_id) as int
        },
        final(ships)@ == match old(players)@[idx as int].riding_on_ship {
            Option::None => old(ships)@,
            Option::Some(riding) => release_ship(old(ships)@, riding.ship),
        },
{
    let p = players[idx];
    if let Some(riding) = p.riding_on_ship {
        if let Some(si) = find_ship(ships, riding.ship) {
            ships[si].owner = None;
        }
    }
    let r: Option<Berry> = if p.has_berry {
        let berry = Berry { id: *next_id, x: p.x, y: p.y };
        *next_id = *next_id + 1;
        Some(berry)
    } else {
        None
    };
    players.remove(idx);
    r
}

/// A join gate owned by `team` loses its owner; everything else is kept.
pub open spec fn released_join_gate(g: Gate, team: Team) -> Gate {
    if g.join_gate && g.owner == Some(team) {
        Gate { owner: None, ..g }
    } else {
        g
    }
}

/// The registered devices without the first occurrence of `gamepad`.
pub open spec fn without_gamepad(joined: Seq<u64>, gamepad: u64) -> Seq<u64> {
    let k = first_index_of(joined, gamepad);
    if k < 0 {
        joined
    } else {
        joined.remove(k)
    }
}

/// Handles a disconnect request from the player at roster index `idx`:
/// the input device is released, the player is removed from the world
/// (dropping a held berry and releasing a ship claim), and, when the
/// player was a queen, every join gate her team had claimed is released.
pub fn disconnect(
    players: &mut Vec<Player>,
    idx: usize,
    joined: &mut JoinedGamepads,
    ships: &mut Vec<Ship>,
    gates: &mut Vec<Gate>,
    next_id: &mut u64,
) -> (r: Option<Berry>)
    requires
        idx < old(players)@.len(),
        *old(next_id) < u64::MAX,
    ensures
        final(players)@ == old(players)@.remove(idx as int),
        r == dropped_berry(old(players)@[idx as int], *old(next_id)),
        *final(next_id) == if old(players)@[idx as int].has_berry {
            *old(next_id) + 1
        } else {
            *old(next_id) as int
        },
        final(ships)@ == match old(players)@[idx as int].riding_on_ship {
            Option::None => old(ships)@,
            Option::Some(riding) => release_ship(old(ships)@, riding.ship),
        },
        final(joined).0@ == without_gamepad(old(joined).0@, old(players)@[idx as int].gamepad),
        old(players)@[idx as int].role is Queen ==> final(gates)@ == old(gates)@.map_values(
            |g: Gate| released_join_gate(g, old(players)@[idx as int].team),
        ),
        !(old(players)@[idx as int].role is Queen) ==> final(gates)@ == old(gates)@,
{
    let p = players[idx];
    let ghost joined0 = joined.0@;
    let mut i: usize = 0;
    let mut found: bool = false;
    while i < joined.0.len() && !found
        invariant
            0 <= i <= joined.0@.len(),
            !found ==> joined.0@ == joined0 && forall|j: int| 0 <= j < i ==> joined0[j] != p.gamepad,
            found ==> joined.0@ == without_gamepad(joined0, p.gamepad),
        decreases joined.0@.len() - i,
    {
        if joined.0[i] == p.gamepad {
            proof {
                lemma_first_index_of_found(joined0, p.gamepad, i as int);
            }
            joined.0.remove(i);
            found = true;
        } else {
            i = i + 1;
        }
    }
    proof {
        if !found {
            lemma_first_index_of_absent(joined0, p.gamepad);
        }
    }
    let is_queen = match p.role {
        Role::Queen => true,
        Role::Worker => false,
    };
    if is_queen {
        let ghost gates0 = gates@;
        let mut g: usize = 0;
        while g < gates.len()
            invariant
                0 <= g <= gates0.len(),
                gates@.len() == gates0.len(),
                forall|j: int| g <= j < gates0.len() ==> gates@[j] == gates0[j],
                forall|j: int| 0 <= j < g ==> gates@[j] == released_join_gate(gates0[j], p.team),
            decreases gates0.len() - g,
        {
            let gate = gates[g];
            let owned_by_team = match gate.owner {
                Some(t) => t == p.team,
                None => false,
            };
            if gate.join_gate && owned_by_team {
                gates[g].owner = None;
            }
            g = g + 1;
        }
        proof {
            assert(gates@ =~= gates0.map_values(|gg: Gate| released_join_gate(gg, p.team)));
        }
    }
    remove_player(players, idx, ships, next_id)
}

/// Removes the join gates once the join phase ends; ordinary gates
/// stay. The join gates' platforms and sprites go with them on the
/// engine side.
pub fn delete_join_gates(gates: &mut Vec<Gate>)
    ensures
        final(gates)@ == old(gates)@.filter(|g: Gate| !g.join_gate),
{
    let ghost gates0 = gates@;
    let mut kept: Vec<Gate> = Vec::new();
    let mut i: usize = 0;
    while i < gates.len()
        invariant
            0 <= i <= gates0.len(),
            gates@ == gates0,
            kept@ == gates0.take(i as int).filter(|g: Gate| !g.join_gate),
        decreases gates0.len() - i,
    {
        let g = gates[i];
        proof {
            reveal_with_fuel(Seq::filter, 2);
            assert(gates0.take(i + 1).drop_last() =~= gates0.take(i as int));
            assert(gates0.take(i + 1).last() == gates0[i as int]);
        }
        if !g.join_gate {
            kept.push(g);
        }
        i = i + 1;
    }
    proof {
        assert(gates0.take(gates0.len() as int) =~= gates0);
    }
    *gates = kept;
}

/// Whether every join gate has been claimed by a team.
pub open spec fn all_join_gates_claimed(gates: Seq<Gate>) -> bool {
    forall|i: int| 0 <= i < gates.len() && gates[i].join_gate ==> gates[i].owner is Some
}

/// Starts the match once every join gate is claimed: during the join
/// phase, when each join gate has a team, play begins.
pub fn check_for_start_game(state: &mut GameState, gates: &Vec<Gate>)
    ensures
        *old(state) is Join && all_join_gates_claimed(gates@) ==> *final(state) is Play,
        !(*old(state) is Join && all_join_gates_claimed(gates@)) ==> *final(state) == *old(state),
{
    let in_join = match *state {
        GameState::Join => true,
        _ => false,
    };
    if !in_join {
        return ;
    }
    let mut all_claimed: bool = true;
    let mut i: usize = 0;
    while i < gates.len()
        invariant
            0 <= i <= gates@.len(),
            all_claimed == forall|j: int| 0 <= j < i && gates@[j].join_gate ==> gates@[j].owner is Some,
        decreases gates@.len() - i,
    {
        let g = gates[i];
        if g.join_gate && g.owner.is_none() {
            all_claimed = false;
        }
        i = i + 1;
    }
    if all_claimed {
        *state = GameState::Play;
    }
}

} // verus!
