//! Gates and the worker-to-queen promotion state machine.

use vstd::prelude::*;

use crate::CollisionEvent;
use crate::Team;
use crate::combat::find_player;
use crate::combat::player_ids;
use crate::ids::first_index_of;
use crate::ids::lemma_first_index_of_absent;
use crate::ids::lemma_first_index_of_found;
use crate::player::Player;
use crate::player::QUEEN_RENDER_HEIGHT;
use crate::player::QUEEN_RENDER_WIDTH;
use crate::player::Role;
use crate::player::WORKER_RENDER_HEIGHT;
use crate::player::WORKER_RENDER_WIDTH;

verus! {

/// Time a berry-carrying worker must stay in contact with a matching gate
/// to be promoted.
pub const GATE_TIME_MS: u64 = 1000;

/// How far a promoted player's centre rises so the grown sprite keeps its
/// feet planted: half the difference between queen and worker height.
pub const PROMOTION_RISE: i64 = 10;

/// Promotion progress: milliseconds of uninterrupted gate contact so far.
/// Leaving gate contact discards the timer: progress is lost, not paused.
#[derive(Clone, Copy, Debug, PartialEq, Eq, Structural)]
pub struct GateTimer {
    pub elapsed_ms: u64,
}

/// A fixed sensor zone that promotes workers. An unowned gate serves any
/// team until a queen claims it; join gates double as ready signals — the
/// match starts once every join gate has a team.
#[derive(Clone, Copy, Debug, PartialEq, Eq, Structural)]
pub struct Gate {
    pub id: u64,
    pub owner: Option<Team>,
    /// Join gates exist only during the join phase.
    pub join_gate: bool,
}

/// The entity identifiers of the gates, in order.
pub open spec fn gate_ids(gates: Seq<Gate>) -> Seq<u64> {
    gates.map_values(|g: Gate| g.id)
}

/// One orientation of a gate-contact start. A queen touching an unowned
/// gate claims it for her team. Then, when that gate is unowned or owned
/// by the player's team and the player carries a berry without a running
/// gate timer, a fresh timer starts at zero.
pub open spec fn gate_start_orient(
    gates: Seq<Gate>,
    players: Seq<Player>,
    gate_id: u64,
    player_id: u64,
) -> (Seq<Gate>, Seq<Player>) {
    let gi = first_index_of(gate_ids(gates), gate_id);
    let pi = first_index_of(player_ids(players), player_id);
    if gi >= 0 && pi >= 0 {
        let p = players[pi];
        let gates1 = if p.role is Queen && gates[gi].owner is None {
            gates.update(gi, Gate { owner: Some(p.team), ..gates[gi] })
        } else {
            gates
        };
        let players1 = if (gates1[gi].owner is None || gates1[gi].owner == Some(p.team))
            && p.has_berry && p.gate_timer is None {
            players.update(pi, Player { gate_timer: Some(GateTimer { elapsed_ms: 0 }), ..p })
        } else {
            players
        };
        (gates1, players1)
    } else {
        (gates, players)
    }
}

/// One orientation of a gate-contact stop: a berry-carrying player with a
/// running gate timer loses the timer — all progress — and shrinks back
/// to worker size.
pub open spec fn gate_stop_orient(
    gates: Seq<Gate>,
    players: Seq<Player>,
    gate_id: u64,
    player_id: u64,
) -> Seq<Player> {
    let gi = first_index_of(gate_ids(gates), gate_id);
    let pi = first_index_of(player_ids(players), player_id);
    if gi >= 0 && pi >= 0 && players[pi].has_berry && players[pi].gate_timer is Some {
        players.update(
            pi,
            Player {
                gate_timer: None,
                width: WORKER_RENDER_WIDTH,
                height: WORKER_RENDER_HEIGHT,
                ..players[pi]
            },
        )
    } else {
        players
    }
}

/// One collision event's effect on gate contact: both orientations of
/// the pair are tried, for starts and stops alike.
pub open spec fn gate_step(gates: Seq<Gate>, players: Seq<Player>, ev: CollisionEvent) -> (
    Seq<Gate>,
    Seq<Player>,
) {
    match ev {
        CollisionEvent::Started { a, b } => {
            let (gates1, players1) = gate_start_orient(gates, players, a, b);
            gate_start_orient(gates1, players1, b, a)
        },
        CollisionEvent::Stopped { a, b } => {
            let players1 = gate_stop_orient(gates, players, a, b);
            (gates, gate_stop_orient(gates, players1, b, a))
        },
    }
}

/// The gates and players after this tick's gate-contact events, in order.
pub open spec fn gate_run(gates: Seq<Gate>, players: Seq<Player>, events: Seq<CollisionEvent>) -> (
    Seq<Gate>,
    Seq<Player>,
)
    decreases events.len(),
{
    if events.len() == 0 {
        (gates, players)
    } else {
        let (gates1, players1) = gate_run(gates, players, events.drop_last());
        gate_step(gates1, players1, events.last())
    }
}

/// Index of the first gate with entity `id`, if any.
fn find_gate(gates: &Vec<Gate>, id: u64) -> (r: Option<usize>)
    ensures
        match r {
            Option::Some(i) => i < gates@.len() && gates@[i as int].id == id && first_index_of(
                gate_ids(gates@),
                id,
            ) == i as int,
            Option::None => first_index_of(gate_ids(gates@), id) == -1,
        },
{
    let mut i: usize = 0;
    while i < gates.len()
        invariant
            0 <= i <= gates@.len(),
            forall|j: int| 0 <= j < i ==> gates@[j].id != id,
        decreases gates@.len() - i,
    {
        if gates[i].id == id {
            proof {
                lemma_first_index_of_found(gate_ids(gates@), id, i as int);
            }
            return Some(i);
        }
        i = i + 1;
    }
    proof {
        lemma_first_index_of_absent(gate_ids(gates@), id);
    }
    None
}

/// Applies one start orientation; shared by both orderings of an event.
fn gate_start_one(gates: &mut Vec<Gate>, players: &mut Vec<Player>, gate_id: u64, player_id: u64)
    ensures
        (final(gates)@, final(players)@) == gate_start_orient(old(gates)@, old(players)@, gate_id, player_id),
{
    let og = find_gate(gates, gate_id);
    let op = find_player(players, player_id);
    if let (Some(gi), Some(pi)) = (og, op) {
        let p = players[pi];
        let is_queen = match p.role {
            Role::Queen => true,
            Role::Worker => false,
        };
        if is_queen && gates[gi].owner.is_none() {
            gates[gi].owner = Some(p.team);
        }
        let owner_allows = match gates[gi].owner {
            None => true,
            Some(team) => team == p.team,
        };
        if owner_allows && p.has_berry && p.gate_timer.is_none() {
            players[pi].gate_timer = Some(GateTimer { elapsed_ms: 0 });
        }
    }
}

/// Applies one stop orientation; shared by both orderings of an event.
fn gate_stop_one(gates: &Vec<Gate>, players: &mut Vec<Player>, gate_id: u64, player_id: u64)
    ensures
        final(players)@ == gate_stop_orient(gates@, old(players)@, gate_id, player_id),
{
    let og = find_gate(gates, gate_id);
    let op = find_player(players, player_id);
    if let (Some(gi), Some(pi)) = (og, op) {
        let p = players[pi];
        if p.has_berry && p.gate_timer.is_some() {
            players[pi].gate_timer = None;
            players[pi].width = WORKER_RENDER_WIDTH;
            players[pi].height = WORKER_RENDER_HEIGHT;
        }
    }
}

/// Resolves this tick's gate contacts: on contact start a queen claims an
/// unowned gate and a matching berry-carrier starts the promotion timer;
/// on contact stop a carrier mid-promotion loses the timer and shrinks
/// back to worker size.
pub fn check_worker_gate_collisions(
    gates: &mut Vec<Gate>,
    players: &mut Vec<Player>,
    events: &Vec<CollisionEvent>,
)
    ensures
        (final(gates)@, final(players)@) == gate_run(old(gates)@, old(players)@, events@),
{
    let ghost gates0 = gates@;
    let ghost players0 = players@;
    let mut i: usize = 0;
    while i < events.len()
        invariant
            0 <= i <= events@.len(),
            (gates@, players@) == gate_run(gates0, players0, events@.take(i as int)),
        decreases events@.len() - i,
    {
        proof {
            assert(events@.take(i + 1).drop_last() =~= events@.take(i as int));
            assert(events@.take(i + 1).last() == events@[i as int]);
        }
        let ev = events[i];
        match ev {
            CollisionEvent::Started { a, b } => {
                gate_start_one(gates, players, a, b);
                gate_start_one(gates, players, b, a);
            },
            CollisionEvent::Stopped { a, b } => {
                gate_stop_one(gates, players, a, b);
                gate_stop_one(gates, players, b, a);
            },
        }
        i = i + 1;
    }
    proof {
        assert(events@.take(events@.len() as int) =~= events@);
    }
}

/// The player after `dt` milliseconds of gate contact. Reaching the full
/// promotion time makes the worker a queen: queen size and art, centre
/// raised to keep the feet planted, the held berry discarded, the timer
/// gone. Short of it, the sprite grows linearly with elapsed time
/// between worker and queen size.
pub open spec fn advance_gate_timer(p: Player, dt: u64) -> Player {
    match p.gate_timer {
        Option::None => p,
        Option::Some(t) => {
            let total = t.elapsed_ms + dt;
            if total >= GATE_TIME_MS {
                Player {
                    role: Role::Queen,
                    width: QUEEN_RENDER_WIDTH,
                    height: QUEEN_RENDER_HEIGHT,
                    y: (p.y + PROMOTION_RISE) as i64,
                    has_berry: false,
                    gate_timer: None,
                    ..p
                }
            } else {
                Player {
                    width: (WORKER_RENDER_WIDTH + (QUEEN_RENDER_WIDTH - WORKER_RENDER_WIDTH) * total
                        / (GATE_TIME_MS as int)) as u32,
                    height: (WORKER_RENDER_HEIGHT + (QUEEN_RENDER_HEIGHT - WORKER_RENDER_HEIGHT)
                        * total / (GATE_TIME_MS as int)) as u32,
                    gate_timer: Some(GateTimer { elapsed_ms: total as u64 }),
                    ..p
                }
            }
        },
    }
}

/// Advances every running promotion timer by `dt` milliseconds, growing
/// the sprite and promoting on completion.
pub fn progress_gate_timers(players: &mut Vec<Player>, dt: u64)
    requires
        forall|i: int| 0 <= i < old(players)@.len() ==> old(players)@[i].in_bounds(),
    ensures
        final(players)@.len() == old(players)@.len(),
        forall|i: int| 0 <= i < old(players)@.len() ==> final(players)@[i] == advance_gate_timer(
            old(players)@[i],
            dt,
        ),
{
    let ghost players0 = players@;
    let mut i: usize = 0;
    while i < players.len()
        invariant
            0 <= i <= players0.len(),
            players@.len() == players0.len(),
            forall|k: int| i <= k < players0.len() ==> players@[k] == players0[k],
            forall|k: int| i <= k < players0.len() ==> players0[k].in_bounds(),
            forall|k: int| 0 <= k < i ==> players@[k] == advance_gate_timer(players0[k], dt),
        decreases players0.len() - i,
    {
        let p = players[i];
        if let Some(t) = p.gate_timer {
            if dt >= GATE_TIME_MS || t.elapsed_ms >= GATE_TIME_MS - dt {
                players[i].role = Role::Queen;
                players[i].width = QUEEN_RENDER_WIDTH;
                players[i].height = QUEEN_RENDER_HEIGHT;
                players[i].y = p.y + PROMOTION_RISE;
                players[i].has_berry = false;
                players[i].gate_timer = None;
            } else {
                let total = t.elapsed_ms + dt;
                let grown_w = WORKER_RENDER_WIDTH as u64 + (QUEEN_RENDER_WIDTH - WORKER_RENDER_WIDTH)
                    as u64 * total / GATE_TIME_MS;
                let grown_h = WORKER_RENDER_HEIGHT as u64 + (QUEEN_RENDER_HEIGHT
                    - WORKER_RENDER_HEIGHT) as u64 * total / GATE_TIME_MS;
                players[i].width = grown_w as u32;
                players[i].height = grown_h as u32;
                players[i].gate_timer = Some(GateTimer { elapsed_ms: total });
            }
        }
        i = i + 1;
    }
}

/// Removes every gate at round reset.
pub fn remove_gates(gates: &mut Vec<Gate>)
    ensures
        final(gates)@.len() == 0,
{
    gates.clear();
}

/// The players after every promotion timer advanced by `dt`.
pub open spec fn advance_all_gate_timers(players: Seq<Player>, dt: u64) -> Seq<Player> {
    players.map_values(|p: Player| advance_gate_timer(p, dt))
}

/// Gate promotion cancels on early exit: a berry-carrying worker that
/// starts the promotion timer on a matching gate, stays for less than the
/// promotion time, and then leaves contact is still a worker at worker
/// size, with the timer gone — all progress is lost. A second touch
/// starts the timer over from zero, it does not resume.
pub proof fn lemma_gate_promotion_cancels_on_early_exit(
    gates: Seq<Gate>,
    players: Seq<Player>,
    gate_id: u64,
    player_id: u64,
    dt: u64,
)
    requires
        dt < GATE_TIME_MS,
        ({
            let gi = first_index_of(gate_ids(gates), gate_id);
            let pi = first_index_of(player_ids(players), player_id);
            &&& gi >= 0
            &&& pi >= 0
            &&& players[pi].role is Worker
            &&& players[pi].has_berry
            &&& players[pi].gate_timer is None
            &&& (gates[gi].owner is None || gates[gi].owner == Some(players[pi].team))
        }),
    ensures
        ({
            let pi = first_index_of(player_ids(players), player_id);
            let (gates1, players1) = gate_start_orient(gates, players, gate_id, player_id);
            let players2 = advance_all_gate_timers(players1, dt);
            let players3 = gate_stop_orient(gates1, players2, gate_id, player_id);
            let (gates4, players4) = gate_start_orient(gates1, players3, gate_id, player_id);
            &&& players3[pi].role is Worker
            &&& players3[pi].gate_timer is None
            &&& players3[pi].width == WORKER_RENDER_WIDTH
            &&& players3[pi].height == WORKER_RENDER_HEIGHT
            &&& players4[pi].gate_timer == Some(GateTimer { elapsed_ms: 0 })
        }),
{
    let gi = first_index_of(gate_ids(gates), gate_id);
    let pi = first_index_of(player_ids(players), player_id);
    crate::ids::lemma_first_index_of_props(gate_ids(gates), gate_id);
    crate::ids::lemma_first_index_of_props(player_ids(players), player_id);
    let (gates1, players1) = gate_start_orient(gates, players, gate_id, player_id);
    // The worker claims nothing; only the timer is attached.
    assert(gates1 == gates);
    assert(players1 == players.update(
        pi,
        Player { gate_timer: Some(GateTimer { elapsed_ms: 0 }), ..players[pi] },
    ));
    let players2 = advance_all_gate_timers(players1, dt);
    // Identifiers survive the timer start and the advance.
    assert forall|j: int| 0 <= j < players.len() implies player_ids(players2)[j] == player_ids(players)[j] by {
        assert(players2[j] == advance_gate_timer(players1[j], dt));
        assert(players1[j].id == players[j].id);
    }
    assert(player_ids(players2) =~= player_ids(players));
    // Short of the promotion time, the timer shows exactly the elapsed
    // contact and the player is still a worker with the berry.
    assert(players2[pi] == advance_gate_timer(players1[pi], dt));
    assert(players2[pi].gate_timer == Some(GateTimer { elapsed_ms: dt }));
    assert(players2[pi].role is Worker);
    assert(players2[pi].has_berry);
    let players3 = gate_stop_orient(gates1, players2, gate_id, player_id);
    assert(players3[pi].role is Worker);
    assert(players3[pi].gate_timer is None);
    assert(players3[pi].width == WORKER_RENDER_WIDTH);
    // Identifiers also survive the cancellation, so a second touch finds
    // the same worker and starts a fresh timer at zero.
    assert forall|j: int| 0 <= j < players.len() implies player_ids(players3)[j] == player_ids(players)[j] by {
        assert(players3[j].id == players2[j].id);
    }
    assert(player_ids(players3) =~= player_ids(players));
    let (gates4, players4) = gate_start_orient(gates1, players3, gate_id, player_id);
    assert(players4[pi].gate_timer == Some(GateTimer { elapsed_ms: 0 }));
}

} // verus!
