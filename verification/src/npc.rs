//! NPC behavior decisions: the behavior tree of a patrolling NPC, the phase cycles of
//! the brainrot NPCs, and the dialogue stub.
//!
//! Positions, distances and timers are floating point and are measured by the caller;
//! the functions here take the outcomes of those measurements (who is nearest, whether
//! a waypoint is reached, whether a timer ran out) and decide what happens next.

use vstd::prelude::*;
use vstd::string::StringExecFns;

use crate::text::str_eq;

verus! {

/// NPC behavior state.
#[derive(Debug, Clone, PartialEq, Eq, Structural)]
pub enum Behavior {
    Idle,
    Patrol { waypoint_index: usize },
    Chase { target_entity: u32 },
    Talk { partner_entity: u32 },
}

/// Phase of the Skibidi pop-up cycle.
#[derive(Debug, Clone, Copy, PartialEq, Eq, Structural)]
pub enum SkibidiPhase {
    Rise,
    Hold,
    Drop,
    Wait,
}

/// Sigma stands still on the Sigma Throne and nods when a player comes near.
#[derive(Debug, Clone, Copy, PartialEq, Eq, Structural)]
pub enum SigmaState {
    Idle,
    Nodding,
}

/// Rizz: approach the player, charm, walk away, repeat.
#[derive(Debug, Clone, Copy, PartialEq, Eq, Structural)]
pub enum RizzPhase {
    Approach,
    Charm,
    WalkAway,
}

/// The nearest player inside the detection radius, as measured by the caller.
#[derive(Debug, Clone, Copy, PartialEq, Eq, Structural)]
pub struct Sighting {
    /// Entity id of the player.
    pub player: u32,
    /// The player is closer than the talk radius.
    pub within_talk: bool,
}

/// What an NPC does on one tick.
#[derive(Debug, Clone, Copy, PartialEq, Eq, Structural)]
pub enum NpcDecision {
    /// Start a dialogue with `partner` (the dialogue cooldown restarts).
    Talk { partner: u32 },
    /// Move toward the first listed player with id `target`, at patrol speed.
    Chase { target: u32 },
    /// Move toward waypoint `toward`, at patrol speed.
    Patrol { toward: usize },
    /// Stay in place.
    Stand,
}

/// The waypoint after `index` on a closed route of `count` waypoints, once reached.
pub open spec fn spec_advance_waypoint(index: usize, count: usize, arrived: bool) -> usize {
    if arrived {
        ((index + 1) % (count as int)) as usize
    } else {
        index
    }
}

/// Index of the waypoint to head for next: the following one (wrapping around) once
/// the current one is reached, else the current one.
pub fn advance_waypoint(index: usize, count: usize, arrived: bool) -> (r: usize)
    requires
        index < count,
    ensures
        r == spec_advance_waypoint(index, count, arrived),
        r < count,
        arrived ==> r == (index + 1) % (count as int),
        !arrived ==> r == index,
{
    if arrived {
        if index + 1 == count {
            assert((count as int) % (count as int) == 0) by (nonlinear_arith)
                requires
                    count > 0,
            ;
            0
        } else {
            proof {
                vstd::arithmetic::div_mod::lemma_small_mod((index + 1) as nat, count as nat);
            }
            index + 1
        }
    } else {
        index
    }
}

/// The behavior tree: a nearest player within talk radius starts a dialogue once the
/// cooldown is over; any other nearest player is chased; with nobody near, a patrolling
/// NPC heads for its current waypoint (moving on to the next one once it has arrived),
/// and an NPC in any other state goes back to patrolling from waypoint 0.
pub open spec fn spec_npc_decide(
    behavior: Behavior,
    nearest: Option<Sighting>,
    cooldown_ready: bool,
    waypoint_count: usize,
    arrived: bool,
) -> (Behavior, NpcDecision) {
    match nearest {
        Some(s) => if s.within_talk && cooldown_ready {
            (Behavior::Talk { partner_entity: s.player }, NpcDecision::Talk { partner: s.player })
        } else {
            (Behavior::Chase { target_entity: s.player }, NpcDecision::Chase { target: s.player })
        },
        None => match behavior {
            Behavior::Patrol { waypoint_index } => if waypoint_count == 0 {
                (behavior, NpcDecision::Stand)
            } else {
                (
                    Behavior::Patrol {
                        waypoint_index: spec_advance_waypoint(
                            waypoint_index,
                            waypoint_count,
                            arrived,
                        ),
                    },
                    NpcDecision::Patrol { toward: waypoint_index },
                )
            },
            _ => (Behavior::Patrol { waypoint_index: 0 }, NpcDecision::Stand),
        },
    }
}

/// One tick of the NPC behavior tree (see [`spec_npc_decide`]).
///
/// `nearest` is the nearest player inside the detection radius, `cooldown_ready`
/// whether the dialogue cooldown has run out, `waypoint_count` the length of the patrol
/// route, and `arrived` whether the NPC is within reach of the waypoint its current
/// `Patrol` state points at. Returns the next behavior state and the tick's decision.
pub fn npc_decide(
    behavior: &Behavior,
    nearest: Option<Sighting>,
    cooldown_ready: bool,
    waypoint_count: usize,
    arrived: bool,
) -> (r: (Behavior, NpcDecision))
    requires
        nearest is None && waypoint_count > 0 ==> (behavior matches Behavior::Patrol {
            waypoint_index,
        } ==> waypoint_index < waypoint_count),
    ensures
        r == spec_npc_decide(*behavior, nearest, cooldown_ready, waypoint_count, arrived),
{
    match nearest {
        Some(s) => {
            if s.within_talk && cooldown_ready {
                (Behavior::Talk { partner_entity: s.player }, NpcDecision::Talk { partner: s.player })
            } else {
                (
                    Behavior::Chase { target_entity: s.player },
                    NpcDecision::Chase { target: s.player },
                )
            }
        },
        None => match behavior {
            Behavior::Patrol { waypoint_index } => {
                if waypoint_count == 0 {
                    (Behavior::Patrol { waypoint_index: *waypoint_index }, NpcDecision::Stand)
                } else {
                    let next = advance_waypoint(*waypoint_index, waypoint_count, arrived);
                    (
                        Behavior::Patrol { waypoint_index: next },
                        NpcDecision::Patrol { toward: *waypoint_index },
                    )
                }
            },
            _ => (Behavior::Patrol { waypoint_index: 0 }, NpcDecision::Stand),
        },
    }
}

/// What one tick decides, case by case: a nearest player inside the talk radius, once
/// the cooldown is over, becomes the dialogue partner; any other nearest player is
/// chased; with nobody near, a patrolling NPC on a non-empty route heads for its
/// waypoint `i` and, once it has arrived there, moves on to waypoint `(i + 1) % count`
/// (else keeps `i`); a patrolling NPC without a route stands still as it is; an NPC in
/// any other state stands still and goes back to patrolling from waypoint 0.
pub proof fn lemma_npc_decide_cases(
    behavior: Behavior,
    nearest: Option<Sighting>,
    cooldown_ready: bool,
    waypoint_count: usize,
    arrived: bool,
)
    ensures
        ({
            let (next, decision) = spec_npc_decide(
                behavior,
                nearest,
                cooldown_ready,
                waypoint_count,
                arrived,
            );
            match nearest {
                Some(s) => if s.within_talk && cooldown_ready {
                    next == Behavior::Talk { partner_entity: s.player } && decision
                        == NpcDecision::Talk { partner: s.player }
                } else {
                    next == Behavior::Chase { target_entity: s.player } && decision
                        == NpcDecision::Chase { target: s.player }
                },
                None => match behavior {
                    Behavior::Patrol { waypoint_index: i } => if waypoint_count > 0 {
                        &&& decision == NpcDecision::Patrol { toward: i }
                        &&& (next matches Behavior::Patrol { waypoint_index: j } && (arrived ==> j
                            == (i + 1) % (waypoint_count as int)) && (!arrived ==> j == i))
                    } else {
                        next == behavior && decision == NpcDecision::Stand
                    },
                    _ => next == Behavior::Patrol { waypoint_index: 0 } && decision
                        == NpcDecision::Stand,
                },
            }
        }),
{
    if let Behavior::Patrol { waypoint_index } = behavior {
        if waypoint_count > 0 {
            vstd::arithmetic::div_mod::lemma_mod_bound(
                (waypoint_index + 1) as int,
                waypoint_count as int,
            );
        }
    }
}

/// A dialogue starts only with a player inside the talk radius, once the cooldown is over.
pub proof fn lemma_talk_needs_ready_partner(
    behavior: Behavior,
    nearest: Option<Sighting>,
    cooldown_ready: bool,
    waypoint_count: usize,
    arrived: bool,
)
    ensures
        spec_npc_decide(behavior, nearest, cooldown_ready, waypoint_count, arrived).1 is Talk
            <==> (nearest matches Some(s) && s.within_talk && cooldown_ready),
{
}

/// With no player near, the patrol index the NPC keeps is inside its route.
pub proof fn lemma_patrol_index_stays_in_range(
    behavior: Behavior,
    cooldown_ready: bool,
    waypoint_count: usize,
    arrived: bool,
)
    requires
        waypoint_count > 0,
        behavior matches Behavior::Patrol { waypoint_index } ==> waypoint_index < waypoint_count,
    ensures
        spec_npc_decide(behavior, None, cooldown_ready, waypoint_count, arrived).0 matches Behavior::Patrol {
            waypoint_index,
        } && waypoint_index < waypoint_count,
{
    if let Behavior::Patrol { waypoint_index } = behavior {
        if arrived {
            if waypoint_index + 1 < waypoint_count {
                vstd::arithmetic::div_mod::lemma_small_mod((waypoint_index + 1) as nat, waypoint_count as nat);
            } else {
                assert((waypoint_count as int) % (waypoint_count as int) == 0) by (nonlinear_arith)
                    requires
                        waypoint_count > 0,
                ;
            }
        }
    }
}

/// The phase that follows `phase` in the Skibidi cycle Rise → Hold → Drop → Wait → Rise.
pub open spec fn spec_next_skibidi_phase(phase: SkibidiPhase) -> SkibidiPhase {
    match phase {
        SkibidiPhase::Rise => SkibidiPhase::Hold,
        SkibidiPhase::Hold => SkibidiPhase::Drop,
        SkibidiPhase::Drop => SkibidiPhase::Wait,
        SkibidiPhase::Wait => SkibidiPhase::Rise,
    }
}

/// The phase a Skibidi enters when its current phase's duration has elapsed.
pub fn next_skibidi_phase(phase: SkibidiPhase) -> (r: SkibidiPhase)
    ensures
        r == spec_next_skibidi_phase(phase),
{
    match phase {
        SkibidiPhase::Rise => SkibidiPhase::Hold,
        SkibidiPhase::Hold => SkibidiPhase::Drop,
        SkibidiPhase::Drop => SkibidiPhase::Wait,
        SkibidiPhase::Wait => SkibidiPhase::Rise,
    }
}

/// The Skibidi cycle has length four: every phase changes, four steps come back, and
/// from `Rise` the phases come in the order Hold, Drop, Wait.
pub proof fn lemma_skibidi_cycle(phase: SkibidiPhase)
    ensures
        spec_next_skibidi_phase(SkibidiPhase::Rise) == SkibidiPhase::Hold,
        spec_next_skibidi_phase(SkibidiPhase::Hold) == SkibidiPhase::Drop,
        spec_next_skibidi_phase(SkibidiPhase::Drop) == SkibidiPhase::Wait,
        spec_next_skibidi_phase(phase) != phase,
        spec_next_skibidi_phase(spec_next_skibidi_phase(phase)) != phase,
        spec_next_skibidi_phase(spec_next_skibidi_phase(spec_next_skibidi_phase(phase))) != phase,
        spec_next_skibidi_phase(
            spec_next_skibidi_phase(spec_next_skibidi_phase(spec_next_skibidi_phase(phase))),
        ) == phase,
{
}

/// The Sigma state after one tick: an idle Sigma starts nodding when a player is
/// closer than the trigger distance; a nodding Sigma goes idle once the nod is over.
pub open spec fn spec_sigma_next(state: SigmaState, player_near: bool, nod_over: bool) -> SigmaState {
    match state {
        SigmaState::Idle => if player_near {
            SigmaState::Nodding
        } else {
            SigmaState::Idle
        },
        SigmaState::Nodding => if nod_over {
            SigmaState::Idle
        } else {
            SigmaState::Nodding
        },
    }
}

/// One tick of the Sigma state machine (see [`spec_sigma_next`]); the nod timer
/// restarts on every change of state.
pub fn sigma_next(state: SigmaState, player_near: bool, nod_over: bool) -> (r: SigmaState)
    ensures
        r == spec_sigma_next(state, player_near, nod_over),
{
    match state {
        SigmaState::Idle => {
            if player_near {
                SigmaState::Nodding
            } else {
                SigmaState::Idle
            }
        },
        SigmaState::Nodding => {
            if nod_over {
                SigmaState::Idle
            } else {
                SigmaState::Nodding
            }
        },
    }
}

/// The Sigma nods exactly while a nod is under way: an idle Sigma starts nodding exactly
/// when a player is near, and a nodding one goes idle exactly when the nod is over.
pub proof fn lemma_sigma_conditions(state: SigmaState, player_near: bool, nod_over: bool)
    ensures
        state == SigmaState::Idle ==> (spec_sigma_next(state, player_near, nod_over)
            == SigmaState::Nodding <==> player_near),
        state == SigmaState::Nodding ==> (spec_sigma_next(state, player_near, nod_over)
            == SigmaState::Idle <==> nod_over),
{
}

/// The Rizz phase after one tick: approach until in range of the player, charm until
/// the charm duration is over, walk away until the walk-away target is reached.
pub open spec fn spec_rizz_next(
    phase: RizzPhase,
    in_range: bool,
    charm_over: bool,
    arrived: bool,
) -> RizzPhase {
    match phase {
        RizzPhase::Approach => if in_range {
            RizzPhase::Charm
        } else {
            RizzPhase::Approach
        },
        RizzPhase::Charm => if charm_over {
            RizzPhase::WalkAway
        } else {
            RizzPhase::Charm
        },
        RizzPhase::WalkAway => if arrived {
            RizzPhase::Approach
        } else {
            RizzPhase::WalkAway
        },
    }
}

/// One tick of the Rizz phase machine (see [`spec_rizz_next`]); the phase timer
/// restarts on every change of phase, and entering `WalkAway` picks a new target.
pub fn rizz_next(phase: RizzPhase, in_range: bool, charm_over: bool, arrived: bool) -> (r: RizzPhase)
    ensures
        r == spec_rizz_next(phase, in_range, charm_over, arrived),
{
    match phase {
        RizzPhase::Approach => {
            if in_range {
                RizzPhase::Charm
            } else {
                RizzPhase::Approach
            }
        },
        RizzPhase::Charm => {
            if charm_over {
                RizzPhase::WalkAway
            } else {
                RizzPhase::Charm
            }
        },
        RizzPhase::WalkAway => {
            if arrived {
                RizzPhase::Approach
            } else {
                RizzPhase::WalkAway
            }
        },
    }
}

/// Each Rizz phase answers to its own condition alone: Approach turns to Charm exactly
/// when the player is in range, Charm turns to WalkAway exactly when the charm duration
/// is over (whether or not the player is still close), and WalkAway turns to Approach
/// exactly when the walk-away target is reached.
pub proof fn lemma_rizz_phase_conditions(
    phase: RizzPhase,
    in_range: bool,
    charm_over: bool,
    arrived: bool,
)
    ensures
        phase == RizzPhase::Approach ==> spec_rizz_next(phase, in_range, charm_over, arrived) == (
        if in_range {
            RizzPhase::Charm
        } else {
            RizzPhase::Approach
        }),
        phase == RizzPhase::Charm && charm_over ==> spec_rizz_next(
            phase,
            in_range,
            charm_over,
            arrived,
        ) == RizzPhase::WalkAway,
        phase == RizzPhase::Charm && !charm_over ==> spec_rizz_next(
            phase,
            in_range,
            charm_over,
            arrived,
        ) == RizzPhase::Charm,
        phase == RizzPhase::WalkAway ==> spec_rizz_next(phase, in_range, charm_over, arrived) == (
        if arrived {
            RizzPhase::Approach
        } else {
            RizzPhase::WalkAway
        }),
{
}

/// Rizz only ever moves one step along Approach → Charm → WalkAway → Approach.
pub proof fn lemma_rizz_follows_cycle(
    phase: RizzPhase,
    in_range: bool,
    charm_over: bool,
    arrived: bool,
)
    ensures
        ({
            let n = spec_rizz_next(phase, in_range, charm_over, arrived);
            n == phase || (phase == RizzPhase::Approach && n == RizzPhase::Charm) || (phase
                == RizzPhase::Charm && n == RizzPhase::WalkAway) || (phase == RizzPhase::WalkAway
                && n == RizzPhase::Approach)
        }),
{
}

/// The dialogue line an NPC named `npc_name` opens with.
pub open spec fn spec_dialogue(npc_name: Seq<char>) -> Seq<char> {
    if npc_name == "Guard"@ {
        "Halt! Who goes there? This island is protected by the KAMI World Council."@
    } else if npc_name == "Merchant"@ {
        "Welcome, traveler! I have rare gems and artifacts from distant islands."@
    } else {
        npc_name + ": Greetings, adventurer!"@
    }
}

/// Dialogue stub: a fixed line for the Guard and the Merchant, a greeting otherwise.
pub fn generate_dialogue(npc_name: &str, _player_name: &str) -> (r: String)
    ensures
        r@ == spec_dialogue(npc_name@),
{
    if str_eq(npc_name, "Guard") {
        "Halt! Who goes there? This island is protected by the KAMI World Council.".to_owned()
    } else if str_eq(npc_name, "Merchant") {
        "Welcome, traveler! I have rare gems and artifacts from distant islands.".to_owned()
    } else {
        let mut s = npc_name.to_owned();
        s.append(": Greetings, adventurer!");
        s
    }
}

} // verus!
