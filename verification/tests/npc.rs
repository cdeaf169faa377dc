use kami_data::npc::{
    advance_waypoint, generate_dialogue, next_skibidi_phase, npc_decide, rizz_next, sigma_next,
    Behavior, NpcDecision, RizzPhase, Sighting, SigmaState, SkibidiPhase,
};

#[test]
fn skibidi_cycles_through_phases() {
    let mut p = SkibidiPhase::Rise;
    let mut seen = vec![p];
    for _ in 0..4 {
        p = next_skibidi_phase(p);
        seen.push(p);
    }
    assert_eq!(
        seen,
        vec![SkibidiPhase::Rise, SkibidiPhase::Hold, SkibidiPhase::Drop, SkibidiPhase::Wait, SkibidiPhase::Rise]
    );
}

#[test]
fn patrol_heads_for_current_waypoint() {
    let (b, d) = npc_decide(&Behavior::Patrol { waypoint_index: 0 }, None, true, 2, false);
    assert_eq!(b, Behavior::Patrol { waypoint_index: 0 });
    assert_eq!(d, NpcDecision::Patrol { toward: 0 });
}

#[test]
fn patrol_advances_and_wraps() {
    let (b, d) = npc_decide(&Behavior::Patrol { waypoint_index: 1 }, None, true, 2, true);
    assert_eq!(b, Behavior::Patrol { waypoint_index: 0 });
    assert_eq!(d, NpcDecision::Patrol { toward: 1 });
    assert_eq!(advance_waypoint(0, 3, true), 1);
    assert_eq!(advance_waypoint(2, 3, true), 0);
    assert_eq!(advance_waypoint(2, 3, false), 2);
}

#[test]
fn patrol_without_route_stands() {
    let (b, d) = npc_decide(&Behavior::Patrol { waypoint_index: 0 }, None, true, 0, false);
    assert_eq!(b, Behavior::Patrol { waypoint_index: 0 });
    assert_eq!(d, NpcDecision::Stand);
}

#[test]
fn close_player_starts_talk_when_cooldown_over() {
    let near = Some(Sighting { player: 1, within_talk: true });
    let (b, d) = npc_decide(&Behavior::Patrol { waypoint_index: 0 }, near, true, 1, false);
    assert_eq!(b, Behavior::Talk { partner_entity: 1 });
    assert_eq!(d, NpcDecision::Talk { partner: 1 });
}

#[test]
fn close_player_is_chased_during_cooldown() {
    let near = Some(Sighting { player: 4, within_talk: true });
    let (b, d) = npc_decide(&Behavior::Talk { partner_entity: 4 }, near, false, 1, false);
    assert_eq!(b, Behavior::Chase { target_entity: 4 });
    assert_eq!(d, NpcDecision::Chase { target: 4 });
}

#[test]
fn npc_returns_to_patrol_when_alone() {
    let (b, d) = npc_decide(&Behavior::Chase { target_entity: 9 }, None, true, 3, false);
    assert_eq!(b, Behavior::Patrol { waypoint_index: 0 });
    assert_eq!(d, NpcDecision::Stand);
    let (b, _) = npc_decide(&Behavior::Idle, None, true, 3, false);
    assert_eq!(b, Behavior::Patrol { waypoint_index: 0 });
}

#[test]
fn sigma_nods_when_player_near() {
    assert_eq!(sigma_next(SigmaState::Idle, false, false), SigmaState::Idle);
    assert_eq!(sigma_next(SigmaState::Idle, true, false), SigmaState::Nodding);
    assert_eq!(sigma_next(SigmaState::Nodding, true, false), SigmaState::Nodding);
    assert_eq!(sigma_next(SigmaState::Nodding, true, true), SigmaState::Idle);
}

#[test]
fn rizz_cycle() {
    assert_eq!(rizz_next(RizzPhase::Approach, false, true, true), RizzPhase::Approach);
    assert_eq!(rizz_next(RizzPhase::Approach, true, false, false), RizzPhase::Charm);
    assert_eq!(rizz_next(RizzPhase::Charm, true, false, true), RizzPhase::Charm);
    assert_eq!(rizz_next(RizzPhase::Charm, false, true, false), RizzPhase::WalkAway);
    assert_eq!(rizz_next(RizzPhase::WalkAway, true, true, false), RizzPhase::WalkAway);
    assert_eq!(rizz_next(RizzPhase::WalkAway, false, false, true), RizzPhase::Approach);
}

#[test]
fn dialogue_lines() {
    assert_eq!(
        generate_dialogue("Guard", "p"),
        "Halt! Who goes there? This island is protected by the KAMI World Council."
    );
    assert_eq!(
        generate_dialogue("Merchant", "p"),
        "Welcome, traveler! I have rare gems and artifacts from distant islands."
    );
    assert_eq!(generate_dialogue("Bob", "p"), "Bob: Greetings, adventurer!");
}

/// A Guard at the origin with waypoints at x = 5 and x = 10 and nobody around heads
/// for its first waypoint.
#[test]
fn npc_patrol() {
    let (b, d) = npc_decide(&Behavior::Patrol { waypoint_index: 0 }, None, true, 2, false);
    assert_eq!(d, NpcDecision::Patrol { toward: 0 });
    assert_eq!(b, Behavior::Patrol { waypoint_index: 0 });
}

/// A Merchant with player 1 inside its talk radius, cooldown over, starts talking.
#[test]
fn npc_talk_on_proximity() {
    let near = Some(Sighting { player: 1, within_talk: true });
    match npc_decide(&Behavior::Patrol { waypoint_index: 0 }, near, true, 1, false).1 {
        NpcDecision::Talk { partner } => assert_eq!(partner, 1),
        _ => panic!("expected Talk"),
    }
}

/// With the only player far away, Sigma stays idle.
#[test]
fn sigma_stays_still_no_player() {
    assert_eq!(sigma_next(SigmaState::Idle, false, false), SigmaState::Idle);
}
