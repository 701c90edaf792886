use battleship_game::messages::execute_message;
use battleship_game::operations::{execute_operation, INVITATION_WINDOW_MICROS};
use battleship_game::protocol::{CrossChainMessage, Operation};
use battleship_game::state::{BattleshipState, OpError, PeerContext};

fn ctx(addr: &str, now: u64) -> PeerContext {
    PeerContext {
        self_chain: addr.to_string(),
        now,
        fresh_room_id: format!("room-{}", now),
    }
}

#[test]
fn friend_request_round_trip() {
    let ca = ctx("A", 1);
    let cb = ctx("B", 2);
    let mut a = BattleshipState::new();
    let mut b = BattleshipState::new();

    let out = execute_operation(&mut a, &ca, Operation::RequestFriend {
        target_chain_id: "B".to_string(),
    })
    .unwrap();
    assert_eq!(a.friend_requests_sent, vec!["B".to_string()]);
    assert_eq!(out.len(), 1);
    assert_eq!(out[0].target, "B");
    execute_message(&mut b, &cb, out.into_iter().next().unwrap().message).unwrap();
    assert_eq!(b.friend_requests_received, vec!["A".to_string()]);

    let out = execute_operation(&mut b, &cb, Operation::AcceptFriend {
        requester_chain_id: "A".to_string(),
    })
    .unwrap();
    assert!(b.friend_requests_received.is_empty());
    assert_eq!(b.friends, vec!["A".to_string()]);
    assert_eq!(out.len(), 1);
    assert_eq!(out[0].target, "A");
    execute_message(&mut a, &ca, out.into_iter().next().unwrap().message).unwrap();
    assert_eq!(a.friends, vec!["B".to_string()]);
    assert!(a.friend_requests_sent.is_empty());
}

#[test]
fn repeated_friend_request_sends_nothing() {
    let ca = ctx("A", 1);
    let mut a = BattleshipState::new();
    execute_operation(&mut a, &ca, Operation::RequestFriend { target_chain_id: "B".to_string() })
        .unwrap();
    let out = execute_operation(&mut a, &ca, Operation::RequestFriend {
        target_chain_id: "B".to_string(),
    })
    .unwrap();
    assert!(out.is_empty());
    assert_eq!(a.friend_requests_sent, vec!["B".to_string()]);
}

#[test]
fn decline_friend_only_consumes_the_request() {
    let cb = ctx("B", 2);
    let mut b = BattleshipState::new();
    execute_message(&mut b, &cb, CrossChainMessage::FriendRequest {
        requester_chain_id: "A".to_string(),
    })
    .unwrap();
    let out = execute_operation(&mut b, &cb, Operation::DeclineFriend {
        requester_chain_id: "A".to_string(),
    })
    .unwrap();
    assert!(out.is_empty());
    assert!(b.friend_requests_received.is_empty());
    assert!(b.friends.is_empty());
}

#[test]
fn invite_accept_at_window_boundary_is_honored() {
    let stamp: u64 = 1_000_000;
    let mut g = BattleshipState::new();
    let cg = ctx("G", stamp + INVITATION_WINDOW_MICROS);
    execute_message(&mut g, &cg, CrossChainMessage::RoomInvitation {
        host_chain_id: "H".to_string(),
        timestamp: stamp,
    })
    .unwrap();
    let out = execute_operation(&mut g, &cg, Operation::AcceptInvite {
        host_chain_id: "H".to_string(),
        player_name: "greta".to_string(),
    })
    .unwrap();
    assert_eq!(out.len(), 1, "elapsed time equal to the window is accepted");
    assert_eq!(out[0].target, "H");
    assert!(matches!(out[0].message, CrossChainMessage::JoinRequest { .. }));
    assert!(g.room_invitations.is_empty());
}

#[test]
fn invite_accept_one_past_the_window_is_dropped() {
    let stamp: u64 = 1_000_000;
    let mut g = BattleshipState::new();
    let cg = ctx("G", stamp + INVITATION_WINDOW_MICROS + 1);
    execute_message(&mut g, &cg, CrossChainMessage::RoomInvitation {
        host_chain_id: "H".to_string(),
        timestamp: stamp,
    })
    .unwrap();
    let out = execute_operation(&mut g, &cg, Operation::AcceptInvite {
        host_chain_id: "H".to_string(),
        player_name: "greta".to_string(),
    })
    .unwrap();
    assert!(out.is_empty(), "one microsecond past the window is rejected");
    assert!(g.room_invitations.is_empty(), "the stale invitation is still consumed");
}

#[test]
fn invite_accept_with_clock_not_after_stamp_is_dropped() {
    let stamp: u64 = 1_000_000;
    for now in [stamp, stamp - 1] {
        let mut g = BattleshipState::new();
        let cg = ctx("G", now);
        execute_message(&mut g, &cg, CrossChainMessage::RoomInvitation {
            host_chain_id: "H".to_string(),
            timestamp: stamp,
        })
        .unwrap();
        let out = execute_operation(&mut g, &cg, Operation::AcceptInvite {
            host_chain_id: "H".to_string(),
            player_name: "greta".to_string(),
        })
        .unwrap();
        assert!(out.is_empty());
    }
}

#[test]
fn invite_needs_an_active_room_and_friendship() {
    let ch = ctx("H", 5);
    let mut h = BattleshipState::new();
    assert_eq!(
        execute_operation(&mut h, &ch, Operation::InviteFriend {
            friend_chain_id: "G".to_string(),
        })
        .unwrap_err(),
        OpError::NoRoom
    );
    execute_operation(&mut h, &ch, Operation::CreateRoom { host_name: "hans".to_string() })
        .unwrap();
    assert_eq!(
        execute_operation(&mut h, &ch, Operation::InviteFriend {
            friend_chain_id: "G".to_string(),
        })
        .unwrap_err(),
        OpError::NotFriends
    );
    h.friends.push("G".to_string());
    let out = execute_operation(&mut h, &ch, Operation::InviteFriend {
        friend_chain_id: "G".to_string(),
    })
    .unwrap();
    assert_eq!(out.len(), 1);
    assert_eq!(out[0].target, "G");
    assert_eq!(h.sent_invitations, vec!["G".to_string()]);
    assert!(matches!(
        out[0].message,
        CrossChainMessage::RoomInvitation { timestamp: 5, .. }
    ));
}

#[test]
fn cancelled_invitation_is_dropped() {
    let cg = ctx("G", 9);
    let mut g = BattleshipState::new();
    execute_message(&mut g, &cg, CrossChainMessage::RoomInvitation {
        host_chain_id: "H".to_string(),
        timestamp: 3,
    })
    .unwrap();
    assert_eq!(g.room_invitations.len(), 1);
    execute_message(&mut g, &cg, CrossChainMessage::RoomInvitationCancelled {
        host_chain_id: "H".to_string(),
    })
    .unwrap();
    assert!(g.room_invitations.is_empty());
}

#[test]
fn matchmaking_pairs_first_in_first_out() {
    let co = ctx("O", 100);
    let mut orch = BattleshipState::new();

    let out = execute_operation(&mut orch, &co, Operation::SearchPlayer {
        orchestrator_chain_id: "O".to_string(),
        player_name: "self-test".to_string(),
    })
    .unwrap();
    assert_eq!(out.len(), 1);
    assert_eq!(orch.last_notification.as_deref(), Some("Matchmaking search started"));

    // A then B then C: (A, B) pair with A as host, C stays queued.
    let out = execute_message(&mut orch, &co, CrossChainMessage::MatchmakingEnqueue {
        player_chain_id: "A".to_string(),
        player_name: "alma".to_string(),
    })
    .unwrap();
    assert_eq!(out.len(), 1);
    assert_eq!(out[0].target, "A");
    assert_eq!(orch.matchmaking_queue.len(), 1);

    let out = execute_message(&mut orch, &co, CrossChainMessage::MatchmakingEnqueue {
        player_chain_id: "B".to_string(),
        player_name: "bela".to_string(),
    })
    .unwrap();
    assert_eq!(out.len(), 3);
    assert_eq!(out[0].target, "B");
    assert_eq!(out[1].target, "A");
    match &out[1].message {
        CrossChainMessage::MatchmakingStart { host_name, guest_chain_id, guest_name } => {
            assert_eq!(host_name, "alma");
            assert_eq!(guest_chain_id, "B");
            assert_eq!(guest_name, "bela");
        },
        other => panic!("expected a start message, got {:?}", other),
    }
    assert_eq!(out[2].target, "B");
    match &out[2].message {
        CrossChainMessage::MatchmakingFound { host_chain_id } => {
            assert_eq!(host_chain_id, "A");
        },
        other => panic!("expected a found message, got {:?}", other),
    }
    assert!(orch.matchmaking_queue.is_empty());

    let out = execute_message(&mut orch, &co, CrossChainMessage::MatchmakingEnqueue {
        player_chain_id: "C".to_string(),
        player_name: "cleo".to_string(),
    })
    .unwrap();
    assert_eq!(out.len(), 1);
    assert_eq!(orch.matchmaking_queue.len(), 1);
    assert_eq!(orch.matchmaking_queue[0].chain_id, "C");
}

#[test]
fn reenqueue_while_queued_has_no_effect() {
    let co = ctx("O", 100);
    let mut orch = BattleshipState::new();
    execute_message(&mut orch, &co, CrossChainMessage::MatchmakingEnqueue {
        player_chain_id: "A".to_string(),
        player_name: "alma".to_string(),
    })
    .unwrap();
    let out = execute_message(&mut orch, &co, CrossChainMessage::MatchmakingEnqueue {
        player_chain_id: "A".to_string(),
        player_name: "alma-again".to_string(),
    })
    .unwrap();
    assert_eq!(out.len(), 1, "the enqueue is still acknowledged");
    assert_eq!(orch.matchmaking_queue.len(), 1);
    assert_eq!(orch.matchmaking_queue[0].player_name, "alma");
}

#[test]
fn matchmaking_start_builds_the_room_on_both_sides() {
    let ca = ctx("A", 200);
    let cb = ctx("B", 201);
    let mut a = BattleshipState::new();
    let mut b = BattleshipState::new();

    let out = execute_message(&mut a, &ca, CrossChainMessage::MatchmakingStart {
        host_name: "alma".to_string(),
        guest_chain_id: "B".to_string(),
        guest_name: "bela".to_string(),
    })
    .unwrap();
    let room = a.room.as_ref().unwrap();
    assert_eq!(room.host_chain_id, "A");
    assert_eq!(room.players.len(), 2);
    assert_eq!(room.players[0].name, "alma");
    assert_eq!(room.players[1].chain_id, "B");
    assert!(a.enemy_view.is_some());
    assert_eq!(a.last_notification.as_deref(), Some("Match found (host)"));
    assert_eq!(out.len(), 1);
    assert_eq!(out[0].target, "B");

    execute_message(&mut b, &cb, out.into_iter().next().unwrap().message).unwrap();
    assert_eq!(b.room.as_ref().unwrap().host_chain_id, "A");
    assert_eq!(b.last_notification.as_deref(), Some("Room ready"));
    assert!(b.enemy_view.is_some());

    execute_message(&mut b, &cb, CrossChainMessage::MatchmakingFound {
        host_chain_id: "A".to_string(),
    })
    .unwrap();
    assert_eq!(b.last_notification.as_deref(), Some("Match found. Host: A"));
}
