use chat_hub::event::EventKind;
use chat_hub::hub::RecvOutcome;
use chat_hub::service::{
    create_room, heartbeat, list_rooms, open_event_stream, post_message, sweep_inactive,
    AuthOutcome, HubState, ServiceError,
};

fn auth(name: &str) -> AuthOutcome {
    AuthOutcome::Authenticated(name.to_string())
}

#[test]
fn post_message_rejects_501_chars_accepts_500() {
    let mut st = HubState::new();
    let long = "x".repeat(501);
    let r = post_message(&mut st, auth("alice"), "lobby".to_string(), long, 0);
    assert!(matches!(r, Err(ServiceError::BadRequest)));
    let ok = "x".repeat(500);
    let r = post_message(&mut st, auth("alice"), "lobby".to_string(), ok, 0);
    assert!(r.is_ok());
}

#[test]
fn post_message_rejected_credential() {
    let mut st = HubState::new();
    let r = post_message(&mut st, AuthOutcome::Rejected, "lobby".to_string(), "hi".to_string(), 0);
    assert!(matches!(r, Err(ServiceError::Unauthorized)));
}

#[test]
fn post_message_collaborator_failure() {
    let mut st = HubState::new();
    let r = post_message(&mut st, AuthOutcome::Failed, "lobby".to_string(), "hi".to_string(), 0);
    assert!(matches!(r, Err(ServiceError::Internal)));
}

#[test]
fn heartbeat_before_any_post_is_not_found() {
    let mut st = HubState::new();
    let r = heartbeat(&mut st, auth("alice"), "lobby".to_string(), 1);
    assert!(matches!(r, Err(ServiceError::NotFound)));
}

#[test]
fn heartbeat_after_post_succeeds_and_refreshes() {
    let mut st = HubState::new();
    post_message(&mut st, auth("alice"), "lobby".to_string(), "hi".to_string(), 0).unwrap();
    let r = heartbeat(&mut st, auth("alice"), "den".to_string(), 20);
    assert!(r.is_ok());
    // refreshed at t=20, so a sweep at t=35 with threshold 30 keeps alice
    let evicted = sweep_inactive(&mut st, 35, 30);
    assert!(evicted.is_empty());
}

#[test]
fn duplicate_room_is_a_conflict() {
    let mut st = HubState::new();
    let r = create_room(&mut st, auth("alice"), "general".to_string(), 0);
    assert!(r.is_ok());
    let r = create_room(&mut st, auth("bob"), "general".to_string(), 1);
    assert!(matches!(r, Err(ServiceError::Conflict)));
    let rooms = list_rooms(&st, auth("alice")).unwrap();
    assert_eq!(rooms, vec!["general".to_string()]);
}

#[test]
fn list_rooms_requires_credential() {
    let st = HubState::new();
    let r = list_rooms(&st, AuthOutcome::Rejected);
    assert!(matches!(r, Err(ServiceError::Unauthorized)));
    let r = list_rooms(&st, AuthOutcome::Failed);
    assert!(matches!(r, Err(ServiceError::Internal)));
}

#[test]
fn open_event_stream_requires_credential() {
    let st = HubState::new();
    assert!(matches!(
        open_event_stream(&st, AuthOutcome::Rejected),
        Err(ServiceError::Unauthorized)
    ));
    assert!(matches!(open_event_stream(&st, AuthOutcome::Failed), Err(ServiceError::Internal)));
    assert!(open_event_stream(&st, auth("alice")).is_ok());
}

#[test]
fn first_post_emits_join_then_chat_then_sweep_emits_leave() {
    // alice posts to "lobby" at t=0; nothing further; the first sweep tick
    // past the threshold evicts her.  A subscriber from before t=0 sees
    // exactly three events, in order: Join, Chat, System.
    let mut st = HubState::new();
    let mut sub = open_event_stream(&st, auth("watcher")).unwrap();
    post_message(&mut st, auth("alice"), "lobby".to_string(), "hello".to_string(), 0).unwrap();
    let evicted = sweep_inactive(&mut st, 31, 30);
    assert_eq!(evicted, vec!["alice".to_string()]);

    match sub.recv(&st.hub) {
        RecvOutcome::Ready(e) => {
            assert!(matches!(e.kind, EventKind::Join));
            assert_eq!(e.room, "lobby");
            assert_eq!(e.author, "alice");
            assert_eq!(e.text, "alice joined the room");
            assert_eq!(e.timestamp, 0);
        }
        _ => panic!("expected the join event"),
    }
    match sub.recv(&st.hub) {
        RecvOutcome::Ready(e) => {
            assert!(matches!(e.kind, EventKind::Chat));
            assert_eq!(e.room, "lobby");
            assert_eq!(e.author, "alice");
            assert_eq!(e.text, "hello");
            assert_eq!(e.timestamp, 0);
        }
        _ => panic!("expected the chat event"),
    }
    match sub.recv(&st.hub) {
        RecvOutcome::Ready(e) => {
            assert!(matches!(e.kind, EventKind::System));
            assert_eq!(e.room, "system");
            assert_eq!(e.author, "System");
            assert_eq!(e.text, "User alice disconnected: inactivity");
            assert_eq!(e.timestamp, 31);
        }
        _ => panic!("expected the leave announcement"),
    }
    assert!(matches!(sub.recv(&st.hub), RecvOutcome::Empty));
}

#[test]
fn second_post_emits_no_join() {
    let mut st = HubState::new();
    post_message(&mut st, auth("alice"), "lobby".to_string(), "one".to_string(), 0).unwrap();
    let mut sub = open_event_stream(&st, auth("watcher")).unwrap();
    post_message(&mut st, auth("alice"), "lobby".to_string(), "two".to_string(), 1).unwrap();
    match sub.recv(&st.hub) {
        RecvOutcome::Ready(e) => {
            assert!(matches!(e.kind, EventKind::Chat));
            assert_eq!(e.text, "two");
        }
        _ => panic!("expected the second chat event"),
    }
    assert!(matches!(sub.recv(&st.hub), RecvOutcome::Empty));
}

#[test]
fn room_creation_is_announced() {
    let mut st = HubState::new();
    let mut sub = open_event_stream(&st, auth("watcher")).unwrap();
    create_room(&mut st, auth("alice"), "general".to_string(), 7).unwrap();
    match sub.recv(&st.hub) {
        RecvOutcome::Ready(e) => {
            assert!(matches!(e.kind, EventKind::System));
            assert_eq!(e.room, "system");
            assert_eq!(e.author, "System");
            assert_eq!(e.text, "New room created: general");
            assert_eq!(e.timestamp, 7);
        }
        _ => panic!("expected the announcement"),
    }
}

#[test]
fn touch_then_sweep_within_threshold_keeps_identity() {
    // activity at t=5; a sweep at t=35 with threshold 30 must not evict,
    // since 35 - 5 <= 30; one second later it must.
    let mut st = HubState::new();
    post_message(&mut st, auth("alice"), "lobby".to_string(), "hi".to_string(), 5).unwrap();
    let evicted = sweep_inactive(&mut st, 35, 30);
    assert!(evicted.is_empty());
    let evicted = sweep_inactive(&mut st, 36, 30);
    assert_eq!(evicted, vec!["alice".to_string()]);
}

#[test]
fn sweep_evicts_only_inactive_identities() {
    let mut st = HubState::new();
    post_message(&mut st, auth("alice"), "lobby".to_string(), "hi".to_string(), 0).unwrap();
    post_message(&mut st, auth("bob"), "lobby".to_string(), "yo".to_string(), 25).unwrap();
    let evicted = sweep_inactive(&mut st, 40, 30);
    assert_eq!(evicted, vec!["alice".to_string()]);
    // bob's entry survived, so his heartbeat still lands
    assert!(heartbeat(&mut st, auth("bob"), "lobby".to_string(), 41).is_ok());
    assert!(matches!(
        heartbeat(&mut st, auth("alice"), "lobby".to_string(), 41),
        Err(ServiceError::NotFound)
    ));
}
