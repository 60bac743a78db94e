use chat_hub::event::{make_chat, EventKind};
use chat_hub::hub::{Hub, RecvOutcome};
use chat_hub::service::{remove_user, session_step, AuthOutcome, HubState, SessionAction};

fn chat(n: i64) -> chat_hub::event::Event {
    make_chat("room".to_string(), format!("m{}", n), n, "author".to_string())
}

#[test]
fn publish_with_zero_subscribers_is_a_noop() {
    let mut hub = Hub::new();
    hub.publish(chat(0));
    hub.publish(chat(1));
    assert_eq!(hub.total_published(), 2);
    // nothing listens and nothing fails; a later subscriber starts at "now"
    let mut sub = hub.subscribe();
    assert!(matches!(sub.recv(&hub), RecvOutcome::Empty));
}

#[test]
fn subscriber_created_after_publish_never_sees_it() {
    let mut hub = Hub::new();
    hub.publish(chat(0));
    let mut sub = hub.subscribe();
    hub.publish(chat(1));
    match sub.recv(&hub) {
        RecvOutcome::Ready(e) => assert_eq!(e.text, "m1"),
        _ => panic!("expected the event published after subscribing"),
    }
    assert!(matches!(sub.recv(&hub), RecvOutcome::Empty));
}

#[test]
fn all_subscribers_observe_the_same_order() {
    let mut hub = Hub::new();
    let mut a = hub.subscribe();
    let mut b = hub.subscribe();
    for n in 0..5 {
        hub.publish(chat(n));
    }
    let drain = |s: &mut chat_hub::hub::Subscriber, hub: &Hub| -> Vec<String> {
        let mut seen = Vec::new();
        while let RecvOutcome::Ready(e) = s.recv(hub) {
            seen.push(e.text);
        }
        seen
    };
    let seen_a = drain(&mut a, &hub);
    let seen_b = drain(&mut b, &hub);
    assert_eq!(seen_a, vec!["m0", "m1", "m2", "m3", "m4"]);
    assert_eq!(seen_a, seen_b);
}

#[test]
fn exactly_capacity_behind_still_delivers() {
    let mut hub = Hub::new();
    let mut sub = hub.subscribe();
    for n in 0..1024 {
        hub.publish(chat(n));
    }
    match sub.recv(&hub) {
        RecvOutcome::Ready(e) => assert_eq!(e.text, "m0"),
        _ => panic!("a subscriber exactly at capacity behind is still served"),
    }
}

#[test]
fn lagged_subscriber_terminates_and_no_event_repeats_elsewhere() {
    let mut hub = Hub::new();
    let mut slow = hub.subscribe();
    let mut fast = hub.subscribe();
    let mut seen = Vec::new();
    for n in 0..1025 {
        hub.publish(chat(n));
        match fast.recv(&hub) {
            RecvOutcome::Ready(e) => seen.push(e.text),
            _ => panic!("the keeping-up subscriber must be served"),
        }
    }
    // slow fell 1025 > 1024 events behind
    assert!(matches!(slow.recv(&hub), RecvOutcome::Lagged));
    assert!(matches!(session_step(&mut slow, &hub), SessionAction::Terminate));
    // the other subscriber saw every event exactly once, in publish order
    assert_eq!(seen.len(), 1025);
    for n in 0..1025 {
        assert_eq!(seen[n], format!("m{}", n));
    }
    assert!(matches!(fast.recv(&hub), RecvOutcome::Empty));
}

#[test]
fn closed_hub_drains_then_reports_closed() {
    let mut hub = Hub::new();
    let mut sub = hub.subscribe();
    hub.publish(chat(0));
    hub.close();
    match sub.recv(&hub) {
        RecvOutcome::Ready(e) => assert_eq!(e.text, "m0"),
        _ => panic!("buffered events are drained before Closed"),
    }
    assert!(matches!(sub.recv(&hub), RecvOutcome::Closed));
    assert!(matches!(session_step(&mut sub, &hub), SessionAction::Terminate));
}

#[test]
fn session_step_pushes_and_waits() {
    let mut hub = Hub::new();
    let mut sub = hub.subscribe();
    assert!(matches!(session_step(&mut sub, &hub), SessionAction::Wait));
    hub.publish(chat(3));
    match session_step(&mut sub, &hub) {
        SessionAction::Push(e) => assert_eq!(e.text, "m3"),
        _ => panic!("expected a delivery"),
    }
    assert!(matches!(session_step(&mut sub, &hub), SessionAction::Wait));
}

#[test]
fn explicit_removal_announces_the_reason() {
    let mut st = HubState::new();
    chat_hub::service::post_message(
        &mut st,
        AuthOutcome::Authenticated("carol".to_string()),
        "lobby".to_string(),
        "bye".to_string(),
        10,
    )
    .unwrap();
    let mut sub = st.hub.subscribe();
    assert!(remove_user(&mut st, &"carol".to_string(), "disconnect", 11));
    match sub.recv(&st.hub) {
        RecvOutcome::Ready(e) => {
            assert!(matches!(e.kind, EventKind::System));
            assert_eq!(e.text, "User carol disconnected: disconnect");
            assert_eq!(e.timestamp, 11);
        }
        _ => panic!("expected the removal announcement"),
    }
    // removing again finds nothing and announces nothing
    assert!(!remove_user(&mut st, &"carol".to_string(), "disconnect", 12));
    assert!(matches!(sub.recv(&st.hub), RecvOutcome::Empty));
}
