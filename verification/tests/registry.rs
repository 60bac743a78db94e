use chat_hub::presence::PresenceRegistry;
use chat_hub::rooms::RoomRegistry;

#[test]
fn touch_creates_then_updates() {
    let mut reg = PresenceRegistry::new();
    assert!(reg.touch(&"alice".to_string(), "lobby".to_string(), 0));
    assert!(!reg.touch(&"alice".to_string(), "den".to_string(), 5));
    assert_eq!(reg.len(), 1);
    assert!(reg.contains(&"alice".to_string()));
    assert!(!reg.contains(&"bob".to_string()));
}

#[test]
fn remove_reports_whether_an_entry_existed() {
    let mut reg = PresenceRegistry::new();
    reg.touch(&"alice".to_string(), "lobby".to_string(), 0);
    assert!(reg.remove(&"alice".to_string()));
    assert!(!reg.remove(&"alice".to_string()));
    assert_eq!(reg.len(), 0);
}

#[test]
fn sweep_boundary_is_strict() {
    let mut reg = PresenceRegistry::new();
    reg.touch(&"alice".to_string(), "lobby".to_string(), 0);
    // exactly the threshold behind: kept
    assert!(reg.sweep_inactive(30, 30).is_empty());
    // one second past it: evicted
    assert_eq!(reg.sweep_inactive(31, 30), vec!["alice".to_string()]);
    assert!(!reg.contains(&"alice".to_string()));
}

#[test]
fn entries_seen_in_the_future_are_kept() {
    // a last-seen ahead of `now` is not inactive: the elapsed time is negative
    let mut reg = PresenceRegistry::new();
    reg.touch(&"alice".to_string(), "lobby".to_string(), 100);
    assert!(reg.sweep_inactive(50, 30).is_empty());
}

#[test]
fn room_registry_is_a_set() {
    let mut rooms = RoomRegistry::new();
    assert!(rooms.create(&"general".to_string()));
    assert!(!rooms.create(&"general".to_string()));
    assert!(rooms.contains(&"general".to_string()));
    assert!(!rooms.contains(&"other".to_string()));
    assert_eq!(rooms.list(), vec!["general".to_string()]);
}
