use chatcore::Directory;
use chatcore::Registry;
use chatcore::ServerState;
use chatcore::Status;
use chatcore::str_to_chars;

#[test]
fn registry_insert_contains_remove() {
    let mut reg = Registry::new();
    assert!(!reg.contains(5));
    reg.insert(5);
    reg.insert(7);
    reg.insert(5);
    assert!(reg.contains(5));
    assert!(reg.contains(7));
    assert_eq!(reg.ids().len(), 2);
    reg.remove(5);
    assert!(!reg.contains(5));
    assert!(reg.contains(7));
    reg.remove(5);
    assert!(reg.contains(7));
    assert!(reg.is_consistent());
}

#[test]
fn directory_register_and_find() {
    let mut dir = Directory::new();
    let alice = str_to_chars("alice");
    assert!(dir.register(3, &alice));
    assert_eq!(dir.find_connection(&alice), Some(3));
    assert_eq!(dir.find_connection(&str_to_chars("bob")), None);
    assert!(!dir.register(4, &alice));
    assert!(dir.is_consistent());
}

#[test]
fn directory_unregister_returns_the_name() {
    let mut dir = Directory::new();
    let alice = str_to_chars("alice");
    dir.register(3, &alice);
    assert_eq!(dir.unregister(3), Some("alice".to_string()));
    assert_eq!(dir.unregister(3), None);
    assert_eq!(dir.find_connection(&alice), None);
}

#[test]
fn directory_set_status_needs_a_live_user() {
    let mut dir = Directory::new();
    let alice = str_to_chars("alice");
    dir.register(3, &alice);
    assert!(dir.set_status(&alice, Status::Offline));
    let snap = dir.snapshot();
    assert_eq!(snap.len(), 1);
    assert_eq!(snap[0].0, "alice");
    assert_eq!(snap[0].1, Status::Offline);
    assert!(!dir.set_status(&str_to_chars("ghost"), Status::Online));
}

#[test]
fn status_tokens_round_trip() {
    assert_eq!(Status::Online.token(), "ONLINE");
    assert_eq!(Status::Offline.token(), "OFFLINE");
    assert_eq!(Status::DoNotDisturb.token(), "DO_NOT_DISTURB");
    assert_eq!(Status::from_token(&str_to_chars("ONLINE")), Some(Status::Online));
    assert_eq!(Status::from_token(&str_to_chars("OFFLINE")), Some(Status::Offline));
    assert_eq!(
        Status::from_token(&str_to_chars("DO_NOT_DISTURB")),
        Some(Status::DoNotDisturb)
    );
    assert_eq!(Status::from_token(&str_to_chars("online")), None);
}

#[test]
fn cleanup_removes_both_tables_together() {
    let mut st = ServerState::new();
    st.connect(1);
    let name = str_to_chars("carol");
    assert!(st.directory.register(1, &name));
    assert!(st.registry.contains(1));
    let departed = st.cleanup(1);
    assert_eq!(departed, Some("carol".to_string()));
    assert!(!st.registry.contains(1));
    assert_eq!(st.directory.find_connection(&name), None);
    assert_eq!(st.cleanup(1), None);
}

#[test]
fn username_validation_rules() {
    assert!(chatcore::is_valid_username(&str_to_chars("abc")));
    assert!(chatcore::is_valid_username(&str_to_chars("Al1ce")));
    assert!(!chatcore::is_valid_username(&str_to_chars("ab")));
    assert!(!chatcore::is_valid_username(&str_to_chars("al_ice")));
    assert!(!chatcore::is_valid_username(&str_to_chars("all")));
    assert!(!chatcore::is_valid_username(&str_to_chars("a b")));
    assert!(!chatcore::is_valid_username(&str_to_chars("")));
    assert!(chatcore::is_valid_username(&str_to_chars("café")));
    assert!(chatcore::is_valid_username(&str_to_chars("Grüße")));
    assert!(!chatcore::is_valid_username(&str_to_chars("ab€d")));
}
