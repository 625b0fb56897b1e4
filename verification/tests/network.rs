use liischte::network::{
    describe_path, ActiveConnection, ActiveConnectionKind, ActiveConnectionState,
    ConnectionEvent, ConnectionTable,
};

#[test]
fn state_codes_decode_and_clamp() {
    assert_eq!(ActiveConnectionState::parse(1), ActiveConnectionState::Activating);
    assert_eq!(ActiveConnectionState::parse(2), ActiveConnectionState::Activated);
    assert_eq!(ActiveConnectionState::parse(3), ActiveConnectionState::Deactivating);
    assert_eq!(ActiveConnectionState::parse(4), ActiveConnectionState::Deactivated);
    // unrecognized codes clamp to unknown, never error
    assert_eq!(ActiveConnectionState::parse(0), ActiveConnectionState::Unknown);
    assert_eq!(ActiveConnectionState::parse(77), ActiveConnectionState::Unknown);
}

#[test]
fn kind_names_decode() {
    assert_eq!(ActiveConnectionKind::parse("802-3-ethernet"), ActiveConnectionKind::Wired);
    assert_eq!(ActiveConnectionKind::parse("802-11-wireless"), ActiveConnectionKind::Wireless);
    assert_eq!(ActiveConnectionKind::parse("gsm"), ActiveConnectionKind::Cellular);
    assert_eq!(
        ActiveConnectionKind::parse("bridge"),
        ActiveConnectionKind::Unknown("bridge".to_string())
    );
}

#[test]
fn describe_path_keeps_object_and_parent() {
    assert_eq!(
        describe_path("/org/freedesktop/NetworkManager/ActiveConnection/1"),
        "ActiveConnection/1"
    );
    assert_eq!(describe_path("a/b/c"), "b/c");
    assert_eq!(describe_path("plain"), "plain");
    assert_eq!(describe_path("/x"), "/x");
    assert_eq!(describe_path(""), "");
}

fn conn(path: &str, name: &str) -> ActiveConnection {
    ActiveConnection::new(path.to_string(), name.to_string(), "802-3-ethernet", 2, None)
}

#[test]
fn member_updates_replace_whole_snapshots() {
    let mut table = ConnectionTable::new();
    table.insert(conn("/c/1", "wired"));
    table.insert(conn("/c/2", "wifi"));

    let mut updated = conn("/c/2", "wifi");
    updated.apply_event(ConnectionEvent::Name("home wifi".to_string()));
    updated.apply_event(ConnectionEvent::State(ActiveConnectionState::Activating));
    assert!(table.update_member(updated));

    let snap = table.snapshot();
    assert_eq!(snap.len(), 2);
    assert_eq!(snap[0].name, "wired");
    assert_eq!(snap[1].name, "home wifi");
    assert_eq!(snap[1].state, ActiveConnectionState::Activating);
    // the untouched siblings of the updated field are kept
    assert_eq!(snap[1].path, "/c/2");
}

#[test]
fn stray_updates_do_not_resurrect_dropped_members() {
    let mut table = ConnectionTable::new();
    table.insert(conn("/c/1", "wired"));
    table.reconcile_retain(&vec![]);
    assert_eq!(table.snapshot().len(), 0);
    // a leftover event of the dropped object is ignored
    assert!(!table.update_member(conn("/c/1", "zombie")));
    assert_eq!(table.snapshot().len(), 0);
}

#[test]
fn reconcile_drops_then_reports_missing() {
    let mut table = ConnectionTable::new();
    table.insert(conn("/c/1", "a"));
    table.insert(conn("/c/2", "b"));

    let fresh = vec!["/c/2".to_string(), "/c/3".to_string()];
    table.reconcile_retain(&fresh);
    let snap = table.snapshot();
    assert_eq!(snap.len(), 1);
    assert_eq!(snap[0].path, "/c/2");

    assert_eq!(table.reconcile_additions(&fresh), vec!["/c/3".to_string()]);
    table.insert(conn("/c/3", "c"));

    // second reconciliation with the same list: nothing to drop, nothing to add
    table.reconcile_retain(&fresh);
    assert_eq!(table.snapshot().len(), 2);
    assert_eq!(table.reconcile_additions(&fresh), Vec::<String>::new());
}

#[test]
fn events_change_exactly_one_field() {
    let mut c = conn("/c/9", "n");
    c.apply_event(ConnectionEvent::Device(Some("/d/1".to_string())));
    assert_eq!(c.device.as_deref(), Some("/d/1"));
    assert_eq!(c.name, "n");
    c.apply_event(ConnectionEvent::Kind(ActiveConnectionKind::Cellular));
    assert_eq!(c.kind, ActiveConnectionKind::Cellular);
    assert_eq!(c.device.as_deref(), Some("/d/1"));
    c.apply_event(ConnectionEvent::Device(None));
    assert_eq!(c.device, None);
}
