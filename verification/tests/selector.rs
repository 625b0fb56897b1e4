use liischte::selector::{filter_selector, ActiveSelector, RebindAction, StrengthMirror};

#[test]
fn sentinel_values_never_bind() {
    assert_eq!(filter_selector(""), None);
    assert_eq!(filter_selector("/"), None);
    assert_eq!(filter_selector("/ap/1"), Some("/ap/1".to_string()));
}

#[test]
fn rebinds_happen_exactly_on_changes() {
    let mut selector = ActiveSelector::new();

    // bind to a
    match selector.on_change("/ap/a") {
        RebindAction::Rebind(Some(p)) => assert_eq!(p, "/ap/a"),
        _ => panic!("expected a rebind to a"),
    }
    let epoch_a = selector.epoch;

    // the sequence [a, b, a]: a is already bound, so exactly two rebinds
    assert!(matches!(selector.on_change("/ap/a"), RebindAction::Keep));
    assert!(matches!(selector.on_change("/ap/b"), RebindAction::Rebind(Some(_))));
    assert!(matches!(selector.on_change("/ap/a"), RebindAction::Rebind(Some(_))));
    assert_eq!(selector.epoch, epoch_a + 2);

    // an event of the first a-session is stale after the switch back
    assert!(!selector.accepts(epoch_a));
    assert!(selector.accepts(epoch_a + 2));
}

#[test]
fn sentinel_change_unbinds() {
    let mut selector = ActiveSelector::new();
    selector.on_change("/ap/a");
    match selector.on_change("/") {
        RebindAction::Rebind(target) => assert_eq!(target, None),
        _ => panic!("expected an unbind"),
    }
    // already unbound: the sentinel again changes nothing
    assert!(matches!(selector.on_change(""), RebindAction::Keep));
}

#[test]
fn strength_mirror_pulls_after_rebind_and_drops_stale_pushes() {
    let mut mirror = StrengthMirror::new();
    assert!(!mirror.take_pending_read());

    mirror.on_selector_change("/modem/0");
    let session = mirror.selector.epoch;
    // the first reading is pulled eagerly, exactly once
    assert!(mirror.take_pending_read());
    assert!(!mirror.take_pending_read());

    // a push of the current session is published, a stale one is dropped
    assert_eq!(mirror.on_strength(session, 70), Some(70));
    assert_eq!(mirror.on_strength(session - 1, 95), None);

    // rebinding to nothing: no eager read is possible
    mirror.on_selector_change("/");
    assert!(!mirror.take_pending_read());
    assert_eq!(mirror.on_strength(session, 70), None);
}
