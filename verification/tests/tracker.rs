use liischte::tracker::{additions, removals};

fn idents(v: &[&str]) -> Vec<String> {
    v.iter().map(|s| s.to_string()).collect()
}

#[test]
fn reconcile_plans_drop_then_add() {
    let current = idents(&["/c/1", "/c/2", "/c/3"]);
    let next = idents(&["/c/2", "/c/4"]);
    assert_eq!(removals(&current, &next), idents(&["/c/1", "/c/3"]));
    assert_eq!(additions(&current, &next), idents(&["/c/4"]));
}

#[test]
fn reconcile_twice_with_the_same_set_is_a_no_op() {
    let current = idents(&["/c/1", "/c/2"]);
    let next = idents(&["/c/2", "/c/1"]);
    // after a successful first reconcile the tracked set equals the list:
    // the second invocation plans no unbind and no bind
    assert_eq!(removals(&next, &next), idents(&[]));
    assert_eq!(additions(&next, &next), idents(&[]));
    // order does not matter, membership does
    assert_eq!(removals(&current, &next), idents(&[]));
    assert_eq!(additions(&current, &next), idents(&[]));
}

#[test]
fn additions_bind_a_reused_identity_once() {
    let current = idents(&[]);
    let next = idents(&["/c/7", "/c/7", "/c/8"]);
    assert_eq!(additions(&current, &next), idents(&["/c/7", "/c/8"]));
}

#[test]
fn empty_list_drops_everything() {
    let current = idents(&["/c/1"]);
    let next = idents(&[]);
    assert_eq!(removals(&current, &next), idents(&["/c/1"]));
    assert_eq!(additions(&current, &next), idents(&[]));
}
