use liischte::timer::{parse_timer_request, TimerModule};

#[test]
fn timer_requests_decode_key_value_pairs() {
    let r = parse_timer_request("icon= alarm |duration=90|message= tea done ");
    assert_eq!(r.icon.as_deref(), Some("alarm"));
    assert_eq!(r.message.as_deref(), Some("tea done"));
    assert_eq!(r.duration, Some(90));
}

#[test]
fn repeated_keys_keep_the_last_value() {
    let r = parse_timer_request("duration=5|duration=10");
    assert_eq!(r.duration, Some(10));
}

#[test]
fn malformed_pieces_say_nothing() {
    let r = parse_timer_request("just words|color=red");
    assert_eq!(r.icon, None);
    assert_eq!(r.message, None);
    assert_eq!(r.duration, None);

    // a duration that is not a number counts as not given
    let r = parse_timer_request("duration=soon");
    assert_eq!(r.duration, None);
}

#[test]
fn timers_expire_in_order() {
    let mut module = TimerModule::new();
    module.create('\u{f017}', "first".to_string(), 1000, 0);
    module.create('\u{f017}', "second".to_string(), 5000, 0);
    module.create('\u{f017}', "third".to_string(), 1500, 100);

    // nothing expired yet: start + duration is not strictly past
    assert_eq!(module.expire(1000).len(), 0);

    let expired = module.expire(1700);
    assert_eq!(expired.len(), 2);
    assert_eq!(expired[0].message, "first");
    assert_eq!(expired[1].message, "third");
    assert_eq!(module.timers.len(), 1);
    assert_eq!(module.timers[0].message, "second");
}
