use liischte::fanout::Fanout;

#[test]
fn latest_value_wins_over_a_slow_consumer() {
    let mut chan: Fanout<&str> = Fanout::new();
    let mut sub = chan.subscribe();

    chan.publish("s1");
    chan.publish("s2");
    chan.publish("s3");

    // the slow consumer skips s1 and s2 and observes the latest write
    assert_eq!(chan.recv(&mut sub), Some(&"s3"));
    // nothing newer exists: no duplicate, no rollback to an older value
    assert_eq!(chan.recv(&mut sub), None);
}

#[test]
fn consumer_in_step_sees_every_value() {
    let mut chan: Fanout<u32> = Fanout::new();
    let mut sub = chan.subscribe();
    chan.publish(1);
    assert_eq!(chan.recv(&mut sub), Some(&1));
    chan.publish(2);
    assert_eq!(chan.recv(&mut sub), Some(&2));
    assert_eq!(chan.recv(&mut sub), None);
}

#[test]
fn subscription_starts_from_now() {
    let mut chan: Fanout<u32> = Fanout::new();
    chan.publish(10);
    chan.publish(20);
    // a fresh subscriber never replays history
    let mut late = chan.subscribe();
    assert_eq!(chan.recv(&mut late), None);
    chan.publish(30);
    assert_eq!(chan.recv(&mut late), Some(&30));
}

#[test]
fn independent_subscribers_do_not_block_each_other() {
    let mut chan: Fanout<u32> = Fanout::new();
    let mut a = chan.subscribe();
    let mut b = chan.subscribe();
    chan.publish(5);
    assert_eq!(chan.recv(&mut a), Some(&5));
    // b's lag never blocked the producer; b still gets the latest
    chan.publish(6);
    assert_eq!(chan.recv(&mut b), Some(&6));
    assert_eq!(chan.recv(&mut a), Some(&6));
}
