use dodemansknop::alert::Alert;
use dodemansknop::registry::HeartbeatRegistry;

fn ids(alerts: &[Alert]) -> Vec<String> {
    let mut v: Vec<String> = alerts.iter().map(|a| a.id.clone()).collect();
    v.sort();
    v
}

#[test]
fn single_ping_alerts_once_after_timeout() {
    let mut r = HeartbeatRegistry::new(2);
    r.record_ping("svc-a".to_string(), 0);
    assert!(r.expire(1).is_empty());
    let alerts = r.expire(2);
    assert_eq!(ids(&alerts), vec!["svc-a".to_string()]);
    assert_eq!(alerts[0].fired_at, 2);
    assert!(r.expire(3).is_empty());
    assert!(r.expire(100).is_empty());
    assert_eq!(r.len(), 0);
}

#[test]
fn regular_pings_hold_off_the_alert() {
    let mut r = HeartbeatRegistry::new(2);
    for t in 0..4u64 {
        assert!(r.expire(t).is_empty());
        r.record_ping("k".to_string(), t);
    }
    assert!(r.expire(4).is_empty());
    assert_eq!(ids(&r.expire(5)), vec!["k".to_string()]);
}

#[test]
fn ping_before_deadline_cancels_it() {
    let mut r = HeartbeatRegistry::new(2);
    r.record_ping("k".to_string(), 0);
    r.record_ping("k".to_string(), 1);
    assert_eq!(r.deadline(&"k".to_string()), Some(3));
    assert!(r.expire(2).is_empty());
    assert_eq!(ids(&r.expire(3)), vec!["k".to_string()]);
}

#[test]
fn keys_are_independent() {
    let mut r = HeartbeatRegistry::new(10);
    r.record_ping("a".to_string(), 0);
    r.record_ping("b".to_string(), 5);
    r.record_ping("a".to_string(), 8);
    assert_eq!(r.deadline(&"b".to_string()), Some(15));
    assert!(r.expire(14).is_empty());
    assert_eq!(ids(&r.expire(15)), vec!["b".to_string()]);
    assert_eq!(r.deadline(&"a".to_string()), Some(18));
    assert_eq!(ids(&r.expire(18)), vec!["a".to_string()]);
}

#[test]
fn repeated_pings_match_a_single_last_ping() {
    let mut many = HeartbeatRegistry::new(30);
    for t in [3u64, 4, 4, 7, 9] {
        many.record_ping("k".to_string(), t);
    }
    let mut once = HeartbeatRegistry::new(30);
    once.record_ping("k".to_string(), 9);
    assert_eq!(many.deadline(&"k".to_string()), once.deadline(&"k".to_string()));
    assert_eq!(many.deadline(&"k".to_string()), Some(39));
    assert_eq!(many.len(), 1);
}

#[test]
fn fired_expiry_is_not_suppressed_by_a_late_ping() {
    // Time in tenths: timeout 2 units, pings at 0 and 2.5.
    let mut r = HeartbeatRegistry::new(20);
    r.record_ping("svc-a".to_string(), 0);
    let fired = r.expire(20);
    assert_eq!(ids(&fired), vec!["svc-a".to_string()]);
    r.record_ping("svc-a".to_string(), 25);
    assert_eq!(r.deadline(&"svc-a".to_string()), Some(45));
    assert!(r.expire(44).is_empty());
    assert_eq!(ids(&r.expire(45)), vec!["svc-a".to_string()]);
}

#[test]
fn pings_within_the_window_fire_only_after_the_last() {
    // Time in tenths: timeout 2 units, pings at 0, 1 and 2.5.
    let mut r = HeartbeatRegistry::new(20);
    r.record_ping("svc-a".to_string(), 0);
    assert!(r.expire(10).is_empty());
    r.record_ping("svc-a".to_string(), 10);
    assert!(r.expire(20).is_empty());
    assert!(r.expire(25).is_empty());
    r.record_ping("svc-a".to_string(), 25);
    assert!(r.expire(44).is_empty());
    assert_eq!(ids(&r.expire(45)), vec!["svc-a".to_string()]);
}

#[test]
fn several_keys_expire_together() {
    let mut r = HeartbeatRegistry::new(5);
    r.record_ping("x".to_string(), 0);
    r.record_ping("y".to_string(), 1);
    r.record_ping("z".to_string(), 3);
    assert_eq!(r.next_deadline(), Some(5));
    assert_eq!(ids(&r.expire(6)), vec!["x".to_string(), "y".to_string()]);
    assert_eq!(r.len(), 1);
    assert_eq!(r.next_deadline(), Some(8));
}

#[test]
fn empty_registry_has_nothing_due() {
    let mut r = HeartbeatRegistry::new(5);
    assert_eq!(r.next_deadline(), None);
    assert_eq!(r.deadline(&"x".to_string()), None);
    assert!(r.expire(u64::MAX).is_empty());
    assert_eq!(r.timeout(), 5);
}

#[test]
fn deadline_saturates_at_the_largest_instant() {
    let mut r = HeartbeatRegistry::new(10);
    r.record_ping("k".to_string(), u64::MAX - 3);
    assert_eq!(r.deadline(&"k".to_string()), Some(u64::MAX));
    assert!(r.expire(u64::MAX - 1).is_empty());
    assert_eq!(r.expire(u64::MAX).len(), 1);
}

#[test]
fn shutdown_drops_every_deadline() {
    let mut r = HeartbeatRegistry::new(5);
    r.record_ping("a".to_string(), 0);
    r.record_ping("b".to_string(), 0);
    r.shutdown();
    assert_eq!(r.len(), 0);
    assert!(r.expire(100).is_empty());
}
