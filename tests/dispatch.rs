use dodemansknop::dispatch::{Dispatch, DispatchAction};
use dodemansknop::notifier::{Delivery, NoOpNotifier, Notifier, SlackNotifier, WebhookNotifier};
use dodemansknop::registry::HeartbeatRegistry;

fn run(outcomes: &[bool]) -> (Vec<usize>, Vec<usize>, Vec<usize>) {
    let mut d = Dispatch::new(outcomes.len());
    let mut attempted = Vec::new();
    while let DispatchAction::Attempt(i) = d.next_action() {
        attempted.push(i);
        d.record(outcomes[i]);
    }
    assert!(d.is_finished());
    (attempted, d.delivered().clone(), d.failed().clone())
}

#[test]
fn failing_notifier_does_not_stop_the_others() {
    for bad in 0..3 {
        let mut outcomes = vec![true, true, true];
        outcomes[bad] = false;
        let (attempted, delivered, failed) = run(&outcomes);
        assert_eq!(attempted, vec![0, 1, 2]);
        let expected: Vec<usize> = (0..3).filter(|i| *i != bad).collect();
        assert_eq!(delivered, expected);
        assert_eq!(failed, vec![bad]);
    }
}

#[test]
fn every_notifier_receives_the_alert() {
    let (attempted, delivered, failed) = run(&[true, true, true]);
    assert_eq!(attempted, vec![0, 1, 2]);
    assert_eq!(delivered, vec![0, 1, 2]);
    assert!(failed.is_empty());
}

#[test]
fn no_notifiers_finishes_at_once() {
    let d = Dispatch::new(0);
    assert!(matches!(d.next_action(), DispatchAction::Finished));
    assert!(d.is_finished());
}

#[test]
fn all_failing_are_all_recorded() {
    let (attempted, delivered, failed) = run(&[false, false]);
    assert_eq!(attempted, vec![0, 1]);
    assert!(delivered.is_empty());
    assert_eq!(failed, vec![0, 1]);
}

#[test]
fn expired_key_reaches_every_configured_notifier() {
    let notifiers = vec![
        Notifier::Webhook(WebhookNotifier::new("w".to_string(), "POST".to_string(), None, vec![])),
        Notifier::Slack(SlackNotifier::new("s".to_string(), "e".to_string(), "c".to_string())),
        Notifier::NoOp(NoOpNotifier {}),
    ];
    let mut r = HeartbeatRegistry::new(2);
    r.record_ping("svc-a".to_string(), 0);
    assert!(r.expire(1).is_empty());
    let alerts = r.expire(2);
    assert_eq!(alerts.len(), 1);
    assert_eq!(alerts[0].id, "svc-a");

    let mut d = Dispatch::new(notifiers.len());
    let mut sent = 0;
    while let DispatchAction::Attempt(i) = d.next_action() {
        let ok = match notifiers[i].notify_failure(&alerts[0]) {
            Ok(Delivery::Send(_)) => {
                sent += 1;
                true
            }
            Ok(Delivery::Skip) => true,
            Err(_) => false,
        };
        d.record(ok);
    }
    assert_eq!(sent, 2);
    assert_eq!(d.delivered().clone(), vec![0, 1, 2]);
}
