use dodemansknop::alert::Alert;
use dodemansknop::method::effective_method;
use dodemansknop::notifier::{
    BodyTemplate, Delivery, Field, NoOpNotifier, Notifier, NotifyError, Payload, SlackNotifier,
    WebhookNotifier,
};

fn alert(id: &str) -> Alert {
    Alert::new(id.to_string(), 7)
}

fn text(f: &Field) -> String {
    match f {
        Field::Text(s) => s.clone(),
        Field::Kept(_) => panic!("expected a text field"),
    }
}

fn webhook(body: Option<BodyTemplate>) -> WebhookNotifier {
    WebhookNotifier::new(
        "http://example.test/hook".to_string(),
        "post".to_string(),
        body,
        vec![("X-Token".to_string(), "abc".to_string())],
    )
}

#[test]
fn webhook_template_keeps_its_fields() {
    let template = BodyTemplate::Object(vec![("a".to_string(), serde_json::Value::from(1))]);
    let w = webhook(Some(template));
    let req = match w.notify_failure(&alert("svc-x")) {
        Ok(r) => r,
        Err(_) => panic!("webhook failed"),
    };
    let fields = match &req.body {
        Payload::Fields(f) => f,
        Payload::Slack { .. } => panic!("wrong payload"),
    };
    assert_eq!(fields.len(), 3);
    assert_eq!(fields[0].0, "a");
    match &fields[0].1 {
        Field::Kept(v) => assert_eq!(*v, serde_json::Value::from(1)),
        Field::Text(_) => panic!("template field replaced"),
    }
    assert_eq!(fields[1].0, "id");
    assert_eq!(text(&fields[1].1), "svc-x");
    assert_eq!(fields[2].0, "message");
    assert_eq!(text(&fields[2].1), "service svc-x missed its dead mans switch");
    assert_eq!(req.method, "POST");
    assert_eq!(req.url, "http://example.test/hook");
    assert_eq!(req.headers, vec![("X-Token".to_string(), "abc".to_string())]);
}

#[test]
fn webhook_template_fields_id_and_message_are_overwritten() {
    let template = BodyTemplate::Object(vec![
        ("id".to_string(), serde_json::Value::from("old")),
        ("b".to_string(), serde_json::Value::Bool(true)),
        ("message".to_string(), serde_json::Value::from(3)),
    ]);
    let req = webhook(Some(template)).notify_failure(&alert("k")).ok().unwrap();
    let fields = match &req.body {
        Payload::Fields(f) => f,
        Payload::Slack { .. } => panic!("wrong payload"),
    };
    let names: Vec<&str> = fields.iter().map(|f| f.0.as_str()).collect();
    assert_eq!(names, vec!["b", "id", "message"]);
    assert_eq!(text(&fields[1].1), "k");
}

#[test]
fn webhook_without_template_sends_id_and_message() {
    for body in [None, Some(BodyTemplate::Null)] {
        let req = webhook(body).notify_failure(&alert("svc")).ok().unwrap();
        match &req.body {
            Payload::Fields(f) => {
                assert_eq!(f.len(), 2);
                assert_eq!(f[0].0, "id");
                assert_eq!(f[1].0, "message");
            }
            Payload::Slack { .. } => panic!("wrong payload"),
        }
    }
}

#[test]
fn webhook_template_that_is_no_object_fails() {
    let w = webhook(Some(BodyTemplate::Other(serde_json::Value::from(vec![1, 2]))));
    assert!(matches!(w.notify_failure(&alert("k")), Err(NotifyError::TemplateNotObject)));
}

#[test]
fn webhook_method_is_upper_cased() {
    let w = WebhookNotifier::new("u".to_string(), "patch".to_string(), None, vec![]);
    assert_eq!(w.method(), "PATCH");
    let req = w.notify_failure(&alert("k")).ok().unwrap();
    assert_eq!(req.method, "PATCH");
}

#[test]
fn refused_method_falls_back_to_get() {
    assert_eq!(effective_method(&"BAD METHOD".to_string()), "GET");
    assert_eq!(effective_method(&"".to_string()), "GET");
    assert_eq!(effective_method(&"PUT".to_string()), "PUT");
    assert_eq!(effective_method(&"PURGE".to_string()), "PURGE");
    let w = WebhookNotifier::new("u".to_string(), "a,b".to_string(), None, vec![]);
    assert_eq!(w.notify_failure(&alert("k")).ok().unwrap().method, "GET");
}

#[test]
fn slack_message_names_the_key() {
    let s = SlackNotifier::new(
        "http://chat.test".to_string(),
        ":skull:".to_string(),
        "#ff0000".to_string(),
    );
    let req = s.notify_failure(&alert("svc-b"));
    assert_eq!(req.method, "POST");
    assert_eq!(req.url, "http://chat.test");
    assert!(req.headers.is_empty());
    match &req.body {
        Payload::Slack { color, text } => {
            assert_eq!(color, "#ff0000");
            assert_eq!(
                text,
                "**:skull: Dead Mans Switch missed**\nService svc-b missed its dead mans switch"
            );
        }
        Payload::Fields(_) => panic!("wrong payload"),
    }
}

#[test]
fn noop_notifier_always_succeeds() {
    let n = Notifier::NoOp(NoOpNotifier {});
    assert!(matches!(n.notify_failure(&alert("k")), Ok(Delivery::Skip)));
    assert!(matches!(NoOpNotifier::default().notify_failure(&alert("k")), Delivery::Skip));
}

#[test]
fn notifier_kinds_produce_their_requests() {
    let s = Notifier::Slack(SlackNotifier::new("s".to_string(), "e".to_string(), "c".to_string()));
    match s.notify_failure(&alert("k")) {
        Ok(Delivery::Send(req)) => assert_eq!(req.url, "s"),
        _ => panic!("slack did not produce a request"),
    }
    let w = Notifier::Webhook(webhook(None));
    match w.notify_failure(&alert("k")) {
        Ok(Delivery::Send(req)) => assert_eq!(req.url, "http://example.test/hook"),
        _ => panic!("webhook did not produce a request"),
    }
    let bad = Notifier::Webhook(webhook(Some(BodyTemplate::Other(serde_json::Value::from("x")))));
    assert!(matches!(bad.notify_failure(&alert("k")), Err(NotifyError::TemplateNotObject)));
}
