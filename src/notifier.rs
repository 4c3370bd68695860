use vstd::prelude::*;

use crate::alert::Alert;
use crate::method::{effective_method, effective_method_spec, upper_of, uppercase};

verus! {

/// The text of a chat message about a missed heartbeat.
pub open spec fn slack_text(icon_emoji: Seq<char>, id: Seq<char>) -> Seq<char> {
    "**"@ + icon_emoji + " Dead Mans Switch missed**\nService "@ + id
        + " missed its dead mans switch"@
}

/// The human-readable message that a webhook request carries.
pub open spec fn webhook_message(id: Seq<char>) -> Seq<char> {
    "service "@ + id + " missed its dead mans switch"@
}

/// The fields that the notifier writes into a webhook payload itself.
pub open spec fn reserved_key(k: Seq<char>) -> bool {
    k == "id"@ || k == "message"@
}

/// The fields of a body template that survive into the payload, in order.
pub open spec fn kept_fields(t: Seq<(String, serde_json::Value)>) -> Seq<(String, serde_json::Value)>
    decreases t.len(),
{
    if t.len() == 0 {
        t
    } else if reserved_key(t.last().0@) {
        kept_fields(t.drop_last())
    } else {
        kept_fields(t.drop_last()).push(t.last())
    }
}

/// The body template of a webhook notifier, by the shape of the configured JSON.
pub enum BodyTemplate {
    /// A JSON object, as its fields in order.
    Object(Vec<(String, serde_json::Value)>),
    /// JSON `null`, which stands for an empty object.
    Null,
    /// Any other JSON value; no field can be merged into it.
    Other(serde_json::Value),
}

/// One field of an outgoing JSON payload.
pub enum Field {
    /// A string written by the notifier.
    Text(String),
    /// A value taken over from the body template.
    Kept(serde_json::Value),
}

/// `f` is a string field holding `s`.
pub open spec fn is_text(f: Field, s: Seq<char>) -> bool {
    match f {
        Field::Text(t) => t@ == s,
        Field::Kept(_) => false,
    }
}

/// The body of an outgoing request.
pub enum Payload {
    /// A JSON object, as its fields in order.
    Fields(Vec<(String, Field)>),
    /// A chat message: one attachment of the given color with one text section.
    Slack { color: String, text: String },
}

/// An HTTP request that delivers one alert.
pub struct Request {
    pub method: String,
    pub url: String,
    pub headers: Vec<(String, String)>,
    pub body: Payload,
}

/// What a notifier asks for to deliver one alert.
pub enum Delivery {
    /// Send this request.
    Send(Request),
    /// Nothing to send: the alert is only recorded locally.
    Skip,
}

/// Why a notifier did not deliver an alert.
pub enum NotifyError {
    /// The configured body template is JSON but not an object.
    TemplateNotObject,
    /// The request could not be built or sent, or was answered with a failure.
    Transport(String),
}

/// A notifier that delivers nothing.
#[derive(Clone, Copy, Default)]
pub struct NoOpNotifier {}

impl NoOpNotifier {
    pub fn notify_failure(&self, alert: &Alert) -> (r: Delivery)
        ensures
            r is Skip,
    {
        Delivery::Skip
    }
}

/// A notifier that posts a styled message to a chat-service webhook.
pub struct SlackNotifier {
    url: String,
    icon_emoji: String,
    color: String,
}

impl SlackNotifier {
    pub closed spec fn url_spec(&self) -> Seq<char> {
        self.url@
    }

    pub closed spec fn icon_emoji_spec(&self) -> Seq<char> {
        self.icon_emoji@
    }

    pub closed spec fn color_spec(&self) -> Seq<char> {
        self.color@
    }

    pub fn new(url: String, icon_emoji: String, color: String) -> (r: SlackNotifier)
        ensures
            r.url_spec() == url@,
            r.icon_emoji_spec() == icon_emoji@,
            r.color_spec() == color@,
    {
        SlackNotifier { url, icon_emoji, color }
    }

    pub fn url(&self) -> (r: &String)
        ensures
            r@ == self.url_spec(),
    {
        &self.url
    }

    pub fn icon_emoji(&self) -> (r: &String)
        ensures
            r@ == self.icon_emoji_spec(),
    {
        &self.icon_emoji
    }

    pub fn color(&self) -> (r: &String)
        ensures
            r@ == self.color_spec(),
    {
        &self.color
    }

    /// The request that reports `alert`: a POST to the webhook URL, without
    /// extra headers, carrying the notifier's color and a text naming the key.
    pub fn notify_failure(&self, alert: &Alert) -> (r: Request)
        ensures
            r.method@ == "POST"@,
            r.url@ == self.url_spec(),
            r.headers@.len() == 0,
            r.body matches Payload::Slack { color, text } && color@ == self.color_spec() && text@
                == slack_text(self.icon_emoji_spec(), alert.id@),
    {
        let mut text = String::from_str("**");
        text.append(self.icon_emoji.as_str());
        text.append(" Dead Mans Switch missed**\nService ");
        text.append(alert.id.as_str());
        text.append(" missed its dead mans switch");
        Request {
            method: String::from_str("POST"),
            url: self.url.clone(),
            headers: Vec::new(),
            body: Payload::Slack { color: self.color.clone(), text },
        }
    }
}

/// A notifier that sends a JSON payload to a configured URL.
pub struct WebhookNotifier {
    url: String,
    method: String,
    body: Option<BodyTemplate>,
    headers: Vec<(String, String)>,
}

fn is_reserved(k: &String) -> (r: bool)
    ensures
        r == reserved_key(k@),
{
    let id = String::from_str("id");
    let message = String::from_str("message");
    *k == id || *k == message
}

fn copy_headers(h: &Vec<(String, String)>) -> (r: Vec<(String, String)>)
    ensures
        r@ == h@,
{
    let mut out: Vec<(String, String)> = Vec::new();
    let mut i: usize = 0;
    while i < h.len()
        invariant
            i <= h@.len(),
            out@ == h@.subrange(0, i as int),
        decreases h@.len() - i,
    {
        let name = h[i].0.clone();
        let value = h[i].1.clone();
        out.push((name, value));
        assert(out@ =~= h@.subrange(0, i + 1));
        i = i + 1;
    }
    assert(out@ =~= h@);
    out
}

/// The payload that a webhook request carries: the fields of the template
/// other than `id` and `message`, in order, then `id` and `message`.
fn merge_fields(template: &Vec<(String, serde_json::Value)>, id: &String) -> (r: Vec<
    (String, Field),
>)
    ensures
        r@.len() == kept_fields(template@).len() + 2,
        forall|i: int|
            0 <= i < kept_fields(template@).len() ==> (#[trigger] r@[i]).0 == kept_fields(
                template@,
            )[i].0 && r@[i].1 == Field::Kept(kept_fields(template@)[i].1),
        r@[r@.len() - 2].0@ == "id"@,
        is_text(r@[r@.len() - 2].1, id@),
        r@[r@.len() - 1].0@ == "message"@,
        is_text(r@[r@.len() - 1].1, webhook_message(id@)),
{
    let mut out: Vec<(String, Field)> = Vec::new();
    let mut i: usize = 0;
    while i < template.len()
        invariant
            i <= template@.len(),
            out@.len() == kept_fields(template@.subrange(0, i as int)).len(),
            forall|j: int|
                0 <= j < out@.len() ==> (#[trigger] out@[j]).0 == kept_fields(
                    template@.subrange(0, i as int),
                )[j].0 && out@[j].1 == Field::Kept(
                    kept_fields(template@.subrange(0, i as int))[j].1,
                ),
        decreases template@.len() - i,
    {
        let ghost before = template@.subrange(0, i as int);
        let ghost after = template@.subrange(0, i + 1);
        assert(after.drop_last() =~= before);
        assert(after.last() == template@[i as int]);
        if !is_reserved(&template[i].0) {
            let name = template[i].0.clone();
            let value = template[i].1.clone();
            out.push((name, Field::Kept(value)));
        }
        i = i + 1;
    }
    assert(template@.subrange(0, template@.len() as int) =~= template@);
    out.push((String::from_str("id"), Field::Text(id.clone())));
    let mut message = String::from_str("service ");
    message.append(id.as_str());
    message.append(" missed its dead mans switch");
    out.push((String::from_str("message"), Field::Text(message)));
    out
}

impl WebhookNotifier {
    pub closed spec fn url_spec(&self) -> Seq<char> {
        self.url@
    }

    pub closed spec fn method_spec(&self) -> Seq<char> {
        self.method@
    }

    pub closed spec fn body_spec(&self) -> Option<BodyTemplate> {
        self.body
    }

    pub closed spec fn headers_spec(&self) -> Seq<(String, String)> {
        self.headers@
    }

    /// A webhook notifier; the method name is kept in upper case.
    pub fn new(
        url: String,
        method: String,
        body: Option<BodyTemplate>,
        headers: Vec<(String, String)>,
    ) -> (r: WebhookNotifier)
        ensures
            r.url_spec() == url@,
            r.method_spec() == upper_of(method@),
            r.body_spec() == body,
            r.headers_spec() == headers@,
    {
        WebhookNotifier { url, method: uppercase(method.as_str()), body, headers }
    }

    pub fn url(&self) -> (r: &String)
        ensures
            r@ == self.url_spec(),
    {
        &self.url
    }

    pub fn method(&self) -> (r: &String)
        ensures
            r@ == self.method_spec(),
    {
        &self.method
    }

    pub fn headers(&self) -> (r: &Vec<(String, String)>)
        ensures
            r@ == self.headers_spec(),
    {
        &self.headers
    }

    /// The request that reports `alert`. It goes to the configured URL with
    /// the configured headers and the configured method, or `GET` where the
    /// client refuses that name. Its body is the template object, or an empty
    /// one where there is none or it is `null`, with `id` set to the key and
    /// `message` to a text naming it. A template that is not an object fails.
    pub fn notify_failure(&self, alert: &Alert) -> (r: Result<Request, NotifyError>)
        ensures
            (self.body_spec() matches Some(BodyTemplate::Other(_))) <==> r is Err,
            r is Err ==> r->Err_0 is TemplateNotObject,
            r is Ok ==> ({
                let req = r->Ok_0;
                &&& req.method@ == effective_method_spec(self.method_spec())
                &&& req.url@ == self.url_spec()
                &&& req.headers@ == self.headers_spec()
                &&& req.body matches Payload::Fields(fs) && {
                    let kept = match self.body_spec() {
                        Some(BodyTemplate::Object(t)) => kept_fields(t@),
                        _ => Seq::<(String, serde_json::Value)>::empty(),
                    };
                    &&& fs@.len() == kept.len() + 2
                    &&& forall|i: int|
                        0 <= i < kept.len() ==> (#[trigger] fs@[i]).0 == kept[i].0 && fs@[i].1
                            == Field::Kept(kept[i].1)
                    &&& fs@[fs@.len() - 2].0@ == "id"@
                    &&& is_text(fs@[fs@.len() - 2].1, alert.id@)
                    &&& fs@[fs@.len() - 1].0@ == "message"@
                    &&& is_text(fs@[fs@.len() - 1].1, webhook_message(alert.id@))
                }
            }),
    {
        let empty: Vec<(String, serde_json::Value)> = Vec::new();
        let fields = match &self.body {
            Some(BodyTemplate::Object(t)) => merge_fields(t, &alert.id),
            Some(BodyTemplate::Other(_)) => {
                return Err(NotifyError::TemplateNotObject);
            },
            _ => merge_fields(&empty, &alert.id),
        };
        Ok(
            Request {
                method: effective_method(&self.method),
                url: self.url.clone(),
                headers: copy_headers(&self.headers),
                body: Payload::Fields(fields),
            },
        )
    }
}

/// A configured notifier, one of a closed set of kinds.
pub enum Notifier {
    Webhook(WebhookNotifier),
    Slack(SlackNotifier),
    NoOp(NoOpNotifier),
}

impl Notifier {
    /// What delivering `alert` takes: the kind's request, or nothing for the
    /// no-op kind. Only a webhook whose template is not an object fails.
    pub fn notify_failure(&self, alert: &Alert) -> (r: Result<Delivery, NotifyError>)
        ensures
            (self matches Notifier::Webhook(w) && w.body_spec() matches Some(
                BodyTemplate::Other(_),
            )) <==> r is Err,
            r is Err ==> r->Err_0 is TemplateNotObject,
            (self is NoOp) <==> (r matches Ok(Delivery::Skip)),
            self matches Notifier::Slack(s) ==> (r matches Ok(Delivery::Send(req)) && req.body
                matches Payload::Slack { color, text } && color@ == s.color_spec() && text@
                == slack_text(s.icon_emoji_spec(), alert.id@) && req.url@ == s.url_spec()),
            self matches Notifier::Webhook(w) ==> (r is Ok ==> (r matches Ok(Delivery::Send(req))
                && req.url@ == w.url_spec() && req.method@ == effective_method_spec(
                w.method_spec(),
            ))),
    {
        match self {
            Notifier::Webhook(w) => match w.notify_failure(alert) {
                Ok(req) => Ok(Delivery::Send(req)),
                Err(e) => Err(e),
            },
            Notifier::Slack(s) => Ok(Delivery::Send(s.notify_failure(alert))),
            Notifier::NoOp(n) => Ok(n.notify_failure(alert)),
        }
    }
}

} // verus!
