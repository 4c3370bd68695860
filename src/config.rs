use vstd::prelude::*;

use crate::method::upper_of;
use crate::notifier::{BodyTemplate, NoOpNotifier, Notifier, SlackNotifier, WebhookNotifier};

verus! {

/// Settings of a chat-webhook notifier.
pub struct SlackSettings {
    pub url: String,
    pub icon_emoji: String,
    pub color: String,
}

/// Settings of a generic webhook notifier.
pub struct WebhookSettings {
    pub url: String,
    pub method: String,
    pub body: Option<BodyTemplate>,
    pub headers: Option<Vec<(String, String)>>,
}

/// The settings of one notifier: its kind by name, and the settings of that kind.
pub struct NotifierSettings {
    pub notifier_type: String,
    pub webhook: Option<WebhookSettings>,
    pub slack: Option<SlackSettings>,
}

/// The settings of the whole monitor.
pub struct Settings {
    pub notifiers: Vec<NotifierSettings>,
    /// The timeout in seconds; 30 where it is not set.
    pub timeout: Option<i64>,
}

/// Why a notifier cannot be built from its settings.
pub enum ConfigError {
    MissingWebhookSettings,
    MissingSlackSettings,
    UnknownNotifierType(String),
}

/// The method of a webhook whose settings name none.
pub fn default_method() -> (r: String)
    ensures
        r@ == "POST"@,
{
    String::from_str("POST")
}

/// The fields of a body template, or none where it is not an object.
pub open spec fn template_entries(b: Option<BodyTemplate>) -> Seq<(String, serde_json::Value)> {
    match b {
        Some(BodyTemplate::Object(t)) => t@,
        _ => Seq::empty(),
    }
}

/// The template is JSON `null`.
pub open spec fn template_null(b: Option<BodyTemplate>) -> bool {
    b matches Some(BodyTemplate::Null)
}

/// The template is JSON but not an object.
pub open spec fn template_other(b: Option<BodyTemplate>) -> bool {
    b matches Some(BodyTemplate::Other(_))
}

/// Two templates that give the same payloads.
pub open spec fn same_template(a: Option<BodyTemplate>, b: Option<BodyTemplate>) -> bool {
    &&& a.is_some() == b.is_some()
    &&& template_entries(a) == template_entries(b)
    &&& template_null(a) == template_null(b)
    &&& template_other(a) == template_other(b)
    &&& (a matches Some(BodyTemplate::Object(_))) == (b matches Some(BodyTemplate::Object(_)))
}

/// Why `cfg` cannot be built, if it cannot.
pub open spec fn failure_of(cfg: NotifierSettings) -> Option<ConfigError> {
    if cfg.notifier_type@ == "webhook"@ {
        if cfg.webhook is Some {
            None
        } else {
            Some(ConfigError::MissingWebhookSettings)
        }
    } else if cfg.notifier_type@ == "slack"@ {
        if cfg.slack is Some {
            None
        } else {
            Some(ConfigError::MissingSlackSettings)
        }
    } else if cfg.notifier_type@ == "noop"@ {
        None
    } else {
        Some(ConfigError::UnknownNotifierType(cfg.notifier_type))
    }
}

/// `n` is the notifier that `cfg` describes.
pub open spec fn built_from(n: Notifier, cfg: NotifierSettings) -> bool {
    if cfg.notifier_type@ == "webhook"@ {
        let s = cfg.webhook->Some_0;
        n matches Notifier::Webhook(w) && w.url_spec() == s.url@ && w.method_spec() == upper_of(
            s.method@,
        ) && same_template(w.body_spec(), s.body) && w.headers_spec() == match s.headers {
            Some(h) => h@,
            None => Seq::empty(),
        }
    } else if cfg.notifier_type@ == "slack"@ {
        let s = cfg.slack->Some_0;
        n matches Notifier::Slack(k) && k.url_spec() == s.url@ && k.icon_emoji_spec()
            == s.icon_emoji@ && k.color_spec() == s.color@
    } else {
        n is NoOp
    }
}

fn copy_pairs(h: &Vec<(String, String)>) -> (r: Vec<(String, String)>)
    ensures
        r@ == h@,
{
    let mut out: Vec<(String, String)> = Vec::new();
    let mut i: usize = 0;
    while i < h.len()
        invariant
            i <= h@.len(),
            out@ == h@.subrange(0, i as int),
        decreases h@.len() - i,
    {
        out.push((h[i].0.clone(), h[i].1.clone()));
        assert(out@ =~= h@.subrange(0, i + 1));
        i = i + 1;
    }
    assert(out@ =~= h@);
    out
}

fn copy_template(b: &Option<BodyTemplate>) -> (r: Option<BodyTemplate>)
    ensures
        same_template(r, *b),
{
    match b {
        None => None,
        Some(BodyTemplate::Null) => Some(BodyTemplate::Null),
        Some(BodyTemplate::Other(v)) => Some(BodyTemplate::Other(v.clone())),
        Some(BodyTemplate::Object(t)) => {
            let mut out: Vec<(String, serde_json::Value)> = Vec::new();
            let mut i: usize = 0;
            while i < t.len()
                invariant
                    i <= t@.len(),
                    out@ == t@.subrange(0, i as int),
                decreases t@.len() - i,
            {
                out.push((t[i].0.clone(), t[i].1.clone()));
                assert(out@ =~= t@.subrange(0, i + 1));
                i = i + 1;
            }
            assert(out@ =~= t@);
            Some(BodyTemplate::Object(out))
        },
    }
}

/// Builds the notifier that `cfg` describes, or says why it cannot.
pub fn build_notifier(cfg: &NotifierSettings) -> (r: Result<Notifier, ConfigError>)
    ensures
        match failure_of(*cfg) {
            Some(e) => r == Err::<Notifier, ConfigError>(e),
            None => r is Ok && built_from(r->Ok_0, *cfg),
        },
{
    if cfg.notifier_type == String::from_str("webhook") {
        match &cfg.webhook {
            Some(wh) => {
                let headers = match &wh.headers {
                    Some(h) => copy_pairs(h),
                    None => Vec::new(),
                };
                Ok(
                    Notifier::Webhook(
                        WebhookNotifier::new(
                            wh.url.clone(),
                            wh.method.clone(),
                            copy_template(&wh.body),
                            headers,
                        ),
                    ),
                )
            },
            None => Err(ConfigError::MissingWebhookSettings),
        }
    } else if cfg.notifier_type == String::from_str("slack") {
        match &cfg.slack {
            Some(s) => Ok(
                Notifier::Slack(
                    SlackNotifier::new(s.url.clone(), s.icon_emoji.clone(), s.color.clone()),
                ),
            ),
            None => Err(ConfigError::MissingSlackSettings),
        }
    } else if cfg.notifier_type == String::from_str("noop") {
        Ok(Notifier::NoOp(NoOpNotifier {}))
    } else {
        Err(ConfigError::UnknownNotifierType(cfg.notifier_type.clone()))
    }
}

/// Builds every configured notifier, in order; the first entry that cannot be
/// built decides the error.
pub fn build_notifier_set(cfx: &Settings) -> (r: Result<Vec<Notifier>, ConfigError>)
    ensures
        r is Ok <==> forall|i: int|
            0 <= i < cfx.notifiers@.len() ==> (#[trigger] failure_of(cfx.notifiers@[i])) is None,
        r is Ok ==> r->Ok_0@.len() == cfx.notifiers@.len() && forall|i: int|
            0 <= i < cfx.notifiers@.len() ==> built_from(
                #[trigger] r->Ok_0@[i],
                cfx.notifiers@[i],
            ),
        r is Err ==> exists|i: int|
            0 <= i < cfx.notifiers@.len() && (forall|j: int|
                0 <= j < i ==> (#[trigger] failure_of(cfx.notifiers@[j])) is None) && failure_of(
                #[trigger] cfx.notifiers@[i],
            ) == Some(r->Err_0),
{
    let mut out: Vec<Notifier> = Vec::new();
    let mut i: usize = 0;
    while i < cfx.notifiers.len()
        invariant
            i <= cfx.notifiers@.len(),
            out@.len() == i,
            forall|j: int| 0 <= j < i ==> (#[trigger] failure_of(cfx.notifiers@[j])) is None,
            forall|j: int| 0 <= j < i ==> built_from(#[trigger] out@[j], cfx.notifiers@[j]),
        decreases cfx.notifiers@.len() - i,
    {
        match build_notifier(&cfx.notifiers[i]) {
            Ok(n) => {
                out.push(n);
            },
            Err(e) => {
                return Err(e);
            },
        }
        i = i + 1;
    }
    Ok(out)
}

/// The timeout in seconds that `timeout` stands for.
pub open spec fn timeout_seconds_spec(timeout: Option<i64>) -> i64 {
    match timeout {
        Some(t) => t,
        None => 30,
    }
}

impl Settings {
    /// The configured timeout in seconds, 30 where none is set.
    pub fn timeout_seconds(&self) -> (r: i64)
        ensures
            r == timeout_seconds_spec(self.timeout),
    {
        match self.timeout {
            Some(t) => t,
            None => 30,
        }
    }

    /// The configured timeout in milliseconds: none for a negative timeout,
    /// and at most the largest `u64`.
    pub fn timeout_millis(&self) -> (r: u64)
        ensures
            r == (if timeout_seconds_spec(self.timeout) <= 0 {
                0
            } else if timeout_seconds_spec(self.timeout) * 1000 > u64::MAX {
                u64::MAX as int
            } else {
                timeout_seconds_spec(self.timeout) * 1000
            }),
    {
        let s = self.timeout_seconds();
        if s <= 0 {
            0
        } else {
            let secs = s as u64;
            if secs > u64::MAX / 1000 {
                u64::MAX
            } else {
                secs * 1000
            }
        }
    }
}

} // verus!
