//! Configuration and the shared outcome record.

use vstd::prelude::*;

verus! {

/// Where the metrics endpoint listens, and whether it runs.
pub struct CanaryMetricsConfig {
    pub address: String,
    pub enabled: bool,
}

impl Default for CanaryMetricsConfig {
    fn default() -> (r: Self)
        ensures
            r.address@ == Seq::<char>::empty(),
            !r.enabled,
    {
        CanaryMetricsConfig { address: String::new(), enabled: false }
    }
}

/// Where the health-check endpoint listens, and whether it runs.
pub struct CanaryHealthCheckConfig {
    pub address: String,
    pub enabled: bool,
}

impl Default for CanaryHealthCheckConfig {
    fn default() -> (r: Self)
        ensures
            r.address@ == Seq::<char>::empty(),
            !r.enabled,
    {
        CanaryHealthCheckConfig { address: String::new(), enabled: false }
    }
}

/// Mail settings for alert delivery.
pub struct CanaryEmailAlertConfig {
    pub alert_email: String,
    pub smtp_server: String,
    pub smtp_username: String,
    pub smtp_password: String,
}

impl Default for CanaryEmailAlertConfig {
    fn default() -> (r: Self)
        ensures
            r.alert_email@ == Seq::<char>::empty(),
            r.smtp_server@ == Seq::<char>::empty(),
            r.smtp_username@ == Seq::<char>::empty(),
            r.smtp_password@ == Seq::<char>::empty(),
    {
        CanaryEmailAlertConfig {
            alert_email: String::new(),
            smtp_server: String::new(),
            smtp_username: String::new(),
            smtp_password: String::new(),
        }
    }
}

/// Global alerting switch and the optional mail channel.
pub struct CanaryAlertConfig {
    pub enabled: bool,
    pub email: Option<CanaryEmailAlertConfig>,
}

impl Default for CanaryAlertConfig {
    fn default() -> (r: Self)
        ensures
            !r.enabled,
            r.email is None,
    {
        CanaryAlertConfig { enabled: false, email: None }
    }
}

/// The whole configuration, loaded once at startup.
pub struct CanaryConfig {
    pub alert: CanaryAlertConfig,
    pub health_check: Option<CanaryHealthCheckConfig>,
    pub metrics: Option<CanaryMetricsConfig>,
    pub server_listen_address: String,
    pub targets: CanaryTargetTypes,
}

/// Monitored targets, by probe kind.
pub struct CanaryTargetTypes {
    pub http: Vec<CanaryTarget>,
}

/// One monitored endpoint. Its `name` is the stable identity under which
/// alert history is kept.
pub struct CanaryTarget {
    pub alert: bool,
    pub basic_auth: Option<Auth>,
    pub host: String,
    pub interval_s: u64,
    pub name: String,
    pub tag_metric: Option<String>,
    pub tag: Option<String>,
}

/// A basic-auth credential.
pub struct Auth {
    pub username: String,
    pub password: Option<String>,
}

/// Copies an optional string exactly.
pub fn clone_opt_string(o: &Option<String>) -> (r: Option<String>)
    ensures
        r == *o,
{
    match o {
        Some(s) => Some(s.clone()),
        None => None,
    }
}

impl Clone for Auth {
    fn clone(&self) -> (r: Self)
        ensures
            r == *self,
    {
        Auth { username: self.username.clone(), password: clone_opt_string(&self.password) }
    }
}

impl Clone for CanaryTarget {
    fn clone(&self) -> (r: Self)
        ensures
            r == *self,
    {
        let basic_auth = match &self.basic_auth {
            Some(a) => Some(a.clone()),
            None => None,
        };
        CanaryTarget {
            alert: self.alert,
            basic_auth,
            host: self.host.clone(),
            interval_s: self.interval_s,
            name: self.name.clone(),
            tag_metric: clone_opt_string(&self.tag_metric),
            tag: clone_opt_string(&self.tag),
        }
    }
}

impl Auth {
    /// The credential as it is published: a fixed placeholder that keeps
    /// nothing of the real credential.
    pub fn redacted() -> (r: Auth)
        ensures
            is_placeholder(r),
    {
        Auth { username: String::from_str("redacted"), password: None }
    }

    /// A printable form that shows neither user name nor password.
    pub fn debug_string(&self) -> (r: String)
        ensures
            r@ == "Auth { ... }"@,
    {
        String::from_str("Auth { ... }")
    }
}

/// `a` is the published placeholder credential.
pub open spec fn is_placeholder(a: Auth) -> bool {
    a.username@ == "redacted"@ && a.password is None
}

/// `w` is `t` as published: every field kept, except that a credential is
/// replaced by the placeholder.
pub open spec fn is_redacted_target(w: CanaryTarget, t: CanaryTarget) -> bool {
    &&& w.alert == t.alert
    &&& w.host == t.host
    &&& w.interval_s == t.interval_s
    &&& w.name == t.name
    &&& w.tag_metric == t.tag_metric
    &&& w.tag == t.tag
    &&& (w.basic_auth is Some <==> t.basic_auth is Some)
    &&& (w.basic_auth matches Some(a) ==> is_placeholder(a))
}

impl CanaryTarget {
    /// This target with its credential, if any, replaced by the placeholder.
    pub fn redacted(&self) -> (r: CanaryTarget)
        ensures
            is_redacted_target(r, *self),
    {
        let basic_auth = match &self.basic_auth {
            Some(_) => Some(Auth::redacted()),
            None => None,
        };
        CanaryTarget {
            alert: self.alert,
            basic_auth,
            host: self.host.clone(),
            interval_s: self.interval_s,
            name: self.name.clone(),
            tag_metric: clone_opt_string(&self.tag_metric),
            tag: clone_opt_string(&self.tag),
        }
    }
}

/// The public status vocabulary.
#[derive(Debug, Clone, Copy, PartialEq, Eq, Hash, Structural)]
pub enum Status {
    Okay,
    Fire,
    Unknown,
}

/// The outcome of one poll cycle of one target.
pub struct CanaryCheck {
    pub alert: bool,
    pub latency_ms: u64,
    pub need_to_alert: bool,
    pub status_code: String,
    pub status_reason: String,
    pub status: Status,
    pub target: CanaryTarget,
    pub time: String,
}

impl Clone for CanaryCheck {
    fn clone(&self) -> (r: Self)
        ensures
            r == *self,
    {
        CanaryCheck {
            alert: self.alert,
            latency_ms: self.latency_ms,
            need_to_alert: self.need_to_alert,
            status_code: self.status_code.clone(),
            status_reason: self.status_reason.clone(),
            status: self.status,
            target: self.target.clone(),
            time: self.time.clone(),
        }
    }
}

/// `w` is the published form of `c`: the outcome kept, the credential
/// replaced by the placeholder.
pub open spec fn is_published_form(w: CanaryCheck, c: CanaryCheck) -> bool {
    &&& w.alert == c.alert
    &&& w.latency_ms == c.latency_ms
    &&& w.need_to_alert == c.need_to_alert
    &&& w.status_code == c.status_code
    &&& w.status_reason == c.status_reason
    &&& w.status == c.status
    &&& w.time == c.time
    &&& is_redacted_target(w.target, c.target)
}

impl CanaryCheck {
    /// The form in which an outcome leaves the process.
    pub fn published(&self) -> (r: CanaryCheck)
        ensures
            is_published_form(r, *self),
    {
        CanaryCheck {
            alert: self.alert,
            latency_ms: self.latency_ms,
            need_to_alert: self.need_to_alert,
            status_code: self.status_code.clone(),
            status_reason: self.status_reason.clone(),
            status: self.status,
            target: self.target.redacted(),
            time: self.time.clone(),
        }
    }
}

/// Publishing keeps what an outcome says (status, code summary, latency and
/// both alert flags), never carries a credential other than the placeholder,
/// and publishing an already published outcome changes nothing of this.
pub proof fn lemma_publishing_keeps_outcome(c: CanaryCheck, w: CanaryCheck, w2: CanaryCheck)
    requires
        is_published_form(w, c),
        is_published_form(w2, w),
    ensures
        w.status == c.status,
        w.status_code == c.status_code,
        w.latency_ms == c.latency_ms,
        w.alert == c.alert,
        w.need_to_alert == c.need_to_alert,
        w.target.basic_auth matches Some(a) ==> is_placeholder(a),
        w2.target.basic_auth matches Some(a) ==> is_placeholder(a),
        is_published_form(w2, c),
{
}

} // verus!
