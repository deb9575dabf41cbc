//! Alert history and the decision whether an outcome is worth a notification.

use vstd::prelude::*;

use crate::config::{CanaryCheck, CanaryConfig, CanaryTarget, Status};
use crate::text::join_text;

verus! {

/// The last dispatched status of each target, keyed by target name.
pub struct AlertHistory {
    entries: Vec<(String, Status)>,
}

pub open spec fn unique_keys(entries: Seq<(String, Status)>) -> bool {
    forall|i: int, j: int|
        0 <= i < entries.len() && 0 <= j < entries.len() && #[trigger] entries[i].0@
            == #[trigger] entries[j].0@ ==> i == j
}

pub open spec fn has_key(entries: Seq<(String, Status)>, k: Seq<char>) -> bool {
    exists|i: int| 0 <= i < entries.len() && #[trigger] entries[i].0@ == k
}

pub open spec fn entries_map(entries: Seq<(String, Status)>) -> Map<Seq<char>, Status> {
    Map::new(
        |k: Seq<char>| has_key(entries, k),
        |k: Seq<char>| entries[choose|i: int| 0 <= i < entries.len() && #[trigger] entries[i].0@ == k].1,
    )
}

proof fn lemma_entry_in_map(entries: Seq<(String, Status)>, i: int)
    requires
        unique_keys(entries),
        0 <= i < entries.len(),
    ensures
        entries_map(entries).contains_key(entries[i].0@),
        entries_map(entries)[entries[i].0@] == entries[i].1,
{
    let k = entries[i].0@;
    assert(has_key(entries, k));
    let j = choose|j: int| 0 <= j < entries.len() && #[trigger] entries[j].0@ == k;
    assert(entries[j].0@ == entries[i].0@);
}

impl AlertHistory {
    /// At most one entry per target name.
    pub closed spec fn wf(&self) -> bool {
        unique_keys(self.entries@)
    }
}

impl View for AlertHistory {
    type V = Map<Seq<char>, Status>;

    closed spec fn view(&self) -> Map<Seq<char>, Status> {
        entries_map(self.entries@)
    }
}

impl AlertHistory {
    /// A history that has seen no target yet.
    pub fn new() -> (r: AlertHistory)
        ensures
            r.wf(),
            r@ == Map::<Seq<char>, Status>::empty(),
    {
        let r = AlertHistory { entries: Vec::new() };
        assert(r@ =~= Map::<Seq<char>, Status>::empty());
        r
    }

    fn find(&self, name: &String) -> (r: Option<usize>)
        ensures
            r matches Some(i) ==> i < self.entries@.len() && self.entries@[i as int].0@ == name@,
            r is None ==> !has_key(self.entries@, name@),
    {
        let mut i: usize = 0;
        while i < self.entries.len()
            invariant
                i <= self.entries@.len(),
                forall|j: int| 0 <= j < i ==> self.entries@[j].0@ != name@,
            decreases self.entries@.len() - i,
        {
            if self.entries[i].0 == *name {
                return Some(i);
            }
            i = i + 1;
        }
        None
    }

    /// The last status recorded for the target, if any.
    pub fn get(&self, target: &CanaryTarget) -> (r: Option<Status>)
        requires
            self.wf(),
        ensures
            r == (if self@.contains_key(target.name@) {
                Some(self@[target.name@])
            } else {
                None
            }),
    {
        match self.find(&target.name) {
            Some(i) => {
                proof {
                    lemma_entry_in_map(self.entries@, i as int);
                }
                Some(self.entries[i].1)
            },
            None => None,
        }
    }

    /// Records `status` as the target's last status, replacing any earlier one.
    pub fn insert(&mut self, target: CanaryTarget, status: Status)
        requires
            old(self).wf(),
        ensures
            final(self).wf(),
            final(self)@ == old(self)@.insert(target.name@, status),
    {
        let ghost old_entries = self.entries@;
        let k = target.name;
        let ghost kv = k@;
        match self.find(&k) {
            Some(i) => {
                self.entries.set(i, (k, status));
                proof {
                    let new_entries = self.entries@;
                    assert(unique_keys(new_entries)) by {
                        assert forall|a: int, b: int|
                            0 <= a < new_entries.len() && 0 <= b < new_entries.len()
                                && #[trigger] new_entries[a].0@ == #[trigger] new_entries[b].0@ implies a
                            == b by {
                            assert(old_entries[a].0@ == new_entries[a].0@);
                            assert(old_entries[b].0@ == new_entries[b].0@);
                        }
                    }
                    assert(entries_map(new_entries) =~= entries_map(old_entries).insert(kv, status))
                        by {
                        assert forall|k2: Seq<char>|
                            #[trigger] entries_map(new_entries).contains_key(k2)
                                <==> entries_map(old_entries).insert(kv, status).contains_key(
                                k2,
                            ) by {
                            if has_key(new_entries, k2) {
                                let j = choose|j: int|
                                    0 <= j < new_entries.len() && #[trigger] new_entries[j].0@ == k2;
                                assert(old_entries[j].0@ == k2);
                            }
                            if has_key(old_entries, k2) {
                                let j = choose|j: int|
                                    0 <= j < old_entries.len() && #[trigger] old_entries[j].0@ == k2;
                                assert(new_entries[j].0@ == k2);
                            }
                            if k2 == kv {
                                assert(new_entries[i as int].0@ == k2);
                            }
                        }
                        assert forall|k2: Seq<char>|
                            #[trigger] entries_map(new_entries).contains_key(k2) implies entries_map(
                                new_entries,
                            )[k2] == entries_map(old_entries).insert(kv, status)[k2] by {
                            let j = choose|j: int|
                                0 <= j < new_entries.len() && #[trigger] new_entries[j].0@ == k2;
                            lemma_entry_in_map(new_entries, j);
                            if j != i {
                                lemma_entry_in_map(old_entries, j);
                            }
                        }
                    }
                }
            },
            None => {
                self.entries.push((k, status));
                proof {
                    let new_entries = self.entries@;
                    let n = old_entries.len() as int;
                    assert(unique_keys(new_entries)) by {
                        assert forall|a: int, b: int|
                            0 <= a < new_entries.len() && 0 <= b < new_entries.len()
                                && #[trigger] new_entries[a].0@ == #[trigger] new_entries[b].0@ implies a
                            == b by {
                            if a < n && b < n {
                                assert(old_entries[a].0@ == old_entries[b].0@);
                            } else if a < n {
                                assert(old_entries[a].0@ == kv);
                            } else if b < n {
                                assert(old_entries[b].0@ == kv);
                            }
                        }
                    }
                    assert(entries_map(new_entries) =~= entries_map(old_entries).insert(kv, status))
                        by {
                        assert forall|k2: Seq<char>|
                            #[trigger] entries_map(new_entries).contains_key(k2)
                                <==> entries_map(old_entries).insert(kv, status).contains_key(
                                k2,
                            ) by {
                            if has_key(new_entries, k2) {
                                let j = choose|j: int|
                                    0 <= j < new_entries.len() && #[trigger] new_entries[j].0@ == k2;
                                if j < n {
                                    assert(old_entries[j].0@ == k2);
                                }
                            }
                            if has_key(old_entries, k2) {
                                let j = choose|j: int|
                                    0 <= j < old_entries.len() && #[trigger] old_entries[j].0@ == k2;
                                assert(new_entries[j].0@ == k2);
                            }
                            if k2 == kv {
                                assert(new_entries[n].0@ == k2);
                            }
                        }
                        assert forall|k2: Seq<char>|
                            #[trigger] entries_map(new_entries).contains_key(k2) implies entries_map(
                                new_entries,
                            )[k2] == entries_map(old_entries).insert(kv, status)[k2] by {
                            let j = choose|j: int|
                                0 <= j < new_entries.len() && #[trigger] new_entries[j].0@ == k2;
                            lemma_entry_in_map(new_entries, j);
                            if j < n {
                                lemma_entry_in_map(old_entries, j);
                            }
                        }
                    }
                }
            },
        }
    }
}

/// An outcome is spam when the history already holds the same status for
/// its target.
pub open spec fn is_spam(h: Map<Seq<char>, Status>, name: Seq<char>, status: Status) -> bool {
    h.contains_key(name) && h[name] == status
}

/// An outcome is a fix when the target was on fire or unknown and is now okay.
pub open spec fn is_fixed(h: Map<Seq<char>, Status>, name: Seq<char>, status: Status) -> bool {
    &&& h.contains_key(name)
    &&& (h[name] == Status::Fire || h[name] == Status::Unknown)
    &&& status == Status::Okay
}

/// Whether an outcome is sent as a notification: alerting must be on
/// globally and for the target, and the outcome must be a fix, or ask for
/// an alert without being spam.
pub open spec fn notify_for(alerts_enabled: bool, result: CanaryCheck, spam: bool, fixed: bool) -> bool {
    alerts_enabled && result.alert && (fixed || (result.need_to_alert && !spam))
}

/// Checks whether alerting on `result` would repeat the last known state.
pub fn check_spam(last_statuses: &AlertHistory, result: &CanaryCheck) -> (r: bool)
    requires
        last_statuses.wf(),
    ensures
        r == is_spam(last_statuses@, result.target.name@, result.status),
{
    match last_statuses.get(&result.target) {
        Some(status) => status == result.status,
        None => false,
    }
}

/// Checks whether `result` ends a fire or an unknown state.
pub fn check_fixed(last_statuses: &AlertHistory, result: &CanaryCheck) -> (r: bool)
    requires
        last_statuses.wf(),
    ensures
        r == is_fixed(last_statuses@, result.target.name@, result.status),
{
    match (last_statuses.get(&result.target), result.status) {
        (Some(Status::Fire), Status::Okay) | (Some(Status::Unknown), Status::Okay) => true,
        _ => false,
    }
}

/// Whether to notify about `result`, given whether it is spam and whether it
/// is a fix.
pub fn should_notify(alerts_enabled: bool, result: &CanaryCheck, is_spam: bool, is_fixed: bool) -> (r:
    bool)
    ensures
        r == notify_for(alerts_enabled, *result, is_spam, is_fixed),
{
    alerts_enabled && result.alert && (is_fixed || (result.need_to_alert && !is_spam))
}

impl AlertHistory {
    /// Takes in the next outcome: decides whether to notify about it against
    /// the history as it was, then records its status whatever the decision.
    pub fn observe(&mut self, alerts_enabled: bool, result: &CanaryCheck) -> (notify: bool)
        requires
            old(self).wf(),
        ensures
            final(self).wf(),
            final(self)@ == old(self)@.insert(result.target.name@, result.status),
            notify == notify_for(
                alerts_enabled,
                *result,
                is_spam(old(self)@, result.target.name@, result.status),
                is_fixed(old(self)@, result.target.name@, result.status),
            ),
    {
        let spam = check_spam(self, result);
        let fixed = check_fixed(self, result);
        self.insert(result.target.clone(), result.status);
        should_notify(alerts_enabled, result, spam, fixed)
    }
}

/// The history of one target after its first `t` statuses were recorded.
pub open spec fn replay(
    h: Map<Seq<char>, Status>,
    name: Seq<char>,
    statuses: Seq<Status>,
    t: nat,
) -> Map<Seq<char>, Status>
    decreases t,
{
    if t == 0 {
        h
    } else {
        replay(h, name, statuses, (t - 1) as nat).insert(name, statuses[t - 1])
    }
}

/// Along any sequence of statuses of one target that starts without
/// history, the outcome at step `t` is spam exactly when `t > 0` and it
/// repeats the status of step `t - 1`.
pub proof fn lemma_spam_exactly_on_repeat(
    h: Map<Seq<char>, Status>,
    name: Seq<char>,
    statuses: Seq<Status>,
    t: nat,
)
    requires
        !h.contains_key(name),
        t < statuses.len(),
    ensures
        is_spam(replay(h, name, statuses, t), name, statuses[t as int]) <==> (t > 0 && statuses[t
            - 1] == statuses[t as int]),
{
}

/// Along any sequence of statuses of one target that starts without
/// history, the outcome at step `t` is a fix exactly when `t > 0`, step
/// `t - 1` was on fire or unknown, and step `t` is okay.
pub proof fn lemma_fixed_exactly_on_recovery(
    h: Map<Seq<char>, Status>,
    name: Seq<char>,
    statuses: Seq<Status>,
    t: nat,
)
    requires
        !h.contains_key(name),
        t < statuses.len(),
    ensures
        is_fixed(replay(h, name, statuses, t), name, statuses[t as int]) <==> (t > 0 && (statuses[t
            - 1] == Status::Fire || statuses[t - 1] == Status::Unknown) && statuses[t as int]
            == Status::Okay),
{
}

/// A notification channel; the binary supplies the implementations.
pub trait Alerter {
    fn alert(&self, result: &CanaryCheck) -> Result<(), String>;
}

/// A notification mail, ready for a transport.
pub struct AlertEmail {
    pub to: String,
    pub from: String,
    pub subject: String,
    pub headline: String,
    pub smtp_server: String,
    pub smtp_username: String,
    pub smtp_password: String,
}

/// Composes alert mails from the mail settings of a configuration.
pub struct EmailAlerter<'a> {
    pub config: &'a CanaryConfig,
}

/// The first line of a notification about an outcome in `status`.
pub open spec fn headline_text(status: Status) -> Seq<char> {
    match status {
        Status::Fire => "🔥 Something has gone terribly wrong:"@,
        Status::Unknown => "🚨 Something is probably wrong:"@,
        Status::Okay => "🙇 Everything is now okay:"@,
    }
}

pub fn headline(status: Status) -> (r: String)
    ensures
        r@ == headline_text(status),
{
    match status {
        Status::Fire => String::from_str("🔥 Something has gone terribly wrong:"),
        Status::Unknown => String::from_str("🚨 Something is probably wrong:"),
        Status::Okay => String::from_str("🙇 Everything is now okay:"),
    }
}

impl<'a> EmailAlerter<'a> {
    /// The mail about `result`: to the alert inbox, from the SMTP user, with
    /// a subject naming the target's host; an error when the configuration
    /// has no mail settings.
    pub fn compose(&self, result: &CanaryCheck) -> (r: Result<AlertEmail, String>)
        ensures
            self.config.alert.email is None <==> r is Err,
            r matches Err(m) ==> m@ == "email alerts configuration missing"@,
            r matches Ok(mail) ==> {
                let c = self.config.alert.email->Some_0;
                &&& mail.to == c.alert_email
                &&& mail.from == c.smtp_username
                &&& mail.subject@ == "rcanary alert for "@ + result.target.host@
                &&& mail.headline@ == headline_text(result.status)
                &&& mail.smtp_server == c.smtp_server
                &&& mail.smtp_username == c.smtp_username
                &&& mail.smtp_password == c.smtp_password
            },
    {
        let email_config = match &self.config.alert.email {
            Some(c) => c,
            None => return Err(String::from_str("email alerts configuration missing")),
        };
        Ok(AlertEmail {
            to: email_config.alert_email.clone(),
            from: email_config.smtp_username.clone(),
            subject: join_text("rcanary alert for ", result.target.host.as_str()),
            headline: headline(result.status),
            smtp_server: email_config.smtp_server.clone(),
            smtp_username: email_config.smtp_username.clone(),
            smtp_password: email_config.smtp_password.clone(),
        })
    }
}

/// Hands `result` to `alerter` when the configuration has mail settings;
/// without them there is nothing to send and the call succeeds.
pub fn send_alert<A: Alerter>(config: &CanaryConfig, alerter: &A, result: &CanaryCheck) -> (r: Result<
    (),
    String,
>)
    ensures
        config.alert.email is None ==> r == Ok::<(), String>(()),
{
    if config.alert.email.is_some() {
        return alerter.alert(result);
    }
    Ok(())
}

} // verus!
