use rcanary::alert::{
    check_fixed, check_spam, send_alert, should_notify, AlertHistory, Alerter, EmailAlerter,
};
use rcanary::config::{
    Auth, CanaryAlertConfig, CanaryCheck, CanaryConfig, CanaryEmailAlertConfig, CanaryTarget,
    CanaryTargetTypes, Status,
};

fn target() -> CanaryTarget {
    CanaryTarget {
        name: "foo".to_string(),
        host: "invalid".to_string(),
        tag: Some("tag".to_string()),
        tag_metric: None,
        interval_s: 1,
        alert: false,
        basic_auth: None,
    }
}

fn okay_result() -> CanaryCheck {
    CanaryCheck {
        alert: true,
        latency_ms: 299,
        need_to_alert: true,
        status_code: "200 OK".to_string(),
        status: Status::Okay,
        status_reason: "no reason".to_string(),
        target: target(),
        time: "2016-10-14T08:00:00Z".to_string(),
    }
}

fn fire_result() -> CanaryCheck {
    CanaryCheck {
        alert: true,
        latency_ms: 499,
        need_to_alert: true,
        status_code: "401 Unauthorized".to_string(),
        status: Status::Fire,
        status_reason: "no reason".to_string(),
        target: target(),
        time: "2016-10-14T08:00:00Z".to_string(),
    }
}

#[test]
fn alert_it_marks_as_spam_on_empty_history() {
    let last_statuses = AlertHistory::new();

    let actual = check_spam(&last_statuses, &okay_result());

    assert_eq!(false, actual);
}

#[test]
fn alert_it_does_not_mark_as_spam_on_change_from_okay_to_fire() {
    let mut last_statuses = AlertHistory::new();
    last_statuses.insert(target(), Status::Okay);

    let actual = check_spam(&last_statuses, &fire_result());

    assert_eq!(false, actual);
}

#[test]
fn alert_it_marks_as_spam_on_continued_okay() {
    let mut last_statuses = AlertHistory::new();
    last_statuses.insert(target(), Status::Okay);

    let actual = check_spam(&last_statuses, &okay_result());

    assert_eq!(true, actual);
}

#[test]
fn alert_it_marks_as_spam_on_continued_fire() {
    let mut last_statuses = AlertHistory::new();
    last_statuses.insert(target(), Status::Fire);

    let actual = check_spam(&last_statuses, &fire_result());

    assert_eq!(true, actual);
}

#[test]
fn alert_it_does_not_mark_as_spam_on_change_from_fire_to_okay() {
    let mut last_statuses = AlertHistory::new();
    last_statuses.insert(target(), Status::Fire);

    let actual = check_spam(&last_statuses, &okay_result());

    assert_eq!(false, actual);
}

#[test]
fn alert_it_marks_as_spam_on_change_from_unknown_to_fire() {
    let mut last_statuses = AlertHistory::new();
    last_statuses.insert(target(), Status::Unknown);

    let actual = check_spam(&last_statuses, &fire_result());

    assert_eq!(false, actual);
}

#[test]
fn alert_it_marks_as_fixed_on_change_from_unknown_to_okay() {
    let mut last_statuses = AlertHistory::new();
    last_statuses.insert(target(), Status::Unknown);

    let actual = check_fixed(&last_statuses, &okay_result());

    assert_eq!(true, actual);
}

#[test]
fn alert_it_marks_as_fixed_on_change_from_fire_to_okay() {
    let mut last_statuses = AlertHistory::new();
    last_statuses.insert(target(), Status::Fire);

    let actual = check_fixed(&last_statuses, &okay_result());

    assert_eq!(true, actual);
}

#[test]
fn alert_it_marks_as_unfixed_on_change_from_fire_to_fire() {
    let mut last_statuses = AlertHistory::new();
    last_statuses.insert(target(), Status::Fire);

    let actual = check_fixed(&last_statuses, &fire_result());

    assert_eq!(false, actual);
}

#[test]
fn history_keeps_one_entry_per_name_and_the_latest_status() {
    let mut h = AlertHistory::new();
    assert_eq!(h.get(&target()), None);
    h.insert(target(), Status::Fire);
    assert_eq!(h.get(&target()), Some(Status::Fire));
    let mut other = target();
    other.name = "bar".to_string();
    h.insert(other.clone(), Status::Okay);
    h.insert(target(), Status::Unknown);
    assert_eq!(h.get(&target()), Some(Status::Unknown));
    assert_eq!(h.get(&other), Some(Status::Okay));
}

#[test]
fn history_is_keyed_by_name_not_by_other_fields() {
    let mut h = AlertHistory::new();
    h.insert(target(), Status::Fire);
    let mut moved = target();
    moved.host = "http://elsewhere".to_string();
    moved.interval_s = 99;
    assert_eq!(h.get(&moved), Some(Status::Fire));
}

#[test]
fn first_observation_is_neither_spam_nor_fixed() {
    let h = AlertHistory::new();
    assert!(!check_spam(&h, &okay_result()));
    assert!(!check_fixed(&h, &okay_result()));
    assert!(!check_fixed(&h, &fire_result()));
}

#[test]
fn fixed_path_notifies_even_without_need_to_alert() {
    let mut h = AlertHistory::new();
    h.insert(target(), Status::Fire);
    let mut okay = okay_result();
    okay.need_to_alert = false;
    assert!(h.observe(true, &okay));
    assert_eq!(h.get(&target()), Some(Status::Okay));
}

#[test]
fn repeated_okay_is_spam_and_not_notified() {
    let mut h = AlertHistory::new();
    h.insert(target(), Status::Okay);
    assert!(check_spam(&h, &okay_result()));
    assert!(!h.observe(true, &okay_result()));
}

#[test]
fn spam_flags_follow_status_repetitions() {
    let sequence = [
        Status::Okay,
        Status::Okay,
        Status::Fire,
        Status::Fire,
        Status::Unknown,
        Status::Okay,
    ];
    let expected_spam = [false, true, false, true, false, false];
    let expected_fixed = [false, false, false, false, false, true];
    let mut h = AlertHistory::new();
    for i in 0..sequence.len() {
        let mut r = okay_result();
        r.status = sequence[i];
        assert_eq!(check_spam(&h, &r), expected_spam[i]);
        assert_eq!(check_fixed(&h, &r), expected_fixed[i]);
        h.observe(true, &r);
    }
}

#[test]
fn notification_needs_both_switches() {
    let fire = fire_result();
    assert!(should_notify(true, &fire, false, false));
    assert!(!should_notify(false, &fire, false, false));
    let mut quiet = fire_result();
    quiet.alert = false;
    assert!(!should_notify(true, &quiet, false, true));
    assert!(!should_notify(true, &fire, true, false));
    let mut no_need = fire_result();
    no_need.need_to_alert = false;
    assert!(!should_notify(true, &no_need, false, false));
    assert!(should_notify(true, &no_need, true, true));
}

fn config_with_mail(mail: Option<CanaryEmailAlertConfig>) -> CanaryConfig {
    CanaryConfig {
        alert: CanaryAlertConfig { enabled: true, email: mail },
        health_check: None,
        metrics: None,
        server_listen_address: "127.0.0.1:8099".to_string(),
        targets: CanaryTargetTypes { http: vec![target()] },
    }
}

fn mail_settings() -> CanaryEmailAlertConfig {
    CanaryEmailAlertConfig {
        alert_email: "inbox@example.com".to_string(),
        smtp_server: "smtp.example.com".to_string(),
        smtp_username: "sender@example.com".to_string(),
        smtp_password: "hunter2".to_string(),
    }
}

#[test]
fn email_is_composed_from_the_mail_settings() {
    let config = config_with_mail(Some(mail_settings()));
    let alerter = EmailAlerter { config: &config };
    let mail = alerter.compose(&fire_result()).unwrap();
    assert_eq!(mail.to, "inbox@example.com");
    assert_eq!(mail.from, "sender@example.com");
    assert_eq!(mail.subject, "rcanary alert for invalid");
    assert_eq!(mail.headline, "🔥 Something has gone terribly wrong:");
    assert_eq!(mail.smtp_server, "smtp.example.com");
    assert_eq!(mail.smtp_password, "hunter2");
    let mail = alerter.compose(&okay_result()).unwrap();
    assert_eq!(mail.headline, "🙇 Everything is now okay:");
}

#[test]
fn email_without_mail_settings_is_an_error() {
    let config = config_with_mail(None);
    let alerter = EmailAlerter { config: &config };
    assert_eq!(
        alerter.compose(&fire_result()).err(),
        Some("email alerts configuration missing".to_string())
    );
}

struct Refusing;

impl Alerter for Refusing {
    fn alert(&self, _result: &CanaryCheck) -> Result<(), String> {
        Err("refused".to_string())
    }
}

#[test]
fn send_alert_uses_the_channel_only_with_mail_settings() {
    let without = config_with_mail(None);
    assert_eq!(send_alert(&without, &Refusing, &fire_result()), Ok(()));
    let with = config_with_mail(Some(mail_settings()));
    assert_eq!(
        send_alert(&with, &Refusing, &fire_result()),
        Err("refused".to_string())
    );
}

#[test]
fn it_does_not_leak_passwords_in_debug_representation() {
    let auth = Auth {
        username: "AzureDiamond".to_string(),
        password: Some("hunter2".to_string()),
    };

    let formatted = auth.debug_string();

    assert!(formatted.find("AzureDiamond").is_none());
    assert!(formatted.find("hunter2").is_none());
}
