use rcanary::checkengine::{CheckResult, CheckStatus, ProbeAddr};
use rcanary::config::{Auth, CanaryTarget, Status};
use rcanary::http::{
    basic_auth_value, credential_pair, endpoint_from_parts, header_from_basic_auth, host_of_authority,
    invalid_target_invalid_value, invalid_target_missing_value, target_endpoint, ConnectSummary,
    HttpCheck, HttpTarget, UriParts, CHECK_NAME,
};
use rcanary::report::{classify, latency_millis};

const MS: u64 = 1_000_000;

fn target(host: &str, alert: bool) -> CanaryTarget {
    CanaryTarget {
        name: "foo".to_string(),
        host: host.to_string(),
        tag: Some("tag".to_string()),
        tag_metric: None,
        interval_s: 1,
        alert,
        basic_auth: None,
    }
}

fn check() -> HttpCheck {
    HttpCheck { latency_requirement: 1000 * MS, allow_client_error: true }
}

fn summary() -> ConnectSummary {
    ConnectSummary { start_time: 0, connected_time: Some(20 * MS) }
}

#[test]
fn a_host_without_scheme_is_an_invalid_target() {
    let err = target_endpoint("invalid").err().unwrap();
    assert_eq!(err, "invalid target: URL invalid is missing a scheme");
    for alert in [false, true] {
        let t = target("invalid", alert);
        let outcome = classify(&t, &Err(err.clone()), 3, "2016-10-14T08:00:00Z".to_string());
        assert_eq!(outcome.status, Status::Unknown);
        assert!(outcome.status_code.starts_with("failed to poll server: invalid target"));
        assert_eq!(
            outcome.status_code,
            "failed to poll server: invalid target: URL invalid is missing a scheme"
        );
        assert_eq!(outcome.need_to_alert, alert);
        assert_eq!(outcome.alert, alert);
        assert_eq!(outcome.latency_ms, 3);
    }
}

#[test]
fn endpoints_take_the_port_from_the_scheme_or_the_url() {
    let e = target_endpoint("http://example.com/health").unwrap();
    assert_eq!((e.host.as_str(), e.port, e.tls), ("example.com", 80, false));
    let e = target_endpoint("https://example.com").unwrap();
    assert_eq!((e.host.as_str(), e.port, e.tls), ("example.com", 443, true));
    let e = target_endpoint("https://127.0.0.1:8443/x?y=1").unwrap();
    assert_eq!((e.host.as_str(), e.port, e.tls), ("127.0.0.1", 8443, true));
    let e = target_endpoint("http://localhost:8080").unwrap();
    assert_eq!((e.host.as_str(), e.port, e.tls), ("localhost", 8080, false));
}

#[test]
fn unsupported_schemes_and_unparsable_urls_are_invalid_targets() {
    assert_eq!(
        target_endpoint("ftp://example.com").err().unwrap(),
        "invalid target: URL ftp://example.com has invalid scheme: ftp"
    );
    assert_eq!(
        target_endpoint("Hello, world!").err().unwrap(),
        "invalid target: URL Hello, world! is not a valid URI"
    );
}

#[test]
fn endpoint_validation_reads_the_parts_in_order() {
    let parts = |scheme: Option<&str>, authority: Option<&str>, port: Option<u16>| {
        Some(UriParts {
            scheme: scheme.map(String::from),
            authority: authority.map(String::from),
            port,
        })
    };
    assert_eq!(
        endpoint_from_parts("u", parts(None, None, None)).err().unwrap(),
        "invalid target: URL u is missing a scheme"
    );
    assert_eq!(
        endpoint_from_parts("u", parts(Some("http"), None, None)).err().unwrap(),
        "invalid target: URL u is missing a authority"
    );
    assert_eq!(
        endpoint_from_parts("u", parts(Some("gopher"), Some("h"), None)).err().unwrap(),
        "invalid target: URL u has invalid scheme: gopher"
    );
    let e = endpoint_from_parts("u", parts(Some("https"), Some("h"), Some(1))).unwrap();
    assert_eq!((e.host.as_str(), e.port, e.tls), ("h", 1, true));
    let e = endpoint_from_parts("u", parts(Some("http"), Some("me:pw@h:81"), Some(81))).unwrap();
    assert_eq!((e.host.as_str(), e.port, e.tls), ("h", 81, false));
    assert_eq!(
        endpoint_from_parts("u", parts(Some("http"), Some("[::1"), None)).err().unwrap(),
        "invalid target: URL u has invalid authority: [::1"
    );
    assert_eq!(
        endpoint_from_parts("u", None).err().unwrap(),
        "invalid target: URL u is not a valid URI"
    );
}

#[test]
fn hosts_are_read_from_the_authority() {
    assert_eq!(host_of_authority("example.com"), Some("example.com".to_string()));
    assert_eq!(host_of_authority("example.com:8080"), Some("example.com".to_string()));
    assert_eq!(host_of_authority("user:pw@example.com:81"), Some("example.com".to_string()));
    assert_eq!(host_of_authority("a@b@c:1"), Some("c".to_string()));
    assert_eq!(host_of_authority("[::1]:8080"), Some("[::1]".to_string()));
    assert_eq!(host_of_authority("u@[fe80::1]"), Some("[fe80::1]".to_string()));
    assert_eq!(host_of_authority("]@["), None);
    assert_eq!(host_of_authority("user@"), Some("".to_string()));
}

#[test]
fn an_unclosed_bracket_is_an_invalid_target_not_a_panic() {
    assert_eq!(
        target_endpoint("http://]@[/").err().unwrap(),
        "invalid target: URL http://]@[/ has invalid authority: ]@["
    );
    let e = target_endpoint("http://user:pw@[::1]:8080/x").unwrap();
    assert_eq!((e.host.as_str(), e.port, e.tls), ("[::1]", 8080, false));
}

#[test]
fn millisecond_latencies_are_shown_as_durations() {
    let e = check().evaluate(ProbeAddr::V4(1), false, &summary(), Ok(200), 1250 * MS + 500_000);
    assert_eq!(e.err_msg(), Some("High latency: 1.2505s".to_string()));
    let strict = HttpCheck { latency_requirement: 100 * MS, allow_client_error: true };
    let e = strict.evaluate(ProbeAddr::V4(1), false, &summary(), Ok(200), 250 * MS);
    assert_eq!(e.check_status, CheckStatus::Degraded);
    assert_eq!(e.err_msg(), Some("High latency: 250ms".to_string()));
}

#[test]
fn a_cycle_without_addresses_is_unknown() {
    for alert in [false, true] {
        let t = target("http://nowhere.invalid", alert);
        let outcome = classify(&t, &Ok(HttpCheck::aggregate(Vec::new())), 1, "t".to_string());
        assert_eq!(outcome.status, Status::Unknown);
        assert_eq!(outcome.need_to_alert, alert);
        assert_eq!(outcome.status_code, "no servers found");
    }
}

#[test]
fn connect_summaries_are_checked_for_order() {
    assert!(summary().is_consistent());
    assert!(ConnectSummary { start_time: 5, connected_time: None }.is_consistent());
    assert!(!ConnectSummary { start_time: 5, connected_time: Some(4) }.is_consistent());
    assert_eq!(summary().connected_time(), Some(20 * MS));
}

#[test]
fn invalid_target_messages() {
    assert_eq!(
        invalid_target_missing_value("x", "scheme"),
        "invalid target: URL x is missing a scheme"
    );
    assert_eq!(
        invalid_target_invalid_value("x", "scheme", "ftp"),
        "invalid target: URL x has invalid scheme: ftp"
    );
}

#[test]
fn basic_auth_header_is_base64_of_user_and_password() {
    let auth = Auth {
        username: "AzureDiamond".to_string(),
        password: Some("hunter2".to_string()),
    };
    assert_eq!(credential_pair(&auth), "AzureDiamond:hunter2");
    assert_eq!(header_from_basic_auth(&auth), "Basic QXp1cmVEaWFtb25kOmh1bnRlcjI=");
    let no_password = Auth { username: "user".to_string(), password: None };
    assert_eq!(credential_pair(&no_password), "user");
    assert_eq!(header_from_basic_auth(&no_password), "Basic dXNlcg==");
    assert_eq!(basic_auth_value("abc"), "Basic abc");
}

#[test]
fn request_headers_carry_agent_and_credential() {
    let mut t = target("http://127.0.0.1:56474", false);
    let plain = HttpTarget::for_target(&t, "rcanary/0.1.0");
    assert_eq!(plain.url, "http://127.0.0.1:56474");
    assert_eq!(
        plain.extra_headers,
        vec![("User-Agent".to_string(), "rcanary/0.1.0".to_string())]
    );
    t.basic_auth = Some(Auth {
        username: "AzureDiamond".to_string(),
        password: Some("hunter2".to_string()),
    });
    let with_auth = HttpTarget::for_target(&t, "rcanary/0.1.0");
    assert_eq!(with_auth.extra_headers.len(), 2);
    assert_eq!(
        with_auth.extra_headers[1],
        (
            "Authorization".to_string(),
            "Basic QXp1cmVEaWFtb25kOmh1bnRlcjI=".to_string()
        )
    );
}

#[test]
fn a_fast_200_is_alive_and_reported_okay() {
    let e = check().evaluate(ProbeAddr::V4(0x7f000001), false, &summary(), Ok(200), 50 * MS);
    assert_eq!(e.check_status, CheckStatus::Alive);
    assert_eq!(e.status_code(), Some(200));
    assert_eq!(e.err_msg(), None);
    let names: Vec<&str> = e.timeline.iter().map(|s| s.name).collect();
    assert_eq!(names, vec!["http"]);
    assert_eq!((e.timeline[0].started_at, e.timeline[0].ended_at), (20 * MS, 50 * MS));
    for alert in [false, true] {
        let t = target("http://127.0.0.1:56473", alert);
        let r = CheckResult::new(CHECK_NAME, check().evaluate(
            ProbeAddr::V4(0x7f000001),
            false,
            &summary(),
            Ok(200),
            50 * MS,
        ));
        let outcome = classify(&t, &Ok(r), 50, "now".to_string());
        assert_eq!(outcome.status, Status::Okay);
        assert_eq!(outcome.status_code, "200");
        assert_eq!(outcome.status_reason, "");
        assert!(!outcome.need_to_alert);
        assert_eq!(outcome.alert, alert);
        assert_eq!(outcome.time, "now");
    }
}

#[test]
fn tls_probes_record_the_handshake() {
    let e = check().evaluate(ProbeAddr::V6(1), true, &summary(), Ok(204), 50 * MS);
    let spans: Vec<(&str, u64, u64)> =
        e.timeline.iter().map(|s| (s.name, s.started_at, s.ended_at)).collect();
    assert_eq!(spans, vec![("tls-handshake", 0, 20 * MS), ("http", 20 * MS, 50 * MS)]);
    assert_eq!(e.timeline[0].length(), 20 * MS);
}

#[test]
fn server_errors_fail_and_client_errors_fail_unless_allowed() {
    let e = check().evaluate(ProbeAddr::V4(1), false, &summary(), Ok(503), 50 * MS);
    assert_eq!(e.check_status, CheckStatus::Failed);
    assert_eq!(e.status_code, Some(503));
    assert_eq!(e.err_msg(), Some("bad HTTP status 503".to_string()));
    let strict = HttpCheck { latency_requirement: 1000 * MS, allow_client_error: false };
    let e = strict.evaluate(ProbeAddr::V4(1), false, &summary(), Ok(404), 50 * MS);
    assert_eq!(e.check_status, CheckStatus::Failed);
    assert_eq!(e.err_msg(), Some("bad HTTP status 404".to_string()));
    let e = check().evaluate(ProbeAddr::V4(1), false, &summary(), Ok(404), 50 * MS);
    assert_eq!(e.check_status, CheckStatus::Alive);
    assert_eq!(e.status_code, Some(404));
}

#[test]
fn slow_answers_are_degraded() {
    let e = check().evaluate(ProbeAddr::V4(1), false, &summary(), Ok(200), 2500 * MS);
    assert_eq!(e.check_status, CheckStatus::Degraded);
    assert_eq!(e.err_msg(), Some("High latency: 2.5s".to_string()));
    let e = check().evaluate(ProbeAddr::V4(1), false, &summary(), Ok(200), 1000 * MS);
    assert_eq!(e.check_status, CheckStatus::Alive);
    let degraded = CheckResult::new(CHECK_NAME, check().evaluate(
        ProbeAddr::V4(1),
        false,
        &summary(),
        Ok(200),
        2500 * MS,
    ));
    let outcome = classify(&target("http://x", true), &Ok(degraded), 2500, "t".to_string());
    assert_eq!(outcome.status, Status::Unknown);
    assert!(outcome.need_to_alert);
    assert_eq!(outcome.status_reason, "High latency: 2.5s");
}

#[test]
fn transport_errors_fail_without_a_code() {
    let e = check().evaluate(
        ProbeAddr::V4(1),
        true,
        &summary(),
        Err("connection refused".to_string()),
        50 * MS,
    );
    assert_eq!(e.check_status, CheckStatus::Failed);
    assert_eq!(e.status_code(), None);
    assert_eq!(e.err_msg(), Some("hyper error: connection refused".to_string()));
    assert_eq!(e.timeline.len(), 1);
    assert_eq!(e.timeline[0].name, "tls-handshake");
    let unopened = ConnectSummary { start_time: 5, connected_time: None };
    let e = check().evaluate(ProbeAddr::V4(1), true, &unopened, Err("x".to_string()), 9);
    assert!(e.timeline.is_empty());
    assert_eq!(unopened.start_time(), 5);
    assert_eq!(unopened.connected_time(), None);
}

#[test]
fn latency_in_milliseconds() {
    assert_eq!(latency_millis(0, 0), 0);
    assert_eq!(latency_millis(1, 999_999), 1000);
    assert_eq!(latency_millis(2, 345_678_901), 2345);
    assert_eq!(latency_millis(u64::MAX, 0), u64::MAX);
    assert_eq!(latency_millis(u64::MAX / 1000, 999_000_000), u64::MAX);
}
