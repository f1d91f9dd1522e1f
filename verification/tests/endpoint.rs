use chapr_endpoint::coord_client::{
    health, is_trust_failure, open_move_reply, parse_error, probe_failure, transport_cause, undecodable, CoordClient,
};
use chapr_endpoint::diag::{classify, hostname, needs_rotation, Diagnostics};
use chapr_endpoint::lease_manager::{
    jittered, AcquireStep, Acquisition, Grant, HeldLeases, DEFAULT_ACQUIRE_BUDGET, FIRST_BACKOFF, MAX_BACKOFF,
    RENEWAL_INTERVAL_SECS,
};
use chapr_endpoint::mount::{MountTable, NoMountTable};
use chapr_endpoint::pathlock::lock_order;
use chapr_endpoint::proto::{
    BackendKind, CanonicalPath, ChaprError, LeaseId, Principal, Severity, Timestamp, VersionToken,
};
use chapr_endpoint::selftest::{
    contention_check, host_of, mandatory_lock_check, test_folder, Contender, LockProbe, SelfTest, TestPhase, TestReport,
    Told, Verdict,
};
use chapr_endpoint::startup::{
    backend_kind, coordinated_roots, diagnostics_log, inline_cap, resolve_roots, root_parts, session_id, unusable_roots,
    usable_roots,
};
use chapr_endpoint::traceprobe::{meta_keys, trace_id_of, Observation, TraceProbe, MAX_REPORTED_CONTEXTS};

fn p() -> CanonicalPath {
    CanonicalPath::new_unchecked("\\\\srv\\share\\a.md".to_string())
}

fn who(s: &str) -> Principal {
    Principal::new_unchecked(s.to_string())
}

fn lease(s: &str) -> LeaseId {
    LeaseId::new_unchecked(s.to_string())
}

// ---- diagnostics ----

#[test]
fn designed_outcomes_are_not_diagnostics() {
    let expected = [
        ChaprError::LeaseHeld { holder: who("CONTOSO\\other"), paths: vec![p()] },
        ChaprError::RetryBudgetExhausted { path: p(), attempts: 6 },
        ChaprError::OfficeLockPresent {
            path: p(),
            lock_file: CanonicalPath::new_unchecked("\\\\srv\\share\\~$a.md".to_string()),
        },
        ChaprError::NotFound { path: p() },
        ChaprError::AlreadyExists { path: p() },
        ChaprError::BaseVersionRequired { path: p() },
    ];
    for e in expected {
        assert!(classify(&e).is_none(), "{e:?} is a designed outcome and must not be a diagnostic");
    }
}

#[test]
fn environment_faults_carry_a_code_a_path_and_a_remedy() {
    let r = classify(&ChaprError::SharingViolation { path: p() }).unwrap();
    assert_eq!(r.code, "SHARING_VIOLATION");
    assert_eq!(r.path.as_ref(), Some(&p()), "grouping needs the path");
    assert!(r.remedy.contains("antivirus"), "the remedy must be actionable");
    assert_eq!(r.severity, Severity::Error);
}

fn fact(facts: &[(String, String)], name: &str) -> Option<String> {
    facts.iter().find(|(n, _)| n == name).map(|(_, v)| v.clone())
}

#[test]
fn an_io_failure_keeps_the_os_message_as_a_fact() {
    let r = classify(&ChaprError::Io {
        path: p(),
        message: "The filename or extension is too long. (os error 206)".into(),
    })
    .unwrap();
    assert_eq!(
        fact(&r.facts, "os_message").as_deref(),
        Some("The filename or extension is too long. (os error 206)")
    );
}

#[test]
fn lease_trouble_is_a_warning_not_an_error() {
    let r = classify(&ChaprError::LeaseLost { lease_id: lease("lease-1") }).unwrap();
    assert_eq!(r.severity, Severity::Warning);
}

#[test]
fn a_committed_but_unrecorded_write_says_the_file_is_fine() {
    let r = classify(&ChaprError::CommittedButUnrecorded {
        path: p(),
        version: VersionToken::hash(b"v"),
        message: "append failed".into(),
    })
    .unwrap();
    assert!(r.remedy.contains("file itself is correct"));
    assert!(fact(&r.facts, "version").is_some());
}

#[test]
fn every_classified_failure_has_a_nonempty_remedy() {
    let all = [
        ChaprError::SharingViolation { path: p() },
        ChaprError::PermissionDenied { path: p() },
        ChaprError::Io { path: p(), message: "x".into() },
        ChaprError::InvalidPath { raw: "z:x".into(), reason: "r".into() },
        ChaprError::CoordUnreachable,
        ChaprError::Internal { message: "boom".into() },
    ];
    for e in all {
        let r = classify(&e).expect("should be diagnostic-worthy");
        assert!(!r.remedy.trim().is_empty(), "{} has no remedy", r.code);
        assert!(!r.title.trim().is_empty(), "{} has no title", r.code);
        assert!(!r.detail.trim().is_empty(), "{} has no detail", r.code);
    }
}

#[test]
fn the_other_faults_are_classified_too() {
    let outside = classify(&ChaprError::OutsideRoot {
        raw: "x".into(),
        resolved: "y".into(),
        roots: vec!["a".into(), "b".into()],
        provenance: "at boot".into(),
    })
    .unwrap();
    assert_eq!((outside.code.as_str(), outside.severity), ("OUTSIDE_ROOT", Severity::Warning));
    assert_eq!(fact(&outside.facts, "roots").as_deref(), Some("a, b"));
    let code = |e| classify(&e).unwrap().code;
    assert_eq!(code(ChaprError::LeaseExpired { lease_id: lease("l") }), "LEASE_GONE");
    assert_eq!(code(ChaprError::LeaseNotFound { lease_id: lease("l") }), "LEASE_GONE");
    assert_eq!(
        code(ChaprError::MaxLeaseLifetimeExceeded { lease_id: lease("l"), hard_expiry: Timestamp("t".into()) }),
        "LEASE_LIFETIME_EXCEEDED"
    );
    assert_eq!(
        code(ChaprError::RecoveryFailed { path: p(), missing_version: VersionToken::hash(b"v") }),
        "RECOVERY_FAILED"
    );
    assert!(classify(&ChaprError::IsADirectory { path: p() }).is_none());
}

#[test]
fn an_unreachable_coord_is_recorded_locally_and_not_sent() {
    let d = Diagnostics::new(Some("laptop-7".into()), None);
    let delivery = d.report(&who("CONTOSO\\jsmith"), &ChaprError::CoordUnreachable).unwrap();
    assert!(delivery.local_only);
    assert_eq!(delivery.report.code, "COORD_UNREACHABLE");
    assert_eq!(delivery.report.principal, who("CONTOSO\\jsmith"));
    assert_eq!(delivery.report.host.as_deref(), Some("laptop-7"));
    let sent = d.report(&who("CONTOSO\\jsmith"), &ChaprError::SharingViolation { path: p() }).unwrap();
    assert!(!sent.local_only);
    let again = d.record(&who("other"), sent.report);
    assert!(!again.local_only && again.report.principal == who("other"));
}

#[test]
fn a_designed_outcome_writes_nothing_locally_either() {
    let d = Diagnostics::new(None, Some("/var/log/x".into()));
    let e = ChaprError::Conflict {
        base_path: p(),
        sidecar_path: Some(p()),
        current_version: VersionToken::hash(b"v"),
        last_writer: who("CONTOSO\\other"),
        when: Timestamp("2026-08-03T12:00:00Z".into()),
    };
    assert!(d.report(&who("CONTOSO\\jsmith"), &e).is_none(), "a CAS conflict must not create a diagnostics log");
}

#[test]
fn the_log_has_a_place_and_a_size() {
    let s = |t: &str| Some(t.to_string());
    assert_eq!(
        Diagnostics::default_log_path(false, None, s("/home/a/.state"), s("/home/a")),
        s("/home/a/.state/Chaperone/diagnostics.jsonl")
    );
    assert_eq!(
        Diagnostics::default_log_path(false, s("ignored"), None, s("/home/a/")),
        s("/home/a/.local/state/Chaperone/diagnostics.jsonl")
    );
    assert_eq!(
        Diagnostics::default_log_path(true, s("C:\\Users\\a\\AppData\\Local"), None, s("x")),
        s("C:\\Users\\a\\AppData\\Local\\Chaperone\\diagnostics.jsonl")
    );
    assert_eq!(Diagnostics::default_log_path(false, s("x"), None, None), None);
    let on_windows = |base: &str| Diagnostics::default_log_path(true, s(base), None, None).unwrap();
    assert_eq!(on_windows("C:/state/"), "C:/state/Chaperone\\diagnostics.jsonl");
    assert_eq!(on_windows("C:\\"), "C:\\Chaperone\\diagnostics.jsonl");
    assert_eq!(on_windows("C:"), "C:Chaperone\\diagnostics.jsonl");
    assert!(!needs_rotation(2 * 1024 * 1024) && needs_rotation(2 * 1024 * 1024 + 1));
    assert_eq!(hostname(s("box"), s("other\n")), s("box"));
    assert_eq!(hostname(s(""), s(" other\n")), s("other"));
    assert_eq!(hostname(None, s(" \n")), None);
    assert_eq!(hostname(None, None), None);
}

// ---- leases ----

fn held_elsewhere() -> Result<Grant, ChaprError> {
    Err(ChaprError::LeaseHeld { holder: who("CONTOSO\\someone-else"), paths: vec![p()] })
}

fn grant(id: &str) -> Result<Grant, ChaprError> {
    Ok(Grant { lease_id: lease(id), ttl_s: 90 })
}

#[test]
fn a_lease_held_by_another_session_is_waited_out() {
    let mut a = Acquisition::begin(vec![p()], DEFAULT_ACQUIRE_BUDGET);
    assert!(matches!(a.on_reply(held_elsewhere(), 1000), AcquireStep::Wait { backoff: FIRST_BACKOFF }));
    match a.on_reply(grant("lease-after-wait"), FIRST_BACKOFF) {
        AcquireStep::Granted(g) => assert_eq!(g.lease_id, lease("lease-after-wait")),
        _ => panic!("should wait, not fail"),
    }
    assert_eq!(a.attempts, 2);
}

#[test]
fn waits_double_up_to_a_limit() {
    let mut a = Acquisition::begin(vec![p()], u64::MAX);
    let mut waits = Vec::new();
    for _ in 0..6 {
        match a.on_reply(held_elsewhere(), 0) {
            AcquireStep::Wait { backoff } => waits.push(backoff / 1_000_000),
            _ => panic!("there is budget left"),
        }
    }
    assert_eq!(waits, [250, 500, 1000, 2000, 4000, 4000]);
    assert_eq!(MAX_BACKOFF, 4_000_000_000);
}

#[test]
fn an_unavailable_lease_ends_as_retry_budget_exhausted() {
    let budget = 300_000_000;
    let mut a = Acquisition::begin(vec![p()], budget);
    assert!(matches!(a.on_reply(held_elsewhere(), 50_000_000), AcquireStep::Wait { .. }));
    match a.on_reply(held_elsewhere(), 300_000_001) {
        AcquireStep::Failed(ChaprError::RetryBudgetExhausted { path, attempts }) => {
            assert_eq!(path.as_str(), "\\\\srv\\share\\a.md");
            assert_eq!(attempts, 2);
        }
        _ => panic!("the budget is spent"),
    }
    let mut unnamed = Acquisition::begin(vec![p()], 0);
    match unnamed.on_reply(Err(ChaprError::LeaseHeld { holder: who("x"), paths: Vec::new() }), 0) {
        AcquireStep::Failed(ChaprError::RetryBudgetExhausted { path, attempts: 1 }) => assert_eq!(path, p()),
        _ => panic!("there is no budget at all"),
    }
}

#[test]
fn an_unreachable_coord_fails_immediately_rather_than_retrying() {
    let mut a = Acquisition::begin(vec![p()], DEFAULT_ACQUIRE_BUDGET);
    assert!(matches!(
        a.on_reply(Err(ChaprError::CoordUnreachable), 0),
        AcquireStep::Failed(ChaprError::CoordUnreachable)
    ));
}

#[test]
fn jitter_adds_up_to_half() {
    assert_eq!(jittered(FIRST_BACKOFF, 0), FIRST_BACKOFF);
    assert_eq!(jittered(FIRST_BACKOFF, 7_500), FIRST_BACKOFF + 62_500_000);
    assert_eq!(jittered(MAX_BACKOFF, 999_999_999), MAX_BACKOFF + 1_998_000_000);
    assert_eq!(jittered(4 * MAX_BACKOFF, 500), 5 * MAX_BACKOFF);
    assert_eq!(jittered(u64::MAX, 0), u64::MAX);
    assert_eq!((jittered(3, 999), jittered(2, 999), jittered(2, 500), jittered(6, 500)), (4, 3, 2, 8));
}

fn holding(id: &str) -> HeldLeases {
    let mut h = HeldLeases::new();
    h.insert(lease(id), 90);
    h
}

#[test]
fn acquire_tracks_and_successful_renewal_keeps_it_held() {
    let mut h = holding("lease-ok");
    assert!(h.is_held(&lease("lease-ok")));
    assert_eq!(h.live_ids(), [lease("lease-ok")]);
    h.renewed(&lease("lease-ok"));
    assert!(h.is_held(&lease("lease-ok")), "still held after a good renewal");
}

#[test]
fn failed_renewal_marks_the_lease_lost() {
    let mut h = holding("lease-gone");
    let e = ChaprError::LeaseNotFound { lease_id: lease("lease-gone") };
    assert!(h.on_renew_failure(&lease("lease-gone"), &e, RENEWAL_INTERVAL_SECS));
    assert!(!h.is_held(&lease("lease-gone")));
    assert!(h.live_ids().is_empty());
}

#[test]
fn release_stops_tracking() {
    let mut h = holding("lease-rel");
    h.insert(lease("other"), 90);
    assert!(h.remove(&lease("lease-rel")).is_some());
    assert!(!h.is_held(&lease("lease-rel")));
    assert!(h.is_held(&lease("other")));
    assert!(h.remove(&lease("lease-rel")).is_none());
}

#[test]
fn a_single_transient_renewal_failure_keeps_the_lease() {
    let mut h = holding("lease-blip");
    assert!(!h.on_renew_failure(&lease("lease-blip"), &ChaprError::CoordUnreachable, RENEWAL_INTERVAL_SECS));
    assert!(h.is_held(&lease("lease-blip")), "one transient failure must not give up the lease");
    assert_eq!(h.remove(&lease("lease-blip")).unwrap().failures, 1);
}

#[test]
fn a_success_clears_the_failure_history() {
    let mut h = holding("lease-mix");
    for _ in 0..2 {
        h.on_renew_failure(&lease("lease-mix"), &ChaprError::CoordUnreachable, RENEWAL_INTERVAL_SECS);
    }
    h.renewed(&lease("lease-mix"));
    assert!(h.is_held(&lease("lease-mix")));
    assert_eq!(h.remove(&lease("lease-mix")).unwrap().failures, 0, "a success must reset the counter");
}

#[test]
fn transient_failures_give_up_once_a_whole_ttl_has_passed() {
    let mut h = holding("lease-gone-quietly");
    let id = lease("lease-gone-quietly");
    h.on_renew_failure(&id, &ChaprError::CoordUnreachable, RENEWAL_INTERVAL_SECS);
    h.on_renew_failure(&id, &ChaprError::CoordUnreachable, RENEWAL_INTERVAL_SECS);
    assert!(h.is_held(&id), "still inside the TTL");
    h.on_renew_failure(&id, &ChaprError::CoordUnreachable, RENEWAL_INTERVAL_SECS);
    assert!(!h.is_held(&id), "past a full TTL without a heartbeat the lease is gone");
}

#[test]
fn a_definitive_failure_gives_up_immediately() {
    let mut h = holding("lease-reaped");
    let e = ChaprError::LeaseExpired { lease_id: lease("lease-reaped") };
    h.on_renew_failure(&lease("lease-reaped"), &e, RENEWAL_INTERVAL_SECS);
    assert!(!h.is_held(&lease("lease-reaped")), "an expired lease must be given up on the first answer");
}

#[test]
fn a_failure_of_a_lease_given_back_is_nobodys_concern() {
    let mut h = HeldLeases::new();
    assert!(!h.on_renew_failure(&lease("gone"), &ChaprError::CoordUnreachable, 0));
    assert!(h.live_ids().is_empty());
}

// ---- path locks ----

fn paths(names: &[&str]) -> Vec<CanonicalPath> {
    names.iter().map(|n| CanonicalPath::new_unchecked(n.to_string())).collect()
}

#[test]
fn a_repeated_path_in_one_set_does_not_deadlock() {
    assert_eq!(lock_order(&paths(&["/a", "/a"])), paths(&["/a"]));
}

#[test]
fn a_two_path_set_is_locked_in_a_deterministic_order() {
    assert_eq!(lock_order(&paths(&["/b", "/a"])), paths(&["/a", "/b"]));
    assert_eq!(lock_order(&paths(&["/a", "/b"])), paths(&["/a", "/b"]));
    let mut by_std = paths(&["/æ", "/a/b", "/a", "/Z", "/a b", "/\u{10000}", "/\u{ffff}"]);
    let ours = lock_order(&by_std);
    by_std.sort();
    assert_eq!(ours, by_std);
}

// ---- trace contexts ----

fn tp(trace_id: &str, span: &str) -> String {
    format!("00-{trace_id}-{span}-01")
}

const T1: &str = "0af7651916cd43dd8448eb211c80319c";
const T2: &str = "4bf92f3577b34da6a3ce929d0e0e4736";

fn none() -> Vec<String> {
    Vec::new()
}

#[test]
fn absence_is_reported_once_and_carries_the_other_keys() {
    let mut probe = TraceProbe::new();
    let keys = vec!["progressToken".to_string()];
    assert_eq!(probe.observe(None, &keys), Some(Observation::Absent { keys: keys.clone() }));
    assert_eq!(probe.observe(None, &keys), None, "second call adds nothing");
}

#[test]
fn a_stable_trace_id_is_reported_once_however_the_span_changes() {
    let mut probe = TraceProbe::new();
    let first = probe.observe(Some(&tp(T1, "00f067aa0ba902b7")), &none());
    assert!(matches!(first, Some(Observation::NewContext { distinct: 1, .. })));
    assert_eq!(probe.observe(Some(&tp(T1, "b7ad6b7169203331")), &none()), None);
}

#[test]
fn a_second_conversation_shows_up_as_a_second_context() {
    let mut probe = TraceProbe::new();
    probe.observe(Some(&tp(T1, "00f067aa0ba902b7")), &none());
    match probe.observe(Some(&tp(T2, "00f067aa0ba902b7")), &none()) {
        Some(Observation::NewContext { trace_id, distinct: 2, .. }) => assert_eq!(trace_id, T2),
        other => panic!("expected a second context, got {other:?}"),
    }
}

#[test]
fn per_request_traces_stop_being_reported_at_the_cap() {
    let mut probe = TraceProbe::new();
    for i in 0..MAX_REPORTED_CONTEXTS {
        let id = format!("{i:032x}");
        assert!(
            probe.observe(Some(&tp(&id, "00f067aa0ba902b7")), &none()).is_some(),
            "context {i} should still be reported"
        );
    }
    assert_eq!(
        probe.observe(Some(&tp(T1, "00f067aa0ba902b7")), &none()),
        Some(Observation::Capped { distinct: MAX_REPORTED_CONTEXTS })
    );
    assert_eq!(
        probe.observe(Some(&tp(T2, "00f067aa0ba902b7")), &none()),
        None,
        "the cap line is written once, not per call"
    );
}

#[test]
fn absence_then_presence_both_get_reported() {
    let mut probe = TraceProbe::new();
    assert!(probe.observe(None, &none()).is_some());
    assert!(
        probe.observe(Some(&tp(T1, "00f067aa0ba902b7")), &none()).is_some(),
        "a host that starts sending one must still be noticed"
    );
}

#[test]
fn a_malformed_traceparent_is_not_read_as_an_identifier() {
    let mut probe = TraceProbe::new();
    for bad in [
        "",
        "00",
        "00--00f067aa0ba902b7-01",
        "00-not-hex-here-00f067aa0ba902b7-01",
        "00-0af7651916cd43dd8448eb211c80319-00f067aa0ba902b7-01",
    ] {
        assert_eq!(probe.observe(Some(bad), &none()), None, "{bad:?} was accepted");
    }
    assert!(probe
        .observe(Some(&tp(T1, "00f067aa0ba902b7")), &none())
        .is_some_and(|o| matches!(o, Observation::NewContext { distinct: 1, .. })));
}

#[test]
fn a_hosts_meta_object_is_read_as_a_trace_context() {
    let raw: serde_json::Value = serde_json::from_str(
        r#"{"traceparent": "00-0af7651916cd43dd8448eb211c80319c-00f067aa0ba902b7-01", "progressToken": 7}"#,
    )
    .unwrap();
    let meta = raw.as_object().unwrap();
    let keys = meta_keys(meta.keys().cloned().collect());
    assert_eq!(
        keys,
        vec!["progressToken".to_string(), "traceparent".to_string()],
        "keys are sorted, and values are not carried"
    );
    let mut probe = TraceProbe::new();
    match probe.observe(meta["traceparent"].as_str(), &keys) {
        Some(Observation::NewContext { trace_id, keys, .. }) => {
            assert_eq!(trace_id, T1);
            assert!(keys.contains(&"progressToken".to_string()));
        }
        other => panic!("host meta was not read as a context: {other:?}"),
    }
}

#[test]
fn a_meta_without_a_trace_context_reports_absence_not_silence() {
    let raw: serde_json::Value = serde_json::from_str(r#"{"progressToken": 7}"#).unwrap();
    let meta = raw.as_object().unwrap();
    assert_eq!(meta.get("traceparent"), None);
    let keys = meta_keys(meta.keys().cloned().collect());
    assert_eq!(
        TraceProbe::new().observe(None, &keys),
        Some(Observation::Absent { keys: vec!["progressToken".to_string()] })
    );
}

#[test]
fn trace_id_parsing_is_case_insensitive_and_lowercased() {
    assert_eq!(trace_id_of("00-0AF7651916CD43DD8448EB211C80319C-00f067aa0ba902b7-01").as_deref(), Some(T1));
}

#[test]
fn keys_are_sorted_and_observations_have_a_line() {
    let keys = meta_keys(vec!["b".into(), "a".into(), "c".into(), "a".into()]);
    assert_eq!(keys, ["a", "a", "b", "c"]);
    assert!(Observation::Absent { keys: none() }.log().starts_with("no traceparent"));
    assert!(Observation::Capped { distinct: 32 }.log().starts_with("stopped reporting"));
}

// ---- the coordinator ----

#[test]
fn a_coordinator_is_addressed_without_doubled_slashes() {
    let c = CoordClient::new("http://coord:8787//").with_principal("CONTOSO\\jsmith").with_token("  abc \n");
    assert_eq!(c.url("/leases"), "http://coord:8787/leases");
    assert_eq!(c.authorization().as_deref(), Some("Bearer abc"));
    assert_eq!(c.principal.as_deref(), Some("CONTOSO\\jsmith"));
    assert_eq!(CoordClient::new("http://c").with_token(" ").authorization(), None);
}

#[test]
fn a_coordinator_without_the_route_says_so_in_the_error() {
    let reply = Err(ChaprError::Internal { message: "coord returned HTTP 404 Not Found".into() });
    match open_move_reply(reply).unwrap_err() {
        ChaprError::Internal { message } => {
            assert!(message.contains("older than this endpoint"), "{message}");
            assert!(message.ends_with("(coord returned HTTP 404 Not Found)"), "{message}");
        }
        other => panic!("wrong error: {other:?}"),
    }
    assert_eq!(open_move_reply(Ok(())), Ok(()));
    assert_eq!(open_move_reply(Err(ChaprError::CoordUnreachable)), Err(ChaprError::CoordUnreachable));
    let other = ChaprError::Internal { message: "coord returned HTTP 500".into() };
    assert!(matches!(open_move_reply(Err(other)), Err(ChaprError::Internal { message }) if message.ends_with("500")));
}

#[test]
fn transport_failure_maps_to_coord_unreachable() {
    let cause = transport_cause(&vec!["error sending request".to_string(), "connection refused".to_string()]);
    assert_eq!(cause, "error sending request: connection refused");
    assert_eq!(probe_failure(&cause), ChaprError::CoordUnreachable);
    assert!(is_trust_failure("invalid peer Certificate: UnknownIssuer"));
    match probe_failure("x: invalid peer certificate") {
        ChaprError::Internal { message } => assert!(
            message.contains("does not trust its TLS certificate") && message.ends_with("(x: invalid peer certificate)")
        ),
        other => panic!("wrong error: {other:?}"),
    }
}

#[test]
fn http_error_body_deserialises_back_to_chapr_error() {
    let told = ChaprError::LeaseHeld { holder: who("a"), paths: vec![p()] };
    assert!(matches!(parse_error("409 Conflict", Some(told)), ChaprError::LeaseHeld { .. }));
    assert_eq!(
        parse_error("502 Bad Gateway", None),
        ChaprError::Internal { message: "coord returned HTTP 502 Bad Gateway".into() }
    );
    assert_eq!(
        undecodable("EOF"),
        ChaprError::Internal { message: "coord response decode failed: EOF".into() }
    );
    assert_eq!(health(true, "200 OK"), Ok(()));
    assert_eq!(
        health(false, "503 Service Unavailable"),
        Err(ChaprError::Internal { message: "coord answered /healthz with HTTP 503 Service Unavailable".into() })
    );
}

// ---- starting ----

#[test]
fn the_start_reads_its_settings() {
    assert_eq!(backend_kind(Some("posix"), true), BackendKind::Posix);
    assert_eq!(backend_kind(Some("nfs"), true), BackendKind::Smb);
    assert_eq!(backend_kind(None, false), BackendKind::Posix);
    assert_eq!(session_id(4711).0, "sess-4711");
    assert_eq!(inline_cap("2048"), Some(2048));
    assert_eq!(inline_cap("+7"), Some(7));
    assert_eq!(inline_cap(""), None);
    assert_eq!(inline_cap("+"), None);
    assert_eq!(inline_cap("-1"), None);
    assert_eq!(inline_cap("1 MB"), None);
    assert_eq!(inline_cap("99999999999999999999999999"), None);
    assert_eq!(diagnostics_log(Some("  ".into()), Some("d".into())), None);
    assert_eq!(diagnostics_log(Some("x".into()), Some("d".into())), Some("x".into()));
    assert_eq!(diagnostics_log(None, Some("d".into())), Some("d".into()));
}

struct Mapped;

impl MountTable for Mapped {
    fn universal_name(&self, _local_path: &str) -> Result<Option<String>, String> {
        Ok(Some("\\\\FILESRV\\AICollab".to_string()))
    }
}

#[test]
fn roots_are_listed_and_resolved() {
    let parts = root_parts(" Z:\\x , ,relative,");
    assert_eq!(parts, ["Z:\\x", "relative"]);
    let resolved = resolve_roots(BackendKind::Smb, &Mapped, &parts);
    assert_eq!(resolved.len(), 2);
    let roots = coordinated_roots(Some(" Z:\\x , ,relative,"), &resolved).unwrap();
    assert_eq!(roots, paths(&["\\\\filesrv\\aicollab"]));
    assert!(coordinated_roots(None, &Vec::new()).unwrap().is_empty());
    assert!(coordinated_roots(Some("  "), &Vec::new()).unwrap().is_empty());
    let unusable = resolve_roots(BackendKind::Smb, &NoMountTable, &root_parts("relative"));
    assert_eq!(
        coordinated_roots(Some("relative"), &unusable).unwrap_err(),
        "CHAPR_ROOT is set to \"relative\" but none of it resolved to a usable path; refusing to start unconfined"
    );
}

#[test]
fn roots_are_used_or_told_of() {
    let parts = root_parts("relative,Z:\\x,also relative");
    let resolved = resolve_roots(BackendKind::Smb, &Mapped, &parts);
    assert_eq!(usable_roots(&resolved), paths(&["\\\\filesrv\\aicollab"]));
    let told = unusable_roots(parts, resolved);
    assert_eq!(told.iter().map(|(part, _)| part.as_str()).collect::<Vec<_>>(), ["relative", "also relative"]);
    for (part, e) in &told {
        let again = resolve_roots(BackendKind::Smb, &Mapped, &vec![part.clone()]);
        assert_eq!(again[0].as_ref().unwrap_err(), e);
    }
    assert!(unusable_roots(Vec::new(), Vec::new()).is_empty());
}

// ---- the self-test ----

fn last(r: &TestReport) -> (&str, Verdict, &str) {
    let l = r.lines.last().unwrap();
    (l.what.as_str(), l.verdict, l.detail.as_str())
}

#[test]
fn a_skip_is_not_a_pass() {
    let mut r = TestReport::new();
    r.add("one", Verdict::Pass, "fine".into());
    r.add("two", Verdict::Skip, "not made".into());
    r.add("three", Verdict::Fail, "broken".into());
    let (lines, code) = r.finish();
    assert_eq!(code, 1);
    assert_eq!(
        lines,
        [
            "",
            "  PASS  one\n          fine",
            "  SKIP  two\n          not made",
            "  FAIL  three\n          broken",
            "\n  1 passed, 1 failed, 1 skipped",
            "  A skipped check was not verified. It is not a pass."
        ]
    );
}

#[test]
fn one_winner_and_one_loser_is_the_only_pass() {
    let conflict = || {
        Contender::Refused(ChaprError::BaseVersionNotRecorded { path: p(), version: VersionToken::hash(b"v") })
    };
    let judge = |c: Vec<Contender>| {
        let mut r = TestReport::new();
        contention_check(&mut r, &c);
        let (_, v, d) = last(&r);
        (v, d.to_string())
    };
    assert_eq!(judge(vec![Contender::Won, conflict()]).0, Verdict::Pass);
    let (v, d) = judge(vec![Contender::Won, Contender::Won]);
    assert_eq!(v, Verdict::Fail);
    assert!(d.starts_with("2 winners and 0 refusals; "));
    let (v, d) = judge(vec![
        Contender::Won,
        Contender::Refused(ChaprError::CoordUnreachable),
        Contender::Broken("oops".into()),
    ]);
    assert_eq!(v, Verdict::Fail);
    assert_eq!(d, "unexpected failures: the coordinator is unreachable; task panicked: oops");
}

#[test]
fn the_lock_probe_is_judged() {
    let judge = |probe: LockProbe| {
        let mut r = TestReport::new();
        mandatory_lock_check(&mut r, &probe);
        last(&r).1
    };
    assert_eq!(judge(LockProbe::Elsewhere), Verdict::Skip);
    assert_eq!(judge(LockProbe::SecondRefused), Verdict::Pass);
    assert_eq!(judge(LockProbe::SecondGranted), Verdict::Fail);
    assert_eq!(judge(LockProbe::FirstRefused("busy".into())), Verdict::Fail);
    assert_eq!(judge(LockProbe::NoFile { path: p(), why: "full".into() }), Verdict::Fail);
    assert_eq!(judge(LockProbe::NoPath(ChaprError::CoordUnreachable)), Verdict::Fail);
}

#[test]
fn hosts_are_read_out_of_addresses() {
    assert_eq!(host_of("https://coord-01:8787/x"), "coord-01");
    assert_eq!(host_of("coord-01"), "coord-01");
    assert_eq!(host_of("http://127.0.0.1:8787"), "127.0.0.1");
    assert_eq!(host_of("http://"), "");
    assert_eq!(test_folder(Some(" ".into()), Some("/r".into())), None);
    assert_eq!(test_folder(None, Some("/r".into())), Some("/r".into()));
}

#[test]
fn a_whole_self_test_passes() {
    let v = VersionToken::hash(b"payload");
    let t = SelfTest::begin("https://coord-01:8787".into(), "/srv/share".into(), BackendKind::Posix, b"payload".to_vec());
    let t = t.advance(Told::Health(Ok(())));
    assert!(matches!(t.phase, TestPhase::Backend));
    let t = t.advance(Told::Backend(Ok(())));
    assert!(matches!(t.phase, TestPhase::Rooting), "no drive letter, nothing to map");
    let t = t.advance(Told::Roots { unusable: Vec::new(), any: true });
    let t = t.advance(Told::Canonical(Ok(CanonicalPath::new_unchecked("/srv/share".into()))));
    let t = t.advance(Told::Folder(Ok(())));
    let t = t.advance(Told::Created(Ok(v.clone())));
    let t = t.advance(Told::Read(Ok(())));
    let t = t.advance(Told::OnShare(Some(b"payload".to_vec())));
    assert_eq!(
        last(&t.report),
        (
            "write then read back, byte-identical",
            Verdict::Pass,
            format!("7 bytes, version {}", v.as_str()).as_str()
        )
    );
    let t = t.advance(Told::Contended(vec![
        Contender::Won,
        Contender::Refused(ChaprError::LeaseHeld { holder: who("x"), paths: Vec::new() }),
    ]));
    let t = t.advance(Told::Locked(LockProbe::Elsewhere));
    assert!(matches!(t.phase, TestPhase::Finished));
    let (lines, code) = t.report.finish();
    assert_eq!(code, 0);
    assert_eq!(lines[lines.len() - 2], "\n  6 passed, 0 failed, 2 skipped");
}

#[test]
fn a_loopback_address_fails_and_an_unreachable_coordinator_ends_it() {
    let begin = || SelfTest::begin("http://localhost:8787".into(), "Z:\\t".into(), BackendKind::Smb, Vec::new());
    let t = begin().advance(Told::Health(Ok(())));
    assert_eq!(last(&t.report).0, "coordinator URL is not loopback");
    assert_eq!(last(&t.report).1, Verdict::Fail);
    let t = t.advance(Told::Backend(Ok(())));
    assert!(matches!(t.phase, TestPhase::Mapping));
    let t = t.advance(Told::Mounted(Ok(None)));
    assert_eq!(last(&t.report).1, Verdict::Skip);
    let t = t.advance(Told::Roots { unusable: vec![("x".into(), ChaprError::CoordUnreachable)], any: false });
    assert_eq!(last(&t.report).2, "\"x\" could not be canonicalised: the coordinator is unreachable");
    let t = t.advance(Told::Canonical(Ok(p())));
    assert_eq!(last(&t.report).1, Verdict::Skip, "without a root nothing was checked");

    let t = begin().advance(Told::Health(Err(ChaprError::CoordUnreachable)));
    assert!(matches!(t.phase, TestPhase::Finished));
    assert_eq!(t.report.finish().1, 1);
    let t = begin().advance(Told::Health(Ok(()))).advance(Told::Backend(Err("no".into())));
    assert!(matches!(t.phase, TestPhase::Finished));
    assert_eq!(last(&t.report).2, "smb: no");
}

#[test]
fn giving_up_a_lease_is_reported_as_a_diagnostic() {
    let mut h = holding("lease-report");
    let id = lease("lease-report");
    let mut given_up = false;
    for _ in 0..3 {
        given_up = h.on_renew_failure(&id, &ChaprError::CoordUnreachable, RENEWAL_INTERVAL_SECS);
    }
    assert!(given_up, "the third failure gives the lease up");
    assert!(!h.is_held(&id));
    let d = Diagnostics::new(None, Some("/var/log/diagnostics.jsonl".into()));
    let delivery = d.report(&who("CONTOSO\\jsmith"), &ChaprError::LeaseLost { lease_id: id }).expect("a given-up lease must be recorded");
    assert_eq!(delivery.report.code, "LEASE_LOST");
    assert_eq!(delivery.report.severity, Severity::Warning);
}

#[test]
fn a_context_has_four_fields_of_their_lengths() {
    for bad in [
        "note-0af7651916cd43dd8448eb211c80319c",
        "00-0af7651916cd43dd8448eb211c80319c-00f067aa0ba902b7",
        "00-0af7651916cd43dd8448eb211c80319c-00f067aa0ba902b7-01-extra",
        "0-0af7651916cd43dd8448eb211c80319c-00f067aa0ba902b7-01",
        "zz-0af7651916cd43dd8448eb211c80319c-00f067aa0ba902b7-01",
        "00-0af7651916cd43dd8448eb211c80319c-00f067aa0ba902b-01",
        "00-0af7651916cd43dd8448eb211c80319c-00f067aa0ba902b7-1",
    ] {
        assert_eq!(trace_id_of(bad), None, "{bad:?} is no context");
    }
    assert_eq!(
        trace_id_of("00-0af7651916cd43dd8448eb211c80319c-00f067aa0ba902b7-01").as_deref(),
        Some("0af7651916cd43dd8448eb211c80319c")
    );
}
