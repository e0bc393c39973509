//! The deployment status and the events that report it.

use sutra_engine::bridge::ReplyMode;
use sutra_engine::json::Json;
use sutra_engine::status::{
    build_completion_event, completion_at, emit_completion, reactivate, DeploymentStatusSnapshot,
};

#[test]
fn activated_event_carries_type_subject_and_data() {
    let (ce, body, key) = build_completion_event(
        "dep-0123456789abcdef01234567",
        "acme--pay--1.0.0",
        3,
        &Ok(()),
        Some("2026-07-24T00:00:00Z".to_string()),
    );
    assert_eq!(ce.ce_type, "com.sutra.deployment.activated");
    assert_eq!(ce.subject.as_deref(), Some("dep-0123456789abcdef01234567"));
    assert_eq!(ce.spec_version, "1.0");
    assert_eq!(ce.data_content_type.as_deref(), Some("application/json"));
    assert_eq!(key, "dep-complete:dep-0123456789abcdef01234567:activated");
    let data: serde_json::Value = serde_json::from_slice(&body).unwrap();
    assert_eq!(data["status"], "activated");
    assert_eq!(data["slot"], "acme--pay--1.0.0");
    assert_eq!(data["revision"], 3);
    assert!(data.get("error").is_none(), "no error on success");
}

#[test]
fn failed_event_carries_failed_type_and_error() {
    let (ce, body, key) = build_completion_event(
        "dep-0123456789abcdef01234567",
        "acme--pay--1.0.0",
        4,
        &Err("registry rebuild failed".to_string()),
        None,
    );
    assert_eq!(ce.ce_type, "com.sutra.deployment.failed");
    assert_eq!(key, "dep-complete:dep-0123456789abcdef01234567:failed");
    assert!(ce.time.is_none());
    let data: serde_json::Value = serde_json::from_slice(&body).unwrap();
    assert_eq!(data["status"], "failed");
    assert_eq!(data["error"], "registry rebuild failed");
}

#[test]
fn an_event_is_identified_by_deployment_and_outcome() {
    let (ce, _, key) = build_completion_event("d", "s", 3, &Ok(()), None);
    assert_eq!(ce.id, "d:activated");
    assert_eq!(ce.source, "urn:sutra:deployment-controller");
    let now = Some("2026-07-24T00:00:00Z".to_string());
    let (again, _, key_again) = build_completion_event("d", "s-2", 4, &Ok(()), now);
    assert_eq!((again.id, key_again), (ce.id, key));

    let (failed, _, key) = build_completion_event("d", "s", 3, &Err("a".to_string()), None);
    assert_eq!(failed.id, "d:failed");
    let (again, _, key_again) = build_completion_event("d", "s", 4, &Err("b".to_string()), None);
    assert_eq!((again.id, key_again), (failed.id, key));
}

fn snapshot() -> DeploymentStatusSnapshot {
    DeploymentStatusSnapshot {
        active: vec![("id-active".into(), "t--m--v".into())],
        pending: vec![("id-pending".into(), "t--m--v2".into())],
        draining: vec!["id-draining".into()],
        failed: vec![("t--m--v3".into(), "boom".into())],
    }
}

fn items<'a>(j: &'a Json, name: &str) -> &'a Vec<Json> {
    match j.get(name) {
        Some(Json::List(v)) => v,
        other => panic!("{name} is {other:?}"),
    }
}

#[test]
fn to_json_reports_pending_array() {
    let json = snapshot().to_json();
    let pending = items(&json, "pending");
    assert_eq!(pending.len(), 1);
    assert_eq!(pending[0].get_text("deploymentId").unwrap(), "id-pending");
    assert_eq!(pending[0].get_text("slot").unwrap(), "t--m--v2");
    assert_eq!(pending[0].get_text("phase").unwrap(), "Pending");
    assert_eq!(pending[0].get("ready").unwrap(), &Json::truth(false));
    // The other buckets are unaffected.
    assert_eq!(items(&json, "active").len(), 1);
    assert_eq!(items(&json, "failed").len(), 1);
}

#[test]
fn lookup_reports_pending_between_active_and_draining() {
    let snap = snapshot();
    // A pending id resolves to phase Pending, not ready, with its slot.
    let p = snap.lookup("id-pending").expect("pending id found");
    assert_eq!(p.get_text("phase").unwrap(), "Pending");
    assert_eq!(p.get("ready").unwrap(), &Json::truth(false));
    assert_eq!(p.get_text("slot").unwrap(), "t--m--v2");
    // Active still wins and reports ready; draining still reports Draining.
    let active = snap.lookup("id-active").unwrap();
    assert_eq!(active.get_text("phase").unwrap(), "Active");
    assert_eq!(active.get("ready").unwrap(), &Json::truth(true));
    assert_eq!(snap.lookup("id-draining").unwrap().get_text("phase").unwrap(), "Draining");
    // An unknown id is still None (caller keeps polling).
    assert!(snap.lookup("id-nope").is_none());
}

#[test]
fn an_accepted_deployment_is_pending_until_it_lands() {
    let mut s = DeploymentStatusSnapshot::new();
    s.accept("d-1", "slot");
    assert_eq!(s.lookup("d-1").unwrap().get_text("phase").unwrap(), "Pending");

    let served = reactivate(
        &s,
        &vec![("d-1".to_string(), "slot".to_string())],
        &vec!["d-1".to_string()],
        &vec![],
    );
    assert_eq!(served.lookup("d-1").unwrap().get_text("phase").unwrap(), "Active");
    assert!(served.pending.is_empty());
}

#[test]
fn a_pending_deployment_that_fails_is_reported_under_its_slot() {
    let mut s = DeploymentStatusSnapshot::new();
    s.accept("d-1", "slot");
    s.fail_pending("d-1", "slot", "boom");
    assert!(s.pending.is_empty());
    assert_eq!(s.failed, vec![("slot".to_string(), "boom".to_string())]);
}

#[test]
fn a_completion_goes_to_every_sink() {
    let sinks = vec!["https://a".to_string(), "kafka://b".to_string()];
    let c = completion_at("d-1", "slot", 2, &Ok(()), &sinks, true, true, 1_784_851_200_000_000_000)
        .expect("there are sinks");
    assert_eq!(c.event.time.as_deref(), Some("2026-07-24T00:00:00Z"));
    assert_eq!(c.outbox_key, "dep-complete:d-1:activated");
    assert_eq!(c.rows.len(), 2);
    assert_eq!(c.rows[1].destination, "kafka://b");
    assert_ne!(c.rows[0].entry_id, c.rows[1].entry_id);
    assert_eq!(c.rows[0].at, 1_784_851_200_000_000_000);
    let row = &c.rows[0];
    assert_eq!(row.deployment, "d-1");
    assert_eq!((row.instance_id, row.node_id.as_deref()), (0, None));
    assert_eq!(row.content_type.as_deref(), Some("application/json"));
    assert!(!row.required && row.mode == ReplyMode::CloudEventStructured);
    assert!(row.headers.is_empty() && row.labels.is_empty() && row.auth_ref_json.is_none());
    assert_eq!((row.attempt_count, row.last_diagnostic_json.as_deref()), (0, None));

    let ok = Ok(());
    assert!(emit_completion("d-1", "slot", 2, &ok, &sinks, true, true).is_some());
    assert!(emit_completion("d-1", "slot", 2, &ok, &vec![], true, true).is_none());
    assert!(emit_completion("d-1", "slot", 2, &ok, &sinks, false, true).is_none());
    assert!(emit_completion("d-1", "slot", 2, &ok, &sinks, true, false).is_none());
}
