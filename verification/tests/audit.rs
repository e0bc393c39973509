//! Audit events.

use sutra_engine::audit::{
    audit_attributes, flush_audit, init_audit_otel, must_build, row_at, AttributeValue, AuditEvent,
    AuditPipeline, OtelAuditSink, SqlAuditSink, AUDIT_SCOPE,
};
use sutra_engine::diag::Code;

fn sample() -> AuditEvent {
    AuditEvent {
        deployment_id: "dep-000000000000000000000001".to_string(),
        tenant: "acme".to_string(),
        instance_id: "11111111-1111-1111-1111-111111111111".to_string(),
        seq: 3,
        at: "2026-07-19T12:00:00Z".to_string(),
        event_type: "NODE_ENTERED".to_string(),
        node_id: Some("Start".to_string()),
        diagnostic_code: None,
        diagnostic_json: None,
        payload_json: "{}".to_string(),
    }
}

#[test]
fn otel_sink_exports_one_sutra_audit_log_record_with_the_audit_context() {
    assert_eq!(AUDIT_SCOPE, "sutra.audit", "scope is the cull-out selector");
    let attrs = audit_attributes(&sample());
    let has = |k: &str, needle: AttributeValue| attrs.iter().any(|(n, v)| *n == k && *v == needle);
    let text = |s: &str| AttributeValue::Text(s.to_string());
    assert!(has("event_type", text("NODE_ENTERED")));
    assert!(has("instance_id", text("11111111-1111-1111-1111-111111111111")));
    assert!(has("seq", AttributeValue::Number(3)));
    assert!(has("deployment_id", text("dep-000000000000000000000001")));
    assert!(has("node_id", text("Start")));
}

#[test]
fn sink_name_is_otel() {
    assert_eq!(OtelAuditSink.name(), "otel");
}

#[test]
fn an_absent_node_is_written_as_a_dash() {
    let mut e = sample();
    e.node_id = None;
    let attrs = audit_attributes(&e);
    let dash = AttributeValue::Text("-".to_string());
    assert!(attrs.iter().any(|(n, v)| *n == "node_id" && *v == dash));
}

#[test]
fn the_audit_pipeline_is_tried_once() {
    let mut pipeline = AuditPipeline { tried: None };
    assert!(!flush_audit(&pipeline));
    assert!(must_build(&pipeline));
    assert!(!init_audit_otel(&mut pipeline, false));
    assert!(!must_build(&pipeline));
    // What the first attempt came to stands.
    assert!(!init_audit_otel(&mut pipeline, true));
    assert!(!flush_audit(&pipeline));

    let mut pipeline = AuditPipeline { tried: None };
    assert!(init_audit_otel(&mut pipeline, true));
    assert!(!must_build(&pipeline));
    assert!(init_audit_otel(&mut pipeline, false));
    assert!(flush_audit(&pipeline));
}

#[test]
fn a_row_holds_the_event() {
    assert_eq!(SqlAuditSink.name(), "sql");
    let row = match SqlAuditSink::to_row(&sample(), &Ok(())) {
        Ok(row) => row,
        Err(d) => panic!("{d:?}"),
    };
    assert_eq!(row.deployment, "dep-000000000000000000000001");
    assert_eq!(row.instance_id, Some(0x11111111_1111_1111_1111_111111111111));
    assert_eq!(row.seq, 3);
    // 2026-07-19T12:00:00Z
    assert_eq!(row.at, 1_784_462_400_000_000_000);
    assert_eq!(row.payload_json, "{}");
}

#[test]
fn a_row_falls_back_where_a_field_does_not_parse() {
    let mut e = sample();
    e.instance_id = "i-1".to_string();
    e.at = "yesterday".to_string();
    e.seq = u32::MAX;
    let row = match row_at(&e, &Ok(()), 42) {
        Ok(row) => row,
        Err(d) => panic!("{d:?}"),
    };
    assert_eq!(row.instance_id, None);
    assert_eq!(row.at, 42);
    assert_eq!(row.seq, i32::MAX);
}

#[test]
fn a_row_needs_a_deployment_id() {
    match row_at(&sample(), &Err("not an id".to_string()), 0) {
        Ok(_) => panic!("the deployment id is not usable"),
        Err(d) => {
            assert_eq!(d.code, Code::AuditSinkWriteFailed);
            assert!(d.message.contains("not an id"), "{}", d.message);
        }
    }
    assert_eq!(SqlAuditSink::write_failure("down").code, Code::AuditSinkWriteFailed);
}
