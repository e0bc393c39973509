//! Telemetry: its configuration, what the pipelines come to, meters and log lines.

use sutra_engine::json::Json;
use sutra_engine::keyed::{TextMap, TextSet};
use sutra_engine::metrics::{
    bounce_points, covered_paths_of, lane_points, queue_depth_points, BouncePoint, CoverageMeta, CoveragePoint,
    InitialCoverage, InstanceEvent, LaneCounts, LaneMeter, OtelMetricsListener, TaskEvent,
    TokenEvent, ATTR_DEPLOYMENT_ID, ATTR_NODE_ID, ATTR_NODE_TYPE, ATTR_TASK_NAME,
    METRIC_COVERAGE_PATH_COVERED, METRIC_INSTANCE_COMPLETED, METRIC_INSTANCE_RESUMED,
    METRIC_INSTANCE_STARTED, METRIC_INSTANCE_SUSPENDED, METRIC_TASK_COMPLETED,
    METRIC_TASK_DURATION, METRIC_TASK_FAILED, METRIC_TASK_INVOKED, METRIC_TOKEN_ENTERED,
    METRIC_TOKEN_LEFT,
};
use sutra_engine::otel::{default_metric_labels, TelemetryConfig, TemporalityPreference};
use sutra_engine::sources::Sources;
use sutra_engine::telemetry::{
    exports_target, flush_active, init, live_signals, log_line, timestamp, ActiveTelemetry,
    ExporterAnswers, LogContext, LogFields, Moment, Telemetry, TraceIds,
};

fn no_env(_: &str) -> Option<String> {
    None
}

/// The environment in which only `key` is set.
fn set(name: &str, key: &str, value: &str) -> Option<String> {
    if name == key {
        Some(value.to_string())
    } else {
        None
    }
}

fn load(file: &TextMap<String>, env: impl Fn(&str) -> Option<String>) -> TelemetryConfig {
    let from = Sources {
        file,
        env,
        resolve: |raw: &str| Ok(raw.to_string()),
        millis: |_: &str, _: u64| None,
    };
    TelemetryConfig::from_sources(&from)
}

#[test]
fn defaults_are_off_and_quiet() {
    let c = load(&TextMap::new(), no_env);
    assert!(!c.is_active(), "no endpoint ⇒ telemetry off");
    assert!(c.enabled);
    assert_eq!(c.service_name, "sutra-engine");
    assert_eq!(c.metrics_temporality, TemporalityPreference::Cumulative);
    assert_eq!(c.metric_labels, vec!["tenant", "module", "version"]);
    assert_eq!(c.metrics_wiring(), None, "no listener wiring when off");
    assert!(c.warnings.is_empty());
}

#[test]
fn endpoint_precedence_canonical_then_otel_then_file() {
    let mut file = TextMap::new();
    file.insert(
        "sutra.telemetry.otlp.endpoint".to_string(),
        "http://file:4317".to_string(),
    );

    let c = load(&file, no_env);
    assert_eq!(c.otlp_endpoint.as_deref(), Some("http://file:4317"));
    assert!(c.is_active());

    // The standard vendor-neutral env beats the file.
    let c = load(&file, |name: &str| set(name, "OTEL_EXPORTER_OTLP_ENDPOINT", "http://otel-collector:4317"));
    assert_eq!(
        c.otlp_endpoint.as_deref(),
        Some("http://otel-collector:4317")
    );

    // The canonical env beats everything.
    let c = load(&file, |name: &str| match name {
        "SUTRA_TELEMETRY_OTLP_ENDPOINT" => Some("http://canonical:4317".into()),
        "OTEL_EXPORTER_OTLP_ENDPOINT" => Some("http://standard:4317".into()),
        _ => None,
    });
    assert_eq!(c.otlp_endpoint.as_deref(), Some("http://canonical:4317"));

    // Only the canonical and the standard OTel names are consulted — any other env
    // name is ignored, leaving the endpoint unset.
    let c = load(&TextMap::new(), |name: &str| set(name, "APP_OTLP_ENDPOINT", "http://ignored:4317"));
    assert_eq!(c.otlp_endpoint, None);
}

#[test]
fn service_name_resolves_from_the_standard_env() {
    let c = load(&TextMap::new(), |name: &str| set(name, "OTEL_SERVICE_NAME", "demo-svc"));
    assert_eq!(c.service_name, "demo-svc");

    let c = load(&TextMap::new(), |name: &str| match name {
        "SUTRA_TELEMETRY_SERVICE_NAME" => Some("canonical".into()),
        "OTEL_SERVICE_NAME" => Some("standard".into()),
        _ => None,
    });
    assert_eq!(c.service_name, "canonical");

    // Only the canonical and the standard OTel names are consulted — any other env
    // name is ignored, so the service name stays at its default.
    let c = load(&TextMap::new(), |name: &str| set(name, "APP_APPLICATION_NAME", "demo-svc"));
    assert_eq!(c.service_name, "sutra-engine");
}

#[test]
fn temporality_env_is_honored_and_invalid_values_fall_back() {
    let c = load(&TextMap::new(), |name: &str| set(name, "OTEL_EXPORTER_OTLP_METRICS_TEMPORALITY_PREFERENCE", "delta"));
    assert_eq!(c.metrics_temporality, TemporalityPreference::Delta);

    let c = load(&TextMap::new(), |name: &str| set(name, "OTEL_EXPORTER_OTLP_METRICS_TEMPORALITY_PREFERENCE", "DELTA"));
    assert_eq!(
        c.metrics_temporality,
        TemporalityPreference::Delta,
        "case-insensitive"
    );

    let c = load(&TextMap::new(), |name: &str| set(name, "OTEL_EXPORTER_OTLP_METRICS_TEMPORALITY_PREFERENCE", "sideways"));
    assert_eq!(
        c.metrics_temporality,
        TemporalityPreference::Cumulative,
        "fail-open on junk"
    );
    assert_eq!(c.warnings.len(), 1);
}

#[test]
fn kill_switches_disable_even_with_an_endpoint() {
    let mut file = TextMap::new();
    file.insert(
        "sutra.telemetry.otlp.endpoint".to_string(),
        "http://collector:4317".to_string(),
    );

    let c = load(&file, |name: &str| set(name, "OTEL_SDK_DISABLED", "true"));
    assert!(!c.is_active(), "OTEL_SDK_DISABLED=true wins");
    assert_eq!(c.metrics_wiring(), None);

    let c = load(&file, |name: &str| set(name, "SUTRA_TELEMETRY_ENABLED", "false"));
    assert!(!c.is_active(), "sutra.telemetry.enabled=false wins");
}

#[test]
fn metric_labels_parse_and_export_interval_validates() {
    let c = load(&TextMap::new(), |name: &str| match name {
        "SUTRA_TELEMETRY_METRIC_LABELS" => Some("tenant , custom,".into()),
        "OTEL_METRIC_EXPORT_INTERVAL" => Some("250".into()),
        _ => None,
    });
    assert_eq!(c.metric_labels, vec!["tenant", "custom"]);
    assert_eq!(c.metrics_export_interval_ms, Some(250));

    let c = load(&TextMap::new(), |name: &str| set(name, "OTEL_METRIC_EXPORT_INTERVAL", "soon"));
    assert_eq!(c.metrics_export_interval_ms, None);
    assert_eq!(c.warnings.len(), 1);
}

fn labels(pairs: &[(&str, &str)]) -> TextMap<String> {
    let mut m = TextMap::new();
    for (k, v) in pairs {
        m.insert(k.to_string(), v.to_string());
    }
    m
}

fn texts(v: &[&str]) -> Vec<String> {
    v.iter().map(|s| s.to_string()).collect()
}

fn coverage_meta(
    deployment_id: &str,
    process_id: &str,
    paths: &[&str],
    tenant: Option<&str>,
    module: Option<&str>,
    version: Option<&str>,
) -> CoverageMeta {
    CoverageMeta {
        deployment_id: deployment_id.to_string(),
        process_id: process_id.to_string(),
        declared_paths: texts(paths),
        tenant: tenant.map(str::to_string),
        module: module.map(str::to_string),
        version: version.map(str::to_string),
    }
}

fn instance_event(deployment_id: &str, process_id: &str) -> InstanceEvent {
    InstanceEvent {
        deployment_id: deployment_id.to_string(),
        labels: labels(&[("tenant", "acme")]),
        instance_id: "i-1".to_string(),
        process_id: process_id.to_string(),
    }
}

fn has_attr(attrs: &[(String, String)], key: &str, value: &str) -> bool {
    attrs.iter().any(|(k, v)| k == key && v == value)
}

/// The percentage that a point stands for.
fn percent(p: &CoveragePoint) -> f64 {
    p.covered as f64 / p.total as f64 * 100.0
}

#[test]
fn metrics_listener_is_safe_on_the_noop_global_meter() {
    let mut listener = OtelMetricsListener::new(default_metric_labels());
    let event = InstanceEvent {
        deployment_id: "dep-0000000000000000000000c1".to_string(),
        labels: labels(&[("tenant", "default")]),
        instance_id: "i-1".to_string(),
        process_id: "p".to_string(),
    };
    assert!(has_attr(&listener.instance_attrs(&event), "tenant", "default"));
    let mut with_path = listener.instance_attrs(&event);
    with_path.push(("path".to_string(), "p-1".to_string()));
    assert_eq!(listener.path_attrs(&event, "path", "p-1"), with_path);
    assert!(listener.on_path_covered(&event, "happy").is_none());
}

#[test]
fn on_path_covered_records_the_coverage_gauge() {
    let mut listener = OtelMetricsListener::new(default_metric_labels()).with_coverage(vec![
        coverage_meta(
            "dep-0000000000000000000000a1",
            "pay",
            &["path-a", "path-b", "path-c", "path-d"],
            Some("acme"),
            Some("billing"),
            Some("1.2.0"),
        ),
    ]);

    let event = instance_event("dep-0000000000000000000000a1", "pay");
    listener.on_path_covered(&event, "path-a").expect("recorded");
    listener.on_path_covered(&event, "path-c").expect("recorded");
    // Idempotent: still two of four.
    let point = listener.on_path_covered(&event, "path-a").expect("recorded");

    assert!((percent(&point) - 50.0).abs() < 1e-9, "2/4 = 50%");
    let attrs = &point.attrs;
    assert!(has_attr(attrs, "deployment.id", "dep-0000000000000000000000a1"));
    assert!(has_attr(attrs, "process.id", "pay"));
    assert!(has_attr(attrs, "tenant", "acme"));
    assert!(has_attr(attrs, "module", "billing"));
    assert!(has_attr(attrs, "version", "1.2.0"));
}

#[test]
fn record_initial_coverage_reflects_pre_existing_store_state() {
    // Two of three declared paths are flagged as covered already.
    let declared = texts(&["path-a", "path-b", "path-c"]);
    let urn = |p: &str| format!("urn:flag:{p}");
    let mut flagged = TextSet::new();
    flagged.insert(urn("path-a"));
    flagged.insert(urn("path-b"));
    let covered = covered_paths_of(&declared, &flagged, &urn);
    assert_eq!(covered.to_texts(), texts(&["path-a", "path-b"]));
    let initial = vec![InitialCoverage {
        deployment_id: "dep-0000000000000000000000a2".to_string(),
        process_id: "pay".to_string(),
        covered,
    }];

    let mut listener = OtelMetricsListener::new(default_metric_labels()).with_coverage(vec![
        coverage_meta(
            "dep-0000000000000000000000a2",
            "pay",
            &["path-a", "path-b", "path-c"],
            None,
            None,
            None,
        ),
    ]);

    let points = listener.apply_initial_coverage(&initial);
    assert_eq!(points.len(), 1);
    let point = &points[0];
    assert!(
        (percent(point) - (2.0 / 3.0 * 100.0)).abs() < 1e-9,
        "2/3 covered at boot"
    );
    assert!(has_attr(&point.attrs, "process.id", "pay"));
    assert!(
        point.attrs.iter().all(|(k, _)| k != "tenant"),
        "tenant omitted when no namespace resolved"
    );
}

#[test]
fn a_path_of_an_unknown_process_moves_no_gauge() {
    let mut listener = OtelMetricsListener::new(default_metric_labels())
        .with_coverage(vec![coverage_meta("dep-1", "pay", &["path-a"], None, None, None)]);
    // Another process of the deployment, and another deployment, have no series.
    assert!(listener.on_path_covered(&instance_event("dep-1", "ship"), "path-a").is_none());
    assert!(listener.on_path_covered(&instance_event("dep-2", "pay"), "path-a").is_none());
    let point = listener.on_path_covered(&instance_event("dep-1", "pay"), "path-a").unwrap();
    assert_eq!((point.covered, point.total), (1, 1));
}

#[test]
fn metric_names_are_the_frozen_wire_names() {
    assert_eq!(METRIC_INSTANCE_STARTED, "sutra.instance.started");
    assert_eq!(METRIC_INSTANCE_COMPLETED, "sutra.instance.completed");
    assert_eq!(METRIC_INSTANCE_SUSPENDED, "sutra.instance.suspended");
    assert_eq!(METRIC_INSTANCE_RESUMED, "sutra.instance.resumed");
    assert_eq!(METRIC_TOKEN_ENTERED, "sutra.token.entered");
    assert_eq!(METRIC_TOKEN_LEFT, "sutra.token.left");
    assert_eq!(METRIC_TASK_INVOKED, "sutra.task.invoked");
    assert_eq!(METRIC_TASK_COMPLETED, "sutra.task.completed");
    assert_eq!(METRIC_TASK_FAILED, "sutra.task.failed");
    assert_eq!(METRIC_TASK_DURATION, "sutra.task.duration");
    assert_eq!(METRIC_COVERAGE_PATH_COVERED, "sutra.coverage.path_covered");
    // The dimension keys.
    assert_eq!(ATTR_DEPLOYMENT_ID, "deployment.id");
    assert_eq!(ATTR_NODE_TYPE, "node.type");
    assert_eq!(ATTR_NODE_ID, "node.id");
    assert_eq!(ATTR_TASK_NAME, "task.name");
}

#[test]
fn instance_id_is_never_emitted_as_a_meter_attribute() {
    let id = "11111111-2222-3333-4444-555555555555";
    let dep = "dep-0000000000000000000000c2";
    let listener = OtelMetricsListener::new(default_metric_labels());

    let instance = InstanceEvent {
        deployment_id: dep.to_string(),
        labels: labels(&[("tenant", "acme")]),
        instance_id: id.to_string(),
        process_id: "payments-v1".to_string(),
    };
    let token = TokenEvent {
        deployment_id: dep.to_string(),
        instance_id: id.to_string(),
        node_id: "serviceTask_1".to_string(),
        node_type: "serviceTask".to_string(),
    };
    let task = TaskEvent {
        deployment_id: dep.to_string(),
        instance_id: id.to_string(),
        task_name: "channel.send".to_string(),
        duration_nanos: 1_000_000,
    };

    let mut all = listener.instance_attrs(&instance);
    all.extend(listener.token_attrs(&token));
    all.extend(listener.task_attrs(&task));

    assert!(!all.is_empty());
    for (key, value) in &all {
        assert_ne!(key, "instance_id");
        assert_ne!(key, "instanceId");
        assert_ne!(key, "instance.id");
        assert_ne!(value, id, "no dimension value is the raw instance id");
    }
    assert!(all.iter().any(|(k, _)| k == ATTR_DEPLOYMENT_ID));
    assert!(all.iter().any(|(k, _)| k == ATTR_NODE_ID));
    assert!(all.iter().any(|(k, _)| k == ATTR_TASK_NAME));
}

// ---- log lines ----------------------------------------------------------------------------------

fn context(trace: Option<TraceIds>, level: &str) -> LogContext {
    LogContext {
        timestamp: "2026-07-12T09:00:00.123+00:00".to_string(),
        sequence: 0,
        level: level.to_string(),
        target: "sutra_engine::otel::tests".to_string(),
        thread: Some("main".to_string()),
        service_name: "wsf-shape-test".to_string(),
        trace,
    }
}

#[test]
fn json_log_lines_carry_the_frozen_fields_and_trace_ids() {
    let fields = LogFields::new()
        .put("deployment_id", Json::text("dep-x"), "dep-x")
        .put("answer", Json::count(42), "42")
        .put("message", Json::text("engine event"), "engine event");
    let ids = TraceIds {
        trace_id: "0af7651916cd43dd8448eb211c80319c".to_string(),
        span_id: "b7ad6b7169203331".to_string(),
        sampled: true,
    };
    let doc = log_line(fields, &context(Some(ids), "INFO"));

    assert_eq!(doc.get_text("timestamp").unwrap(), "2026-07-12T09:00:00.123+00:00");
    assert_eq!(doc.get_text("level").unwrap(), "INFO");
    assert_eq!(doc.get_text("loggerName").unwrap(), "sutra_engine::otel::tests");
    assert_eq!(doc.get_text("message").unwrap(), "engine event");
    assert_eq!(doc.get_text("service.name").unwrap(), "wsf-shape-test");
    assert_eq!(doc.get("sequence").unwrap(), &Json::count(0));
    assert_eq!(doc.get_text("deployment_id").unwrap(), "dep-x");
    assert_eq!(doc.get("answer").unwrap(), &Json::count(42));
    let trace_id = doc.get_text("traceId").expect("traceId inside a span");
    assert_eq!(trace_id.len(), 32, "32-hex trace id: {trace_id}");
    let span_id = doc.get_text("spanId").expect("spanId inside a span");
    assert_eq!(span_id.len(), 16, "16-hex span id: {span_id}");
    assert_eq!(doc.get_text("sampled").unwrap(), "true");
}

#[test]
fn json_log_lines_omit_trace_ids_outside_spans_and_when_otel_is_off() {
    let fields = LogFields::new().put("message", Json::text("plain event"), "plain event");
    let doc = log_line(fields, &context(None, "WARN"));
    assert_eq!(doc.get_text("level").unwrap(), "WARN");
    assert!(doc.get("traceId").is_none(), "no ids when otel is off");
}

#[test]
fn reserved_members_of_a_log_line_win_over_event_fields() {
    let fields = LogFields::new()
        .put("level", Json::text("LOUD"), "LOUD")
        .put("spanId", Json::text("kept"), "kept")
        .put("message", Json::count(7), "7");
    let doc = log_line(fields, &context(None, "INFO"));
    assert_eq!(doc.get_text("level").unwrap(), "INFO");
    assert_eq!(doc.get_text("spanId").unwrap(), "kept");
    assert_eq!(doc.get_text("message").unwrap(), "7");
    assert_eq!(doc.get_text("threadName").unwrap(), "main");
}

// ---- pipelines ----------------------------------------------------------------------------------

#[test]
fn telemetry_without_an_endpoint_builds_no_pipeline() {
    let answers = ExporterAnswers { traces: Ok(()), metrics: Ok(()), logs: Ok(()) };
    let (t, warnings) = init(&load(&TextMap::new(), no_env), &answers, &Ok(()));
    assert!(warnings.is_empty());
    assert_eq!(t, Telemetry { traces: false, metrics: false, logs: false });
    assert!(!t.is_active());
}

#[test]
fn a_pipeline_that_cannot_be_built_is_left_out_with_a_warning() {
    let config = load(&TextMap::new(), |name: &str| {
        set(name, "SUTRA_TELEMETRY_OTLP_ENDPOINT", "http://c:4317")
    });
    let answers = ExporterAnswers { traces: Ok(()), metrics: Err("no".to_string()), logs: Ok(()) };
    let (t, warnings) = init(&config, &answers, &Ok(()));
    assert_eq!(t, live_signals(&config, &answers));
    assert_eq!(t, Telemetry { traces: true, metrics: false, logs: true });
    assert!(t.is_active());
    assert_eq!(warnings.len(), 1);
    assert!(warnings[0].ends_with("no"), "{}", warnings[0]);
    // A subscriber that was there before is warned of last, and takes no signal away.
    let (same, warnings) = init(&config, &answers, &Err("taken".to_string()));
    assert_eq!(same, t);
    assert_eq!(warnings.len(), 2);
    assert_eq!(
        warnings[1],
        "global tracing subscriber already installed — telemetry layers not attached to it (taken)"
    );
}

#[test]
fn a_log_line_is_stamped_to_the_millisecond() {
    let m = Moment {
        year: 2026,
        month: 7,
        day: 12,
        hour: 9,
        minute: 0,
        second: 5,
        millisecond: 23,
    };
    assert_eq!(timestamp(m), "2026-07-12T09:00:05.023+00:00");
    assert_eq!(timestamp(Moment { year: -1, ..m }), "-0001-07-12T09:00:05.023+00:00");
    assert_eq!(timestamp(Moment { year: 10000, ..m }), "+10000-07-12T09:00:05.023+00:00");
}

#[test]
fn the_first_active_telemetry_is_the_one_that_is_flushed() {
    let off = Telemetry { traces: false, metrics: false, logs: false };
    let one = Telemetry { traces: true, metrics: false, logs: false };
    let two = Telemetry { traces: true, metrics: true, logs: true };
    let mut active = ActiveTelemetry { current: None };
    assert_eq!(flush_active(&active), off);
    assert!(!active.install(off));
    assert_eq!(flush_active(&active), off);
    assert!(active.install(one));
    assert!(!active.install(two));
    assert_eq!(flush_active(&active), one);
}

#[test]
fn the_log_bridge_does_not_see_the_exporters_own_events() {
    assert!(exports_target("sutra_engine::deploy"));
    assert!(!exports_target("opentelemetry_sdk::logs"));
    assert!(!exports_target("tonic"));
    assert!(!exports_target("h2::client"));
    assert!(!exports_target("hyper_util"));
    assert!(!exports_target("tower"));
}

// ---- lanes --------------------------------------------------------------------------------------

#[test]
fn each_lane_is_a_point_of_its_meters() {
    let lanes = vec![
        LaneCounts {
            queue_depth: 1,
            dispatches: 2,
            parks: 3,
            resumes: 4,
            handoffs: 5,
            claim_bounce_relay: 6,
            claim_bounce_timer: 7,
        },
        LaneCounts {
            queue_depth: 0,
            dispatches: 20,
            parks: 30,
            resumes: 40,
            handoffs: 50,
            claim_bounce_relay: 60,
            claim_bounce_timer: 70,
        },
    ];
    assert_eq!(lane_points(LaneMeter::Dispatches, &lanes), vec![(0, 2), (1, 20)]);
    assert_eq!(lane_points(LaneMeter::Parks, &lanes), vec![(0, 3), (1, 30)]);
    assert_eq!(lane_points(LaneMeter::Resumes, &lanes), vec![(0, 4), (1, 40)]);
    assert_eq!(lane_points(LaneMeter::Handoffs, &lanes), vec![(0, 5), (1, 50)]);
    assert_eq!(queue_depth_points(&lanes), vec![(0, 1), (1, 0)]);
    let bounces: Vec<(usize, &str, u64)> =
        bounce_points(&lanes).iter().map(|p: &BouncePoint| (p.shard, p.path, p.value)).collect();
    assert_eq!(
        bounces,
        vec![(0, "relay", 6), (0, "timer", 7), (1, "relay", 60), (1, "timer", 70)]
    );
}
