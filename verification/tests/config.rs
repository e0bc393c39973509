//! Configuration out of a properties file and the environment.

use sutra_engine::config::{
    AdminAuthConfig, DeferredAckConfig, DeploymentSourceKind, EngineConfig, EngineShardConfig,
    ExternalTaskLimits, RetryConfig, StuckInstanceScannerConfig, TerminalRetentionConfig,
    DEFAULT_MAX_PAYLOAD_BYTES,
};
use sutra_engine::duration::{parse_duration, Duration};
use sutra_engine::keyed::TextMap;
use sutra_engine::otel::TemporalityPreference;
use sutra_engine::sources::{ConfigError, Sources};

/// The whole milliseconds of a decimal number in a unit of `unit` milliseconds.
fn millis(number: &str, unit: u64) -> Option<u64> {
    let parsed = number.parse::<f64>().ok()?;
    if !parsed.is_finite() || parsed < 0.0 {
        return None;
    }
    Some((parsed * unit as f64).round() as u64)
}

fn limits() -> ExternalTaskLimits {
    ExternalTaskLimits {
        default_lock_duration: Duration::from_secs(30),
        max_lock_duration: Duration::from_secs(3600),
        max_async_response_timeout: Duration::from_secs(60),
        max_tasks: 100,
        retries: 3,
        retry_timeout: Duration::from_secs(10),
    }
}

fn load(
    file: &TextMap<String>,
    env: impl Fn(&str) -> Option<String>,
) -> Result<EngineConfig, ConfigError> {
    let from = Sources { file, env, resolve: |raw: &str| Ok(raw.to_string()), millis };
    EngineConfig::from_sources(&from, limits())
}

/// The environment in which only `key` is set.
fn set(name: &str, key: &str, value: &str) -> Option<String> {
    if name == key {
        Some(value.to_string())
    } else {
        None
    }
}


#[test]
fn precedence_canonical_env_over_file() {
    let mut file = TextMap::new();
    file.insert(
        "sutra.deployments.dir".to_string(),
        "/from-file".to_string(),
    );
    file.insert("sutra.http.port".to_string(), "1111".to_string());

    // file only
    let c = load(&file, |_: &str| None).unwrap();
    assert_eq!(c.deployments_dir, Some("/from-file".to_string()));
    assert_eq!(c.http_port, 1111);

    // canonical env beats the file
    let c = load(&file, |name: &str| match name {
        "SUTRA_DEPLOYMENTS_DIR" => Some("/canonical".into()),
        "SUTRA_HTTP_PORT" => Some("0".into()),
        "SUTRA_DATASOURCE_URL" => Some("postgresql://db/engine".into()),
        _ => None,
    })
    .unwrap();
    assert_eq!(c.deployments_dir, Some("/canonical".to_string()));
    assert_eq!(c.http_port, 0);
    assert_eq!(c.datasource_url.as_deref(), Some("postgresql://db/engine"));

    // unset env falls back to the file
    let c = load(&file, |name: &str| match name {
        "SUTRA_DEPLOYMENTS_DIR" => Some("/canonical".into()),
        _ => None,
    })
    .unwrap();
    assert_eq!(c.deployments_dir, Some("/canonical".to_string()));
    assert_eq!(c.http_port, 1111, "unset env falls back to the file");

    // Only the canonical `SUTRA_*` env names are read — any other prefix is ignored,
    // so the file values stand and an unset canonical key stays `None`.
    let c = load(&file, |name: &str| match name {
        "APP_HTTP_PORT" => Some("0".into()),
        "APP_DATASOURCE_URL" => Some("postgresql://db/engine".into()),
        _ => None,
    })
    .unwrap();
    assert_eq!(c.deployments_dir, Some("/from-file".to_string()));
    assert_eq!(c.http_port, 1111);
    assert_eq!(c.datasource_url, None);
}

#[test]
fn a_set_environment_value_hides_the_file_in_the_whole_configuration() {
    let env = |name: &str| match name {
        "SUTRA_DEPLOYMENTS_DIR" => Some("/d".to_string()),
        "SUTRA_AUDIT_JSONL" => Some("/audit".to_string()),
        "SUTRA_OUTBOX_RETRY_BASE_DELAY" => Some("PT2S".to_string()),
        "SUTRA_TELEMETRY_OTLP_ENDPOINT" => Some("http://c".to_string()),
        _ => None,
    };
    let bare = load(&TextMap::new(), env).unwrap();
    for key in [
        "sutra.deployments.dir",
        "sutra.audit.jsonl.path",
        "sutra.outbox.retry.base-delay",
        "sutra.telemetry.otlp.endpoint",
    ] {
        let mut file = TextMap::new();
        file.insert(key.to_string(), "nonsense".to_string());
        assert_eq!(load(&file, env).unwrap(), bare, "{key}");
    }
}

#[test]
fn telemetry_never_refuses_a_boot() {
    let mut file = TextMap::new();
    file.insert("sutra.deployments.dir".to_string(), "/d".to_string());
    let plain = load(&file, |_: &str| None).unwrap();
    file.insert("sutra.telemetry.enabled".to_string(), "perhaps".to_string());
    let odd = load(&file, |name: &str| match name {
        "OTEL_METRIC_EXPORT_INTERVAL" => Some("soon".to_string()),
        "SUTRA_TELEMETRY_METRICS_TEMPORALITY_PREFERENCE" => Some("odd".to_string()),
        _ => None,
    })
    .unwrap();
    assert_eq!(odd.telemetry.warnings.len(), 2);
    assert_eq!(EngineConfig { telemetry: plain.telemetry.clone(), ..odd }, plain);
}

#[test]
fn no_source_sets_the_clock() {
    let mut file = TextMap::new();
    file.insert("sutra.deployments.dir".to_string(), "/d".to_string());
    file.insert("sutra.now-override".to_string(), "0".to_string());
    let config = load(&file, |name: &str| set(name, "SUTRA_NOW_OVERRIDE", "0")).unwrap();
    assert_eq!(config.now_override, None);
}

#[test]
fn deferred_ack_knobs_default_and_parse_from_env_or_file() {
    let mut file = TextMap::new();
    file.insert("sutra.deployments.dir".to_string(), "/r".to_string());

    // Documented defaults: capacity 10 000, timeout PT1H, sweep PT1M.
    let c = load(&file, |_: &str| None).unwrap();
    assert_eq!(c.deferred_ack, DeferredAckConfig::default());
    assert_eq!(c.deferred_ack.capacity, 10_000);
    assert_eq!(c.deferred_ack.timeout, Duration::from_secs(3600));
    assert_eq!(
        c.deferred_ack.sweep_interval,
        Duration::from_secs(60)
    );

    // File values parse (ISO-8601 + bare seconds); a canonical env var beats the file.
    file.insert("sutra.ack.deferred.capacity".to_string(), "500".to_string());
    file.insert("sutra.ack.deferred.timeout".to_string(), "PT2H".to_string());
    file.insert(
        "sutra.ack.deferred.sweep-interval".to_string(),
        "30".to_string(),
    );
    let c = load(&file, |name: &str| set(name, "SUTRA_ACK_DEFERRED_CAPACITY", "2000"))
    .unwrap();
    assert_eq!(c.deferred_ack.capacity, 2000, "env beats the file");
    assert_eq!(c.deferred_ack.timeout, Duration::from_secs(7200));
    assert_eq!(
        c.deferred_ack.sweep_interval,
        Duration::from_secs(30)
    );

    // Invalid values fail closed: zero/garbage capacity, zero sweep interval.
    file.insert("sutra.ack.deferred.capacity".to_string(), "0".to_string());
    assert!(load(&file, |_: &str| None).is_err());
    file.insert(
        "sutra.ack.deferred.capacity".to_string(),
        "many".to_string(),
    );
    assert!(load(&file, |_: &str| None).is_err());
    file.insert("sutra.ack.deferred.capacity".to_string(), "500".to_string());
    file.insert(
        "sutra.ack.deferred.sweep-interval".to_string(),
        "PT0S".to_string(),
    );
    assert!(load(&file, |_: &str| None).is_err());
}

#[test]
fn instance_sweep_knobs_default_and_parse_from_env_or_file() {
    let mut file = TextMap::new();
    file.insert("sutra.deployments.dir".to_string(), "/r".to_string());

    // Documented defaults: sweep PT1M, claim timeout PT5M.
    let c = load(&file, |_: &str| None).unwrap();
    assert_eq!(
        c.instance_sweep,
        StuckInstanceScannerConfig::default()
    );
    assert_eq!(
        c.instance_sweep.interval,
        Duration::from_secs(60)
    );
    assert_eq!(
        c.instance_sweep.claim_timeout,
        Duration::from_secs(300)
    );

    // File values parse (ISO-8601 + bare seconds); a canonical env var beats the file.
    file.insert(
        "sutra.instance.sweep-interval".to_string(),
        "PT10S".to_string(),
    );
    file.insert(
        "sutra.instance.claim-timeout".to_string(),
        "120".to_string(),
    );
    let c = load(&file, |name: &str| set(name, "SUTRA_INSTANCE_CLAIM_TIMEOUT", "PT30M"))
    .unwrap();
    assert_eq!(
        c.instance_sweep.interval,
        Duration::from_secs(10)
    );
    assert_eq!(
        c.instance_sweep.claim_timeout,
        Duration::from_secs(1800),
        "env beats the file"
    );

    // Fail closed: a zero interval hot-loops the scanner; a zero timeout (or one inside a
    // single sweep tick) would reclaim instances out from under a live owner.
    file.insert(
        "sutra.instance.sweep-interval".to_string(),
        "PT0S".to_string(),
    );
    assert!(load(&file, |_: &str| None).is_err());
    file.insert(
        "sutra.instance.sweep-interval".to_string(),
        "PT10S".to_string(),
    );
    file.insert(
        "sutra.instance.claim-timeout".to_string(),
        "PT0S".to_string(),
    );
    assert!(load(&file, |_: &str| None).is_err());
    file.insert(
        "sutra.instance.claim-timeout".to_string(),
        "PT10S".to_string(),
    );
    assert!(
        load(&file, |_: &str| None).is_err(),
        "claim-timeout must be strictly greater than the sweep interval"
    );
}

#[test]
fn engine_shard_knobs_default_parse_and_accept_n_lanes() {
    let mut file = TextMap::new();
    file.insert("sutra.deployments.dir".to_string(), "/r".to_string());

    // Documented defaults: one lane, unbounded queue.
    let c = load(&file, |_: &str| None).unwrap();
    assert_eq!(c.engine_shards, EngineShardConfig::default());
    assert_eq!(c.engine_shards.shards, 1);
    assert_eq!(c.engine_shards.queue_capacity, None);

    // An explicit 1 and a bounded queue both parse; a canonical env var beats the file.
    file.insert("sutra.engine.shards".to_string(), "1".to_string());
    file.insert(
        "sutra.engine.shard-queue-capacity".to_string(),
        "64".to_string(),
    );
    let c = load(&file, |name: &str| set(name, "SUTRA_ENGINE_SHARD_QUEUE_CAPACITY", "128"))
    .unwrap();
    assert_eq!(c.engine_shards.shards, 1);
    assert_eq!(
        c.engine_shards.queue_capacity,
        Some(128),
        "env beats the file"
    );

    // Fail closed: zero lanes is meaningless, and a zero capacity is "no queue at
    // all" (UNSET is how an unbounded queue is asked for).
    file.insert("sutra.engine.shards".to_string(), "0".to_string());
    assert!(load(&file, |_: &str| None).is_err());
    file.insert("sutra.engine.shards".to_string(), "1".to_string());
    file.insert(
        "sutra.engine.shard-queue-capacity".to_string(),
        "0".to_string(),
    );
    assert!(load(&file, |_: &str| None).is_err());
    file.insert(
        "sutra.engine.shard-queue-capacity".to_string(),
        "64".to_string(),
    );

    // Several lanes are accepted.
    file.insert("sutra.engine.shards".to_string(), "4".to_string());
    let c = load(&file, |_: &str| None).unwrap();
    assert_eq!(c.engine_shards.shards, 4);
    assert_eq!(
        c.engine_shards.queue_capacity,
        Some(64),
        "the per-lane queue bound rides along unchanged"
    );
}

#[test]
fn instance_retention_defaults_to_a_week_and_accepts_pt0s_as_delete_at_terminal() {
    let mut file = TextMap::new();
    file.insert("sutra.deployments.dir".to_string(), "/r".to_string());

    // Documented defaults: retain P7D, purge hourly.
    let c = load(&file, |_: &str| None).unwrap();
    assert_eq!(
        c.instance_retention,
        TerminalRetentionConfig::default()
    );
    assert_eq!(
        c.instance_retention.retention,
        Duration::from_secs(604_800)
    );
    assert_eq!(
        c.instance_retention.interval,
        Duration::from_secs(3600)
    );

    // File values parse (day component included); a canonical env var beats the file.
    file.insert("sutra.instance.retention".to_string(), "P30D".to_string());
    file.insert(
        "sutra.instance.retention-sweep-interval".to_string(),
        "PT15M".to_string(),
    );
    let c = load(&file, |name: &str| set(name, "SUTRA_INSTANCE_RETENTION", "PT36H"))
    .unwrap();
    assert_eq!(
        c.instance_retention.retention,
        Duration::from_secs(129_600),
        "env beats the file"
    );
    assert_eq!(
        c.instance_retention.interval,
        Duration::from_secs(900)
    );

    // PT0S is LEGAL for the retention itself — it is the explicit "keep no history, delete at
    // the terminal step" posture.
    file.insert("sutra.instance.retention".to_string(), "PT0S".to_string());
    let c = load(&file, |_: &str| None).unwrap();
    assert_eq!(c.instance_retention.retention, Duration::from_secs(0));

    // …but a zero purge cadence is not: it would hot-loop the sweep task.
    file.insert(
        "sutra.instance.retention-sweep-interval".to_string(),
        "PT0S".to_string(),
    );
    assert!(load(&file, |_: &str| None).is_err());
}

#[test]
fn outbox_tick_interval_parses_iso8601_and_defaults_to_pt5s() {
    let mut file = TextMap::new();
    file.insert("sutra.deployments.dir".to_string(), "/r".to_string());

    let c = load(&file, |_: &str| None).unwrap();
    assert_eq!(c.outbox_tick_interval, Duration::from_secs(5));

    file.insert(
        "sutra.outbox.tick-interval".to_string(),
        "PT0.2S".to_string(),
    );
    let c = load(&file, |_: &str| None).unwrap();
    assert_eq!(
        c.outbox_tick_interval,
        Duration::from_millis(200)
    );

    let c = load(&file, |name: &str| set(name, "SUTRA_OUTBOX_TICK_INTERVAL", "PT1M30S"))
    .unwrap();
    assert_eq!(c.outbox_tick_interval, Duration::from_secs(90));

    file.insert("sutra.outbox.tick-interval".to_string(), "7".to_string());
    let c = load(&file, |_: &str| None).unwrap();
    assert_eq!(c.outbox_tick_interval, Duration::from_secs(7));

    file.insert(
        "sutra.outbox.tick-interval".to_string(),
        "five seconds".to_string(),
    );
    assert!(load(&file, |_: &str| None).is_err());
}

#[test]
fn outbox_retry_defaults_match_the_shipped_curve_and_parse_overrides() {
    let mut file = TextMap::new();
    file.insert("sutra.deployments.dir".to_string(), "/r".to_string());

    // Defaults reproduce RetryPolicy::default() (PT1S / PT5M / jitter on).
    let c = load(&file, |_: &str| None).unwrap();
    assert_eq!(c.outbox_retry, RetryConfig::default());
    assert_eq!(c.outbox_retry.base_delay, Duration::from_secs(1));
    assert_eq!(c.outbox_retry.max_delay, Duration::from_secs(300));
    assert!(c.outbox_retry.jitter);

    // File overrides (generalized shape).
    file.insert(
        "sutra.outbox.retry.base-delay".to_string(),
        "PT2S".to_string(),
    );
    file.insert(
        "sutra.outbox.retry.max-delay".to_string(),
        "PT30S".to_string(),
    );
    file.insert("sutra.outbox.retry.jitter".to_string(), "false".to_string());
    let c = load(&file, |_: &str| None).unwrap();
    assert_eq!(c.outbox_retry.base_delay, Duration::from_secs(2));
    assert_eq!(c.outbox_retry.max_delay, Duration::from_secs(30));
    assert!(!c.outbox_retry.jitter);

    // Canonical env beats the file.
    let c = load(&file, |name: &str| set(name, "SUTRA_OUTBOX_RETRY_BASE_DELAY", "PT5S"))
    .unwrap();
    assert_eq!(c.outbox_retry.base_delay, Duration::from_secs(5));

    // Fail-closed: max < base.
    let mut bad = TextMap::new();
    bad.insert("sutra.deployments.dir".to_string(), "/r".to_string());
    bad.insert(
        "sutra.outbox.retry.base-delay".to_string(),
        "PT10S".to_string(),
    );
    bad.insert(
        "sutra.outbox.retry.max-delay".to_string(),
        "PT1S".to_string(),
    );
    let err = load(&bad, |_: &str| None).unwrap_err();
    assert!(err.0.contains("max-delay"), "{}", err.0);

    // Fail-closed: non-boolean jitter.
    bad.insert(
        "sutra.outbox.retry.max-delay".to_string(),
        "PT30S".to_string(),
    );
    bad.insert("sutra.outbox.retry.jitter".to_string(), "maybe".to_string());
    let err = load(&bad, |_: &str| None).unwrap_err();
    assert!(err.0.contains("jitter"), "{}", err.0);
}

#[test]
fn outbox_max_attempts_is_absent_by_default_and_parses_a_configured_ceiling() {
    let mut file = TextMap::new();
    file.insert("sutra.deployments.dir".to_string(), "/r".to_string());

    // ABSENT = retry forever. This is the documented default, not an oversight: a default
    // ceiling would silently convert "the broker was down for an hour" into "the message was
    // dropped", and at-least-once is the outbox's whole contract.
    let c = load(&file, |_: &str| None).unwrap();
    assert_eq!(c.outbox_retry.max_attempts, None);

    file.insert(
        "sutra.outbox.retry.max-attempts".to_string(),
        "7".to_string(),
    );
    let c = load(&file, |_: &str| None).unwrap();
    assert_eq!(c.outbox_retry.max_attempts, Some(7));

    // The canonical env twin beats the file, like every other key.
    let c = load(&file, |name: &str| set(name, "SUTRA_OUTBOX_RETRY_MAX_ATTEMPTS", "3"))
    .unwrap();
    assert_eq!(c.outbox_retry.max_attempts, Some(3));

    // Fail-closed on a value that cannot mean anything: "give up before attempting" is never
    // what was intended, and silently coercing it would stop the outbox delivering at all.
    for raw in ["0", "-1", "lots", "3.5"] {
        let mut bad = TextMap::new();
        bad.insert("sutra.deployments.dir".to_string(), "/r".to_string());
        bad.insert(
            "sutra.outbox.retry.max-attempts".to_string(),
            raw.to_string(),
        );
        let err = load(&bad, |_: &str| None).unwrap_err();
        assert!(
            err.0.contains("max-attempts"),
            "max-attempts='{raw}' must refuse boot: {}",
            err.0
        );
    }
}

#[test]
fn payload_cap_defaults_to_ten_mebibytes_and_parses_overrides() {
    let mut file = TextMap::new();
    file.insert("sutra.deployments.dir".to_string(), "/r".to_string());

    // Default = the shipped 10 MiB global ceiling.
    let c = load(&file, |_: &str| None).unwrap();
    assert_eq!(
        c.payload_cap_bytes,
        DEFAULT_MAX_PAYLOAD_BYTES
    );
    assert_eq!(c.payload_cap_bytes, 10 * 1024 * 1024);

    // `0` disables the global cap.
    file.insert("sutra.codec.max-payload-bytes".to_string(), "0".to_string());
    let c = load(&file, |_: &str| None).unwrap();
    assert_eq!(c.payload_cap_bytes, 0);

    // Canonical env overrides the file.
    let c = load(&file, |name: &str| set(name, "SUTRA_CODEC_MAX_PAYLOAD_BYTES", "1048576"))
    .unwrap();
    assert_eq!(c.payload_cap_bytes, 1024 * 1024);

    // A non-numeric / negative value is a fail-closed config error.
    file.insert(
        "sutra.codec.max-payload-bytes".to_string(),
        "-1".to_string(),
    );
    let err = load(&file, |_: &str| None).unwrap_err();
    assert!(err.0.contains("max-payload-bytes"), "{}", err.0);
}

#[test]
fn audit_jsonl_path_is_off_by_default_and_parses_from_env_or_file() {
    let mut file = TextMap::new();
    file.insert("sutra.deployments.dir".to_string(), "/r".to_string());

    // Off by default (no engine-global audit sink — neither JSONL, OTel, nor SQL).
    let c = load(&file, |_: &str| None).unwrap();
    assert_eq!(c.audit.jsonl_path, None);
    assert_eq!(c.audit.otel_endpoint, None);
    assert!(!c.audit.sql);

    // Canonical env activates the JSONL sink.
    let c = load(&file, |name: &str| set(name, "SUTRA_AUDIT_JSONL", "/var/log/sutra/audit.jsonl"))
    .unwrap();
    assert_eq!(
        c.audit.jsonl_path,
        Some("/var/log/sutra/audit.jsonl".to_string())
    );

    // File form.
    file.insert(
        "sutra.audit.jsonl.path".to_string(),
        "/data/audit.jsonl".to_string(),
    );
    let c = load(&file, |_: &str| None).unwrap();
    assert_eq!(c.audit.jsonl_path, Some("/data/audit.jsonl".to_string()));

    // The OTel-log sink activates on a DEDICATED endpoint (`sutra.audit.otel.endpoint`) — its own
    // audit OTLP pipeline, never the engine telemetry stream. `None` when unset/blank.
    let c = load(&file, |name: &str| set(name, "SUTRA_AUDIT_OTEL_ENDPOINT", "http://audit-otel:4317"))
    .unwrap();
    assert_eq!(
        c.audit.otel_endpoint.as_deref(),
        Some("http://audit-otel:4317")
    );
    // JSONL + OTel compose (both set here).
    assert_eq!(c.audit.jsonl_path, Some("/data/audit.jsonl".to_string()));

    file.insert(
        "sutra.audit.otel.endpoint".to_string(),
        "http://a:4317".to_string(),
    );
    let c = load(&file, |_: &str| None).unwrap();
    assert_eq!(c.audit.otel_endpoint.as_deref(), Some("http://a:4317"));
    // A blank endpoint is treated as unset.
    file.insert("sutra.audit.otel.endpoint".to_string(), "  ".to_string());
    let c = load(&file, |_: &str| None).unwrap();
    assert_eq!(c.audit.otel_endpoint, None);

    // The SQL sink is the third composable toggle (`sutra.audit.sql`) — default false,
    // activated by env/file, lenient-boolean parsed. Registration is additionally gated on
    // a datasource pool being present (see the assembly).
    let c = load(&file, |name: &str| set(name, "SUTRA_AUDIT_SQL", "true"))
    .unwrap();
    assert!(c.audit.sql);
    file.insert("sutra.audit.sql".to_string(), "1".to_string());
    let c = load(&file, |_: &str| None).unwrap();
    assert!(c.audit.sql);
}

#[test]
fn parse_duration_rejects_malformed_forms() {
    assert!(parse_duration("PT", &millis).is_err());
    assert!(parse_duration("PT5", &millis).is_err());
    assert!(parse_duration("", &millis).is_err());
    assert!(parse_duration("P", &millis).is_err());
    // A month is not a duration, and a week is not a unit this engine takes.
    assert!(parse_duration("P1M", &millis).is_err());
    assert!(parse_duration("P2W", &millis).is_err());
    // Units in the wrong half are rejected rather than silently reinterpreted.
    assert!(parse_duration("P5S", &millis).is_err());
    assert!(parse_duration("PT1D", &millis).is_err());
    assert_eq!(
        parse_duration("pt2h", &millis).unwrap(),
        Duration::from_secs(7200)
    );
}

#[test]
fn parse_duration_accepts_the_day_component_the_retention_window_is_stated_in() {
    assert_eq!(
        parse_duration("P7D", &millis).unwrap(),
        Duration::from_secs(604_800)
    );
    assert_eq!(
        parse_duration("P1DT12H", &millis).unwrap(),
        Duration::from_secs(129_600)
    );
    assert_eq!(parse_duration("PT0S", &millis).unwrap(), Duration::from_secs(0));
    // The time part reads as before.
    assert_eq!(
        parse_duration("PT1M30S", &millis).unwrap(),
        Duration::from_secs(90)
    );
    assert_eq!(
        parse_duration("PT0.2S", &millis).unwrap(),
        Duration::from_millis(200)
    );
}

#[test]
fn telemetry_keys_resolve_through_the_engine_config() {
    let mut file = TextMap::new();
    file.insert("sutra.deployments.dir".to_string(), "/r".to_string());

    // Defaults: telemetry off, fail-open (no error despite no telemetry keys).
    let c = load(&file, |_: &str| None).unwrap();
    assert!(!c.telemetry.is_active());

    // The canonical SUTRA_TELEMETRY_* + the standard
    // vendor-neutral temporality env) activates export.
    let c = load(&file, |name: &str| match name {
        "SUTRA_TELEMETRY_OTLP_ENDPOINT" => Some("http://otel-collector:4317".into()),
        "OTEL_EXPORTER_OTLP_METRICS_TEMPORALITY_PREFERENCE" => Some("delta".into()),
        "SUTRA_TELEMETRY_SERVICE_NAME" => Some("demo-svc".into()),
        _ => None,
    })
    .unwrap();
    assert!(c.telemetry.is_active());
    assert_eq!(
        c.telemetry.otlp_endpoint.as_deref(),
        Some("http://otel-collector:4317")
    );
    assert_eq!(c.telemetry.service_name, "demo-svc");
    assert_eq!(
        c.telemetry.metrics_temporality,
        TemporalityPreference::Delta
    );
    assert_eq!(
        c.telemetry.metrics_wiring(),
        Some(vec![
            "tenant".to_string(),
            "module".to_string(),
            "version".to_string()
        ])
    );
}

#[test]
fn deployments_dir_is_required_and_port_validates() {
    let empty = TextMap::new();
    let err = load(&empty, |_: &str| None).unwrap_err();
    assert!(
        err.0.contains("sutra.deployments.dir"),
        "the deployments source is required: {}",
        err.0
    );

    let err = load(&empty, |name: &str| match name {
        "SUTRA_DEPLOYMENTS_DIR" => Some("/r".into()),
        "SUTRA_HTTP_PORT" => Some("not-a-port".into()),
        _ => None,
    })
    .unwrap_err();
    assert!(err.0.contains("not a valid port"));
}

#[test]
fn deployment_source_db_needs_no_dir_and_parses() {
    // `db` source boots from the deployment_archive store — no deployments_dir required.
    let cfg = load(&TextMap::new(), |name: &str| match name {
        "SUTRA_DEPLOYMENT_SOURCE" => Some("db".into()),
        _ => None,
    })
    .expect("db source needs no deployments_dir");
    assert_eq!(cfg.deployment_source, DeploymentSourceKind::Db);
    assert!(cfg.deployments_dir.is_none());

    // The default stays `dir` (and still requires a dir).
    let cfg = load(&TextMap::new(), |name: &str| match name {
        "SUTRA_DEPLOYMENTS_DIR" => Some("/r".into()),
        _ => None,
    })
    .unwrap();
    assert_eq!(cfg.deployment_source, DeploymentSourceKind::Dir);

    // A bogus source is rejected.
    let err = load(&TextMap::new(), |name: &str| match name {
        "SUTRA_DEPLOYMENT_SOURCE" => Some("s3".into()),
        _ => None,
    })
    .unwrap_err();
    assert!(err.0.contains("sutra.deployment.source"), "{}", err.0);
}

#[test]
fn crypto_envelope_and_incident_keys_parse_and_fail_closed() {
    let dir = || {
        let mut f = TextMap::new();
        f.insert("sutra.deployments.dir".to_string(), "/r".to_string());
        f
    };

    // Default: envelope disabled, incident_sql off (opt-in like audit.sql).
    let c = load(&dir(), |_: &str| None).unwrap();
    assert!(!c.crypto_envelope.enabled);
    assert!(c.crypto_envelope.kek_ref.is_none());
    assert!(!c.incident_sql);

    // Enabled + a KEK ref parses; the kek is captured UNRESOLVED for build-time whole-value
    // resolution (not scheme-resolved at load, like admin.auth.key-ref).
    let mut f = dir();
    f.insert(
        "sutra.crypto.envelope.enabled".to_string(),
        "true".to_string(),
    );
    f.insert(
        "sutra.crypto.envelope.kek".to_string(),
        "secret:kek".to_string(),
    );
    f.insert("sutra.incident.sql".to_string(), "true".to_string());
    let c = load(&f, |_: &str| None).unwrap();
    assert!(c.crypto_envelope.enabled);
    assert_eq!(c.crypto_envelope.kek_ref.as_deref(), Some("secret:kek"));
    assert!(c.incident_sql);

    // Fail-closed: envelope enabled without a KEK ref is refused.
    let mut f = dir();
    f.insert(
        "sutra.crypto.envelope.enabled".to_string(),
        "true".to_string(),
    );
    let err = load(&f, |_: &str| None).unwrap_err();
    assert!(err.0.contains("sutra.crypto.envelope.kek"), "{}", err.0);

    // Fail-closed: envelope + master-key are mutually exclusive (ambiguous key source).
    let mut f = dir();
    f.insert(
        "sutra.crypto.envelope.enabled".to_string(),
        "true".to_string(),
    );
    f.insert(
        "sutra.crypto.envelope.kek".to_string(),
        "secret:kek".to_string(),
    );
    f.insert("sutra.crypto.master-key".to_string(), "s3cr3t".to_string());
    let err = load(&f, |_: &str| None).unwrap_err();
    assert!(err.0.contains("mutually exclusive"), "{}", err.0);
}

#[test]
fn admin_oidc_defaults_are_fail_closed_and_keys_parse() {
    let mut file = TextMap::new();
    file.insert("sutra.deployments.dir".to_string(), "/r".to_string());

    // Defaults: no OIDC params, NOT dev-disabled → an UNCONFIGURED (503, closed) surface.
    let c = load(&file, |_: &str| None).unwrap();
    assert_eq!(c.admin_auth, AdminAuthConfig::default());
    assert!(c.admin_auth.issuer.is_none());
    assert!(c.admin_auth.audience.is_none());
    assert!(c.admin_auth.jwks.is_none());
    assert_eq!(c.admin_auth.role_claim, "roles");
    assert_eq!(c.admin_auth.required_role, "sutra-admin");
    assert!(
        !c.admin_auth.dev_disabled,
        "gating is never dev-disabled by default"
    );

    // Canonical env configures the OIDC gating (issuer/audience/jwks + claim wiring).
    let c = load(&file, |name: &str| match name {
        "SUTRA_ADMIN_OIDC_ISSUER" => Some("https://idp.example.com/".into()),
        "SUTRA_ADMIN_OIDC_AUDIENCE" => Some("sutra-admin".into()),
        "SUTRA_ADMIN_OIDC_JWKS" => Some("https://idp.example.com/jwks.json".into()),
        "SUTRA_ADMIN_OIDC_ROLE_CLAIM" => Some("scope".into()),
        "SUTRA_ADMIN_OIDC_REQUIRED_ROLE" => Some("admin".into()),
        _ => None,
    })
    .unwrap();
    assert_eq!(
        c.admin_auth.issuer.as_deref(),
        Some("https://idp.example.com/")
    );
    assert_eq!(c.admin_auth.audience.as_deref(), Some("sutra-admin"));
    assert_eq!(
        c.admin_auth.jwks.as_deref(),
        Some("https://idp.example.com/jwks.json")
    );
    assert_eq!(c.admin_auth.role_claim, "scope");
    assert_eq!(c.admin_auth.required_role, "admin");

    // The dev escape hatch is an explicit, lenient-boolean opt-in.
    let c = load(&file, |name: &str| set(name, "SUTRA_ADMIN_OIDC_DEV_DISABLED", "true"))
    .unwrap();
    assert!(c.admin_auth.dev_disabled);
    file.insert(
        "sutra.admin.oidc.dev-disabled".to_string(),
        "nope".to_string(),
    );
    let err = load(&file, |_: &str| None).unwrap_err();
    assert!(err.0.contains("dev-disabled"), "{}", err.0);
}

