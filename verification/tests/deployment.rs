//! Planning deployments, tracking a directory of archives and wiring the engine.

use sutra_engine::activation::{
    activate_plans, initial_coverage, reactivate_from_store, ActivePlan, FlipStep, LiveDeployments,
};
use sutra_engine::assembly::{
    plan_deployment, redactor_local_id, resolve_outbound, rule_local_id, ArtifactType, CodecFolder,
    DeclaredStore, DeploymentPlan, LoadFailure, LoadedDeployment, Outside, RedactorArtifact,
    RuleArtifact, StoreBinding,
};
use sutra_engine::config::{AuditConfig, CryptoEnvelopeConfig, EngineConfig, ExternalTaskLimits};
use sutra_engine::deploy::{
    list_archives, source_missing, DeploymentDirectory, FileStamp, SeenArchive,
    DEPLOY_SOURCE_MISSING,
};
use sutra_engine::duration::Duration;
use sutra_engine::engine::{
    build_engine, build_engine_runtime, build_key_provider, coverage_seed, residual_bindings,
    wire_audit, wire_coverage, CoverageRoute, EngineFacts, KeySource,
};
use sutra_engine::graph::{Node, NodeKind, ProcessDefinition, ProcessModule};
use sutra_engine::json::Json;
use sutra_engine::keyed::{TextMap, TextSet};
use sutra_engine::lanes::{payload_cap_policy, register_archive_redactors, resolve_redactor};
use sutra_engine::lifecycle::{
    archive_slot, begin_tick, count_retired, finish_tick, must_reactivate, new_archive,
    plans_from_store, quiescent_ids, split_served_archives, still_pending, sweep_candidates,
    sweep_interval, watch_interval, ArchiveStatus, Pinned, ServedArchiveRow, StoredArchive,
};
use sutra_engine::registries::{build_shared_registries, CodecSource, ValidatorSource};
use sutra_engine::schedules::{obsolete_schedules, timer_schedules, TimerStart};
use sutra_engine::status::DeploymentStatusSnapshot;
use sutra_engine::stores::{ProjectionAnswer, StoreDefinition, StoreDialect};
use sutra_engine::transports::{ChannelDefinition, Namespace};

fn texts(v: &[&str]) -> Vec<String> {
    v.iter().map(|s| s.to_string()).collect()
}

fn namespace() -> Namespace {
    Namespace { tenant: "t".to_string(), module: "m".to_string(), version: "1.0.0".to_string() }
}

fn package(id: &str) -> LoadedDeployment {
    LoadedDeployment {
        id: id.to_string(),
        namespace: namespace(),
        modules: vec![],
        templates: TextMap::new(),
        scripts: TextMap::new(),
        rules: vec![],
        redactors: vec![],
        bundles: Ok(vec![]),
        codecs: vec![],
        channels: None,
        datastores: None,
        migrations: TextMap::new(),
        sealed: true,
        api: Json::object(),
    }
}

fn all_transports() -> TextSet {
    let mut s = TextSet::new();
    for t in ["http", "file", "kafka"] {
        s.insert(t.to_string());
    }
    s
}

fn plan(d: LoadedDeployment) -> Result<DeploymentPlan, String> {
    let id = d.id.clone();
    let outside = Outside {
        key: move |kind: ArtifactType, local: &str| format!("{kind:?}:{local}:{id}"),
        resolve: |raw: &str| {
            if raw.contains("${missing}") {
                Err("missing is not set".to_string())
            } else {
                Ok(raw.to_string())
            }
        },
        schemed: |s: &str| s.contains("://"),
    };
    plan_deployment(d, &all_transports(), &outside)
}

fn planned(d: LoadedDeployment) -> DeploymentPlan {
    match plan(d) {
        Ok(p) => p,
        Err(e) => panic!("{e}"),
    }
}

fn refusal(d: LoadedDeployment) -> String {
    match plan(d) {
        Ok(_) => panic!("the plan must fail"),
        Err(e) => e,
    }
}

const DEP: &str = "dep-0000000000000000000000d1";

// ---- artifacts ----------------------------------------------------------------------------------

#[test]
fn archive_redactor_compiles_registers_under_the_archive_urn_and_resolves() {
    let mut d = package(DEP);
    d.redactors.push(RedactorArtifact {
        id: "myschema/accounts.hbs".to_string(),
        content: "/card\n".to_string(),
        compiled: Ok(()),
    });
    let plan = planned(d);
    let expected_key = "urn:sutra:redactor:myschema:accounts:dep-0000000000000000000000d1";
    assert_eq!(plan.redactors, vec![(expected_key.to_string(), "/card\n".to_string())]);

    // It resolves by its local id, within this deployment only, beside what was there before.
    let mut registry = TextMap::new();
    registry.insert("urn:sutra:redactor:builtin:internal".to_string(), String::new());
    register_archive_redactors(&mut registry, &plan);
    assert_eq!(registry.len(), 2);
    let resolved = resolve_redactor(&registry, "myschema:accounts", DEP);
    assert_eq!(resolved.map(String::as_str), Some("/card\n"));
    let other = "dep-0000000000000000000000a2";
    assert!(resolve_redactor(&registry, "myschema:accounts", other).is_none());
    assert_eq!(redactor_local_id("myschema/accounts.hbs"), "myschema:accounts");
}

#[test]
fn archive_srl_ruleset_registers_as_a_validator_under_the_archive_rule_urn() {
    let ruleset = "rule \"r\"\nwhen\n  x != 1\nthen\n  report(\"C\", \"x\", \"m\");\nend\n";
    let mut d = package(DEP);
    d.rules.push(RuleArtifact {
        id: "field-rules.srl".to_string(),
        content: ruleset.to_string(),
        parsed: Ok(vec![]),
    });
    let plan = planned(d);

    let expected_key = "urn:sutra:rule:field-rules.srl:dep-0000000000000000000000d1";
    assert_eq!(plan.srl_validators, vec![(expected_key.to_string(), ruleset.to_string())]);
    // It also stays a decision (both roles, like a decision table).
    assert_eq!(plan.decisions.len(), 1);

    // The key resolves within this deployment only.
    let registries = build_shared_registries(&vec![&plan], &vec![]);
    assert!(registries.validators.get(expected_key).is_some());
    assert!(registries
        .validators
        .get("urn:sutra:rule:field-rules.srl:dep-0000000000000000000000a2")
        .is_none());
    assert_eq!(rule_local_id("a/b.dmn"), "a:b.dmn");
}

#[test]
fn a_syntactically_invalid_srl_ruleset_fails_the_plan_closed() {
    let mut d = package(DEP);
    d.rules.push(RuleArtifact {
        id: "broken.srl".to_string(),
        content: "rule \"r\" when true then insert(1); end\n".to_string(),
        parsed: Err("unexpected 'insert'".to_string()),
    });
    let message = refusal(d);
    assert!(message.contains("broken.srl"), "{message}");
    assert!(message.contains("failed to parse"), "{message}");
}

#[test]
fn a_syntactically_invalid_redactor_template_fails_the_plan_closed() {
    let mut d = package(DEP);
    d.redactors.push(RedactorArtifact {
        id: "broken.hbs".to_string(),
        content: "<A>{{#if x}}unterminated".to_string(),
        compiled: Err("unterminated block".to_string()),
    });
    let message = refusal(d);
    assert!(message.contains("broken.hbs"), "{message}");
    assert!(message.contains("failed to compile"), "{message}");
}

#[test]
fn a_decision_table_validates_by_each_of_its_decisions() {
    let mut d = package(DEP);
    d.rules.push(RuleArtifact {
        id: "score.dmn".to_string(),
        content: "<definitions/>".to_string(),
        parsed: Ok(texts(&["low", "high"])),
    });
    let plan = planned(d);
    let names: Vec<&str> = plan.validators.iter().map(|v| v.decision.as_str()).collect();
    assert!(names.contains(&"low") && names.contains(&"high"), "{names:?}");
    assert_eq!(plan.decisions.len(), 1);
    assert!(plan.srl_validators.is_empty());
}

// ---- channels -----------------------------------------------------------------------------------

fn outbound(name: &str, transport: Option<&str>, bind: Option<&str>) -> ChannelDefinition {
    ChannelDefinition {
        channel_name: name.to_string(),
        namespace: Namespace {
            tenant: "acme".to_string(),
            module: "demoflow".to_string(),
            version: "1.0.0".to_string(),
        },
        deployment: String::new(),
        outbound: true,
        transport: transport.map(str::to_string),
        bind_spec: bind.map(str::to_string),
        auth_scheme: None,
        cloud_events_mode: None,
        on_complete_ack: false,
        properties: TextMap::new(),
    }
}

fn inbound(name: &str, transport: &str) -> ChannelDefinition {
    let mut c = outbound(name, Some(transport), Some("/in"));
    c.outbound = false;
    c
}

#[test]
fn an_outbound_channel_with_a_local_bind_resolves() {
    let outside = Outside {
        key: |_: ArtifactType, local: &str| local.to_string(),
        resolve: |raw: &str| Ok(raw.to_string()),
        schemed: |s: &str| s.contains("://"),
    };
    let def = outbound("to-demoflow", Some("local"), Some("local://demoflow-in"));
    let resolved = match resolve_outbound(&def, DEP, &outside) {
        Ok(o) => o,
        Err(e) => panic!("{e}"),
    };
    assert_eq!(resolved.destination, "local://acme/demoflow/1.0.0/demoflow-in");
    assert_eq!(resolved.cloud_events_mode, "none");
    assert!(resolved.secret_ref.is_none());
    assert!(resolved.auth_scheme.is_none());
}

#[test]
fn an_outbound_channel_that_leads_nowhere_fails_the_plan_closed() {
    for (transport, bind, needle) in [
        (None, Some("https://h"), "no transport"),
        (Some("http"), None, "no 'bind'"),
        (Some("http"), Some("nowhere"), "no URI scheme"),
        (Some("http"), Some("https://${missing}"), "missing is not set"),
        (Some("smoke"), Some("smoke://h"), "not permitted"),
    ] {
        let mut d = package(DEP);
        d.channels = Some(Ok(vec![outbound("out", transport, bind)]));
        let message = refusal(d);
        assert!(message.contains(needle), "{message}");
    }
}

#[test]
fn planned_channels_are_bound_to_their_deployment() {
    let mut d = package(DEP);
    d.channels = Some(Ok(vec![inbound("in", "http"), outbound("o", Some("http"), Some("https://h"))]));
    let plan = planned(d);
    assert!(plan.definitions.iter().all(|c| c.deployment == DEP));
    assert_eq!(plan.outbound.len(), 1);

    let mut d = package(DEP);
    d.channels = Some(Err(LoadFailure { code: "C1".to_string(), message: "bad yaml".to_string() }));
    let message = refusal(d);
    assert!(message.contains("bad yaml"), "{message}");
}

// ---- stores -------------------------------------------------------------------------------------

fn store(name: &str, url: Result<Option<String>, String>) -> DeclaredStore {
    DeclaredStore {
        def: StoreDefinition {
            name: name.to_string(),
            store_type: "sql".to_string(),
            properties: TextMap::new(),
            structure: None,
        },
        coverage: Ok(()),
        on_disk: Ok(vec![]),
        projection: ProjectionAnswer::Columns(vec![]),
        url,
        opened: Ok(()),
    }
}

#[test]
fn stores_are_bound_where_their_connection_resolves() {
    let mut d = package(DEP);
    d.datastores = Some(Ok(vec![
        store("accounts", Ok(Some("mysql://h/db".to_string()))),
        store("elsewhere", Err("no secret".to_string())),
    ]));
    let plan = planned(d);
    assert_eq!(plan.stores.len(), 1, "a store that cannot be reached here is left out");
    assert_eq!(plan.stores[0].name, "accounts");
    assert_eq!(plan.stores[0].dialect, StoreDialect::Mysql);
    assert!(plan.stores[0].projected.is_none());
}

#[test]
fn a_coverage_store_is_bound_apart_from_the_others() {
    let mut d = package(DEP);
    d.datastores = Some(Ok(vec![store("coverage", Ok(None))]));
    let plan = planned(d);
    assert!(plan.coverage);
    assert!(plan.stores.is_empty());

    let mut broken = store("coverage", Ok(None));
    broken.coverage = Err("no url".to_string());
    let mut d = package(DEP);
    d.datastores = Some(Ok(vec![broken]));
    let plan = planned(d);
    assert!(!plan.coverage);
    assert!(plan.coverage_fault.unwrap().contains("no url"));
}

// ---- the directory ------------------------------------------------------------------------------

fn stamp(len: u64) -> FileStamp {
    FileStamp { len, mtime: Some(1) }
}

fn seen(slot: &str, len: u64, prepared: Option<Result<DeploymentPlan, String>>) -> SeenArchive {
    SeenArchive { slot: slot.to_string(), stamp: Some(stamp(len)), prepared }
}

fn ready(id: &str) -> Option<Result<DeploymentPlan, String>> {
    Some(Ok(planned(package(id))))
}

#[test]
fn only_archives_are_listed() {
    let entries = vec![
        ("b.sutra".to_string(), true),
        ("a.sutra".to_string(), true),
        ("notes.txt".to_string(), true),
        ("dir.sutra".to_string(), false),
        (".sutra".to_string(), true),
    ];
    assert_eq!(list_archives(&entries).to_texts(), texts(&["a.sutra", "b.sutra"]));
    assert!(source_missing("/d").contains(DEPLOY_SOURCE_MISSING));
}

#[test]
fn a_directory_opens_with_what_it_holds() {
    let d = DeploymentDirectory::open(vec![seen("a", 1, ready("d-1")), seen("b", 1, ready("d-2"))]);
    assert_eq!(d.live_ids(), texts(&["d-1", "d-2"]));
    assert_eq!(d.active_plans().len(), 2);
    assert!(d.draining_ids().is_empty());
    assert!(d.is_stale("a", &stamp(2)));
    assert!(!d.is_stale("a", &stamp(1)));
    assert!(d.is_stale("c", &stamp(1)));
    assert_eq!(d.api_specs().len(), 2);
    assert_eq!(d.node_indexes().len(), 2);
}

#[test]
fn a_rejected_archive_leaves_what_is_served() {
    let mut d = DeploymentDirectory::open(vec![seen("a", 1, ready("d-1"))]);
    let changed = d.scan(vec![seen("a", 2, Some(Err("bad archive".to_string())))]);
    assert!(!changed);
    assert_eq!(d.live_ids(), texts(&["d-1"]));
    assert_eq!(
        d.status_snapshot().failed,
        vec![("a".to_string(), "bad archive".to_string())]
    );
    // The rejected contents are not prepared again.
    assert!(!d.is_stale("a", &stamp(2)));
}

#[test]
fn a_replaced_deployment_drains_and_comes_back_on_rollback() {
    let mut d = DeploymentDirectory::open(vec![seen("a", 1, ready("d-1"))]);
    assert!(d.scan(vec![seen("a", 2, ready("d-2"))]));
    assert_eq!(d.desired_active(), texts(&["d-2"]));
    assert_eq!(d.activate_desired(), texts(&["d-1"]));
    assert_eq!(d.draining_ids(), texts(&["d-1"]));
    assert_eq!(d.draining_plans().len(), 1);
    assert_eq!(d.live_ids(), texts(&["d-2", "d-1"]));

    // Rolled back: the first deployment serves again, and the second drains.
    assert!(d.scan(vec![seen("a", 3, ready("d-1"))]));
    assert_eq!(d.activate_desired(), texts(&["d-2"]));
    assert_eq!(d.draining_ids(), texts(&["d-2"]));
    // Activating again changes nothing.
    assert_eq!(d.activate_desired(), Vec::<String>::new());
    assert_eq!(d.draining_ids(), texts(&["d-2"]));

    // What has no work left is retired; what serves is kept.
    assert!(d.retire(&texts(&["d-2"])));
    assert_eq!(d.live_ids(), texts(&["d-1"]));
    assert!(!d.retire(&vec![]));
}

#[test]
fn an_archive_that_is_gone_takes_its_deployment_out() {
    let mut d = DeploymentDirectory::open(vec![seen("a", 1, ready("d-1")), seen("b", 1, ready("d-2"))]);
    assert!(!d.scan(vec![seen("a", 1, None), seen("b", 1, None)]), "nothing changed");
    assert!(d.scan(vec![seen("b", 1, None)]));
    assert_eq!(d.activate_desired(), texts(&["d-1"]));
    assert_eq!(d.active_plans().len(), 1);
}

#[test]
fn a_tick_flips_where_something_changed_or_a_flip_is_owed() {
    let mut d = DeploymentDirectory::new();
    let (changed, drained) = begin_tick(&mut d, vec![seen("a", 1, ready("d-1"))]);
    assert!(changed);
    assert!(drained.is_empty());
    assert!(finish_tick(&mut d, &vec![], changed, false));
    let (changed, _) = begin_tick(&mut d, vec![seen("a", 1, None)]);
    assert!(!finish_tick(&mut d, &vec![], changed, false));
    assert!(finish_tick(&mut d, &vec![], changed, true));
    assert!(still_pending(&Err("no".to_string())));
    assert!(!still_pending(&Ok(())));
}

#[test]
fn a_draining_deployment_is_retired_once_nothing_is_pinned_to_it() {
    let pinned = |id: &str, instances: Option<i64>| Pinned {
        id: id.to_string(),
        storable: true,
        instances,
        outbox: Some(0),
        external_tasks: Some(0),
    };
    let draining = texts(&["d-1", "d-2", "d-3"]);
    let counts = vec![pinned("d-1", Some(0)), pinned("d-2", Some(4)), pinned("d-3", None)];
    // An unknown count pins.
    assert_eq!(quiescent_ids(&draining, Some(&counts)), texts(&["d-1"]));
    // Without a database nothing outlives the process.
    assert_eq!(quiescent_ids(&draining, None), draining);
}

#[test]
fn intervals_have_a_floor() {
    assert_eq!(watch_interval(Duration::from_millis(1)), Duration::from_millis(100));
    assert_eq!(watch_interval(Duration::from_secs(5)), Duration::from_secs(5));
    assert_eq!(sweep_interval(Duration::from_millis(1)), Duration::from_secs(1));
}

#[test]
fn stored_archives_are_split_by_their_state() {
    let row = |id: &str, status: ArchiveStatus| ServedArchiveRow {
        status,
        archive: StoredArchive {
            deployment_id: id.to_string(),
            slot: archive_slot("t", "m", id),
            bytes: vec![],
        },
    };
    let (active, draining) = split_served_archives(vec![
        row("1", ArchiveStatus::Active),
        row("2", ArchiveStatus::Draining),
        row("3", ArchiveStatus::Active),
    ]);
    let slots: Vec<&str> = active.iter().map(|a| a.slot.as_str()).collect();
    assert_eq!(slots, vec!["t--m--1", "t--m--3"]);
    assert_eq!(draining.len(), 1);
    assert_eq!(draining[0].deployment_id, "2");

    let plans = plans_from_store(vec![
        Ok(planned(package("d-1"))),
        Err("corrupt".to_string()),
        Ok(planned(package("d-2"))),
    ]);
    assert_eq!(plans.len(), 2);
    assert_eq!(plans[1].dep, "d-2");
    assert_eq!(count_retired(&vec![Ok(true), Ok(false), Err("x".to_string()), Ok(true)]), 2);
}

// ---- wiring -------------------------------------------------------------------------------------

fn with_channels(id: &str, channels: Vec<ChannelDefinition>) -> DeploymentPlan {
    let mut d = package(id);
    d.channels = Some(Ok(channels));
    planned(d)
}

#[test]
fn a_draining_deployment_binds_only_what_is_free() {
    let active = with_channels("d-2", vec![inbound("in", "http")]);
    let draining = with_channels("d-1", vec![inbound("in", "http"), inbound("old", "http")]);
    let rows = residual_bindings(&vec![&active], &vec![&draining]);
    assert_eq!(rows.len(), 1);
    let names: Vec<&str> = rows[0].iter().map(|c| c.channel_name.as_str()).collect();
    assert_eq!(names, vec!["old"]);

    let mut config = engine_config();
    config.audit = AuditConfig { jsonl_path: None, otel_endpoint: None, sql: true };
    config.incident_sql = true;
    let facts = EngineFacts {
        pool: true,
        encrypting: true,
        jsonl_opened: false,
        otel_ready: false,
        shard: 3,
    };
    let actives = vec![&active];
    let drainings = vec![&draining];
    let wiring = build_engine(&actives, &drainings, &config, "r-1", facts);
    assert_eq!(wiring.bindings.len(), 1);
    assert_eq!(wiring.residual[0].len(), 1);
    assert_eq!(wiring.prior_deployments, texts(&["d-1"]));
    assert!(wiring.persisted && wiring.incident_sink);
    assert!(wiring.audit.sql && !wiring.audit.jsonl && !wiring.audit.otel);
    assert_eq!(wiring.payload_cap, Some(config.payload_cap_bytes));
    assert_eq!(wiring.now_override, None);
    let bridge = wiring.bridge.expect("there is a database");
    assert_eq!(bridge.claim_owner(), "r-1-s3");
    assert_eq!(bridge.retention(), config.instance_retention.retention);

    let without = build_engine(
        &actives,
        &drainings,
        &config,
        "r-1",
        EngineFacts { pool: false, ..facts },
    );
    assert!(!without.persisted && !without.incident_sink && without.bridge.is_none());
}

#[test]
fn a_lane_holds_the_redactors_and_stores_of_every_deployment_it_serves() {
    let mut active = with_channels("d-2", vec![]);
    let mut draining = with_channels("d-1", vec![]);
    let store = |name: &str, dialect: StoreDialect| StoreBinding {
        name: name.to_string(),
        dialect,
        migrations: vec![],
        projected: None,
    };
    active.stores = vec![store("accounts", StoreDialect::Mysql)];
    draining.stores =
        vec![store("accounts", StoreDialect::Mssql), store("accounts", StoreDialect::Postgres)];
    active.redactors = vec![("k".to_string(), "new".to_string())];
    draining.redactors = vec![("k".to_string(), "old".to_string()), ("l".to_string(), "x".to_string())];
    let facts = EngineFacts {
        pool: false,
        encrypting: false,
        jsonl_opened: false,
        otel_ready: false,
        shard: 0,
    };
    let actives = vec![&active];
    let drainings = vec![&draining];
    let wiring = build_engine(&actives, &drainings, &engine_config(), "r", facts);
    let dialect = |dep: &str, name: &str| wiring.stores.find(dep, name).map(|s| s.dialect);
    assert_eq!(dialect("d-2", "accounts"), Some(StoreDialect::Mysql));
    // The later one of a name stands.
    assert_eq!(dialect("d-1", "accounts"), Some(StoreDialect::Postgres));
    assert_eq!(dialect("d-1", "ledger"), None);
    assert_eq!(dialect("d-3", "accounts"), None);
    assert_eq!(wiring.redactors.get("k").map(String::as_str), Some("old"));
    assert_eq!(wiring.redactors.get("l").map(String::as_str), Some("x"));
}

#[test]
fn a_sweep_looks_at_rows_whose_id_is_one() {
    let rows = vec![
        ("d-1".to_string(), true),
        ("?".to_string(), false),
        ("d-2".to_string(), true),
    ];
    assert_eq!(sweep_candidates(&rows), texts(&["d-1", "d-2"]));
    assert!(sweep_candidates(&vec![]).is_empty());
    assert!(must_reactivate(1) && !must_reactivate(0));
}

#[test]
fn a_payload_cap_of_zero_is_none() {
    assert_eq!(payload_cap_policy(0), None);
    assert_eq!(payload_cap_policy(1), Some(1));
    assert_eq!(payload_cap_policy(i64::MAX as u64), Some(i64::MAX as u64));
    assert_eq!(payload_cap_policy(u64::MAX), None);
}

#[test]
fn the_runtime_covers_active_and_draining_deployments() {
    let mut acked = inbound("in", "file");
    acked.on_complete_ack = true;
    let active = with_channels("d-2", vec![acked, inbound("web", "http")]);
    let draining = with_channels("d-1", vec![]);
    let mut capable = TextSet::new();
    capable.insert("kafka".to_string());
    let actives = vec![&active];
    let drainings = vec![&draining];
    let wiring = build_engine_runtime(&actives, &drainings, true, false, &capable);
    assert_eq!(wiring.deployment_ids, texts(&["d-2", "d-1"]));
    assert_eq!(wiring.definitions.len(), 2);
    assert_eq!(wiring.degraded.len(), 1);
    assert_eq!(wiring.degraded[0].channel_name, "in");
    assert!(wiring.outbox && wiring.external_tasks && !wiring.outbox_incidents);
    let without = build_engine_runtime(&actives, &drainings, false, true, &capable);
    assert!(!without.outbox && !without.external_tasks && !without.outbox_incidents);
}

fn covered_process(id: &str, paths: &[&str]) -> ProcessModule {
    ProcessModule {
        processes: vec![ProcessDefinition {
            id: id.to_string(),
            nodes: vec![Node {
                id: "start".to_string(),
                wait_state: false,
                kind: NodeKind::StartEvent,
            }],
            retry_policies: vec![],
            continue_replies: vec![],
            coverage_paths: texts(paths),
        }],
    }
}

#[test]
fn coverage_goes_to_the_declared_store() {
    let mut d = package("d-1");
    d.modules = vec![covered_process("pay", &["happy", "sad"])];
    d.datastores = Some(Ok(vec![store("coverage", Ok(None))]));
    let stored = planned(d);
    let mut d = package("d-2");
    d.modules = vec![covered_process("ship", &["happy"])];
    let unstored = planned(d);

    let wiring = wire_coverage(&vec![&stored, &unstored], &vec![]);
    assert_eq!(wiring.routes.len(), 1);
    assert_eq!(wiring.routes[0].0, "d-1");
    assert!(matches!(wiring.routes[0].1, CoverageRoute::Store));
    assert_eq!(wiring.unrecorded, texts(&["d-2"]));
    assert!(wiring.metas.iter().any(|m| m.process_id == "pay"));
    let seed = coverage_seed(&stored);
    assert_eq!(seed.len(), 1);
    assert_eq!(seed[0].paths, texts(&["happy", "sad"]));
}

#[test]
fn audit_sinks_need_what_they_write_to() {
    let cfg = AuditConfig {
        jsonl_path: Some("/a".to_string()),
        otel_endpoint: Some("http://c".to_string()),
        sql: true,
    };
    let all = wire_audit(&cfg, true, true, true);
    assert!(all.jsonl && all.otel && all.sql);
    let none = wire_audit(&cfg, false, false, false);
    assert!(!none.jsonl && !none.otel && !none.sql);
    assert_eq!(none.default_sink(), None);
    assert!(all.default_sink().is_some());
}

#[test]
fn registries_hold_active_and_draining_artifacts() {
    let with_template = |id: &str, key: &str, body: &str| {
        let mut p = planned(package(id));
        p.templates = vec![(key.to_string(), body.to_string())];
        p.codecs = vec![(format!("codec-{id}"), texts(&["<xsd/>"]))];
        p.codec_bundles = vec![(format!("bundle-{id}"), "f".to_string())];
        p.srl_validators = vec![(format!("srl-{id}"), "rule".to_string())];
        p
    };
    let active = with_template("d-2", "k", "new");
    let draining = with_template("d-1", "k", "old");
    let r = build_shared_registries(&vec![&active], &vec![&draining]);
    // Where two register under one key, the later one stands.
    assert_eq!(r.templates.get("k").map(String::as_str), Some("old"));
    assert!(matches!(r.codecs.get("codec-d-1"), Some(CodecSource::Schemas(_))));
    assert!(matches!(r.codecs.get("bundle-d-2"), Some(CodecSource::Bundle(_))));
    assert!(matches!(r.validators.get("srl-d-1"), Some(ValidatorSource::Ruleset(_))));
}

#[test]
fn processes_and_outbound_channels_are_registered_under_their_deployment() {
    let with_process = |id: &str, process: &str| {
        let mut d = package(id);
        d.modules = vec![covered_process(process, &["happy"])];
        d.channels = Some(Ok(vec![outbound("out", Some("local"), Some("local://in"))]));
        planned(d)
    };
    let active = with_process("d-2", "new");
    let draining = with_process("d-1", "old");
    let r = build_shared_registries(&vec![&active], &vec![&draining]);
    let processes: Vec<&str> = r.processes.iter().map(|m| m.deployment.as_str()).collect();
    assert_eq!(processes, vec!["d-2", "d-1"]);
    assert!(std::ptr::eq(r.processes[0].module, &active.modules[0]));
    let channels: Vec<(&str, &str)> = r
        .outbound_channels
        .iter()
        .map(|c| (c.deployment.as_str(), c.channel.name.as_str()))
        .collect();
    assert_eq!(channels, vec![("d-2", "out"), ("d-1", "out")]);
}

#[test]
fn a_codec_folder_is_a_codec_unless_a_bundle_claims_it() {
    let mut d = package(DEP);
    d.bundles = Ok(texts(&["bundled"]));
    d.codecs = vec![
        CodecFolder { name: "plain".to_string(), schemas: texts(&["<xsd/>"]) },
        CodecFolder { name: "bundled".to_string(), schemas: texts(&["<xsd/>"]) },
    ];
    let plan = planned(d);
    assert_eq!(plan.codecs.len(), 1);
    assert_eq!(plan.codec_bundles.len(), 1);
    let mut d = package(DEP);
    d.bundles = Err(LoadFailure { code: "C2".to_string(), message: "bad bundle".to_string() });
    assert!(refusal(d).contains("bad bundle"));
}

// ---- schedules ----------------------------------------------------------------------------------

fn timer(process: &str, node: &str, first_due: Result<i128, String>) -> TimerStart {
    TimerStart {
        process_id: process.to_string(),
        node_id: node.to_string(),
        kind: "CYCLE".to_string(),
        spec: "R3/PT1H".to_string(),
        total_fires: Some(3),
        first_due,
    }
}

#[test]
fn timers_are_armed_in_order_and_unschedulable_ones_are_left_out() {
    let timers = vec![
        timer("b", "t", Ok(3)),
        timer("a", "t", Ok(1)),
        timer("a", "s", Err("in the past".to_string())),
    ];
    let armed = timer_schedules(&timers, &namespace());
    let keys: Vec<(&str, i128)> =
        armed.iter().map(|a| (a.process_id.as_str(), a.next_due_at)).collect();
    assert_eq!(keys, vec![("a", 1), ("b", 3)]);
    assert_eq!(armed[0].module_key, "t/m/1.0.0");
    assert_eq!(armed[0].remaining_fires, Some(3));
    assert_eq!(planned(package(DEP)).timer_schedules(&timers).len(), 2);
}

#[test]
fn schedules_of_deployments_that_no_longer_serve_are_obsolete() {
    let obsolete = obsolete_schedules(
        &texts(&["d-1", "d-2"]),
        &texts(&["d-3"]),
        &texts(&["d-2"]),
    );
    assert_eq!(obsolete, texts(&["d-1", "d-3"]));
}

// ---- keys ---------------------------------------------------------------------------------------

fn engine_config() -> EngineConfig {
    EngineConfig::defaults(ExternalTaskLimits {
        default_lock_duration: Duration::from_secs(30),
        max_lock_duration: Duration::from_secs(3600),
        max_async_response_timeout: Duration::from_secs(60),
        max_tasks: 100,
        retries: 3,
        retry_timeout: Duration::from_secs(10),
    })
}

#[test]
fn keys_come_from_the_envelope_the_master_key_or_nowhere() {
    let resolve = |raw: &str| {
        if raw == "secret:kek" {
            Ok("kek".to_string())
        } else {
            Err("unknown".to_string())
        }
    };
    let mut c = engine_config();
    assert!(matches!(build_key_provider(&c, true, &resolve), Ok(KeySource::Plain)));
    c.crypto_master_key = Some("m".to_string());
    assert!(matches!(build_key_provider(&c, true, &resolve), Ok(KeySource::Master(k)) if k == "m"));
    c.crypto_master_key = None;
    c.crypto_envelope =
        CryptoEnvelopeConfig { enabled: true, kek_ref: Some("secret:kek".to_string()) };
    assert!(
        matches!(build_key_provider(&c, true, &resolve), Ok(KeySource::Envelope(k)) if k == "kek")
    );
    // The wrapped keys are kept in the database.
    assert!(build_key_provider(&c, false, &resolve).is_err());
    c.crypto_envelope.kek_ref = Some("secret:other".to_string());
    assert!(build_key_provider(&c, true, &resolve).is_err());
}

// ---- activation ---------------------------------------------------------------------------------

#[test]
fn a_flip_carries_channels_schedules_seeds_and_registries() {
    let mut d = package("d-2");
    d.channels = Some(Ok(vec![inbound("in", "http")]));
    d.modules = vec![covered_process("pay", &["happy", "sad"])];
    d.datastores = Some(Ok(vec![store("coverage", Ok(None))]));
    let new = planned(d);
    let old = planned(package("d-1"));
    let active = vec![ActivePlan { plan: &new, timers: vec![timer("pay", "start", Ok(5))] }];
    let flip = activate_plans(&active, &vec![&old], &texts(&["d-1", "d-0"]));
    assert_eq!(flip.definitions.len(), 1);
    assert_eq!(flip.schedules.len(), 1);
    assert_eq!(flip.schedules[0].deployment, "d-2");
    assert_eq!(flip.schedules[0].schedules[0].next_due_at, 5);
    assert_eq!(flip.obsolete, texts(&["d-1", "d-0"]));
    assert_eq!(flip.seeds.len(), 1, "only the deployment with a coverage store seeds");
    assert_eq!(flip.seeds[0].deployment, "d-2");
    assert_eq!(flip.registries.templates.len(), 0);

    let urn = |p: &str| format!("flag:{p}");
    let mut flagged = TextSet::new();
    flagged.insert("flag:sad".to_string());
    let process = &flip.seeds[0].processes[0];
    let initial = initial_coverage("d-2", process, &Ok(flagged), &urn);
    assert_eq!(initial.covered.to_texts(), texts(&["sad"]));
    let unknown = initial_coverage("d-2", process, &Err("down".to_string()), &urn);
    assert_eq!(unknown.covered.len(), 0);
}

#[test]
fn a_flip_that_fails_leaves_what_is_live() {
    let mut d = package("d-2");
    d.channels = Some(Ok(vec![inbound("in", "http")]));
    let new = planned(d);
    let flip = || {
        let active = vec![ActivePlan { plan: &new, timers: vec![timer("pay", "start", Ok(5))] }];
        activate_plans(&active, &vec![], &texts(&["d-1"]))
    };
    let mut live = LiveDeployments::new(texts(&["d-1"]));
    let failed = Err(("C1".to_string(), "lane 2 is gone".to_string()));
    match live.settle(texts(&["d-2"]), &failed, flip(), true) {
        Ok(_) => panic!("nothing follows a flip that failed"),
        Err(e) => assert_eq!(e, "[C1] lane 2 is gone"),
    }
    assert_eq!(live.snapshot(), texts(&["d-1"]));

    let steps = match live.settle(texts(&["d-2"]), &Ok(()), flip(), true) {
        Ok(steps) => steps,
        Err(e) => panic!("{e}"),
    };
    assert_eq!(live.snapshot(), texts(&["d-2"]));
    assert_eq!(steps.len(), 3);
    assert!(matches!(&steps[0], FlipStep::Arm(a) if a.deployment == "d-2"));
    assert!(matches!(&steps[1], FlipStep::Resolve(id) if id == "d-1"));
    assert!(matches!(&steps[2], FlipStep::Rewire(defs) if defs.len() == 1));
    // Without a store of schedules only the transports follow.
    match live.settle(texts(&["d-2"]), &Ok(()), flip(), false) {
        Ok(steps) => assert!(matches!(steps.as_slice(), [FlipStep::Rewire(_)])),
        Err(e) => panic!("{e}"),
    }
}

#[test]
fn the_store_serves_what_could_be_planned() {
    let active = planned(package("d-2"));
    let draining = planned(package("d-1"));
    let mut status = DeploymentStatusSnapshot::new();
    status.accept("d-2", "s2");
    status.accept("d-9", "s9");
    let rows = vec![
        ("d-2".to_string(), "s2".to_string()),
        ("d-3".to_string(), "s3".to_string()),
    ];
    let r = reactivate_from_store(&status, &rows, &vec![&active], &vec![&draining]);
    assert_eq!(r.live_ids, texts(&["d-2", "d-1"]));
    assert_eq!(r.specs.len(), 2);
    assert_eq!(r.node_indexes.len(), 2);
    assert_eq!(r.status.active, vec![("d-2".to_string(), "s2".to_string())]);
    assert_eq!(r.status.pending, vec![("d-9".to_string(), "s9".to_string())]);
    assert_eq!(r.status.draining, texts(&["d-1"]));
}

#[test]
fn new_contents_go_to_the_slot_of_their_version() {
    let text = |s: &str| s.to_string();
    let a = new_archive(text("d-1"), text("acme"), text("pay"), text("1.0.0"), vec![1]);
    let b = new_archive(text("d-2"), text("acme"), text("pay"), text("1.0.0"), vec![2]);
    assert_eq!(a.slot, "acme--pay--1.0.0");
    assert_eq!(a.slot, b.slot);
    assert_eq!((a.checksum.as_str(), a.deployment_id.as_str()), ("d-1", "d-1"));
    assert_eq!(b.bytes, vec![2]);
}
