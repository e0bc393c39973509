//! Migrating instances between deployments.

use std::collections::BTreeSet;

use sutra_engine::batch::{
    batch_report, BatchFilter, InstanceAttempt, MigrationOutcome, BATCH_LIMIT_DEFAULT,
};
use sutra_engine::graph::{NodeShape, ProcessNodeIndex};
use sutra_engine::json::Json;
use sutra_engine::keyed::{TextMap, TextSet};
use sutra_engine::migrate::{
    derive_loci, live_park_rows, validate, InstanceFacts, InstanceWait, LocusKind, MigrationPlan,
    MIGRATE_COMPLETED_NODE_ABSENT, MIGRATE_CROSS_PROCESS_UNMAPPED,
    MIGRATE_FRONTIER_WITHOUT_WAIT_ROW, MIGRATE_INSTANCE_TERMINAL, MIGRATE_MAPPING_INVALID,
    MIGRATE_NODE_INCOMPATIBLE, MIGRATE_NODE_UNMAPPED, MIGRATE_OUTBOX_PENDING_ON_SOURCE,
    MIGRATE_PROCESS_ABSENT, MIGRATE_RESUME_NOT_FAILED,
};

const NOW: i128 = 1_784_851_200_000_000_000;


fn shape(construct: &'static str) -> NodeShape {
    NodeShape {
        construct,
        relay_resumable: false,
        timer_capable: false,
        retryable_task: false,
        continue_reply: false,
        start_event: false,
    }
}

fn user_task() -> NodeShape {
    NodeShape {
        relay_resumable: true,
        ..shape("userTask")
    }
}

fn timer_catch() -> NodeShape {
    NodeShape {
        timer_capable: true,
        ..shape("timerCatchEvent")
    }
}

fn retry_task() -> NodeShape {
    NodeShape {
        retryable_task: true,
        ..shape("serviceTask")
    }
}

fn continue_reply_task() -> NodeShape {
    NodeShape {
        continue_reply: true,
        ..shape("serviceTask")
    }
}

fn start() -> NodeShape {
    NodeShape {
        start_event: true,
        ..shape("startEvent")
    }
}

fn index(entries: &[(&str, NodeShape)]) -> ProcessNodeIndex {
    let mut out = ProcessNodeIndex::new();
    for (id, shape) in entries {
        out.insert((*id).to_owned(), *shape);
    }
    out
}

fn mapping(pairs: &[(&str, &str)]) -> TextMap<String> {
    let mut out = TextMap::new();
    for (a, b) in pairs {
        out.insert((*a).to_owned(), (*b).to_owned());
    }
    out
}

fn nodes(ids: &[&str]) -> TextSet {
    let mut out = TextSet::new();
    for id in ids {
        out.insert((*id).to_owned());
    }
    out
}

fn names(ids: &[&str]) -> Vec<String> {
    ids.iter().map(|s| (*s).to_owned()).collect()
}

fn at<'a>(doc: &'a Json, path: &[&str]) -> &'a Json {
    let mut here = doc;
    for name in path {
        here = here.get(name).expect("member present");
    }
    here
}

fn items(doc: &Json) -> &Vec<Json> {
    match doc {
        Json::List(v) => v,
        other => panic!("a list, not {other:?}"),
    }
}

fn text(s: &str) -> Json {
    Json::Text(s.to_owned())
}

/// A same-process plan carrying just an explicit node mapping — what most cases need.
fn plan(pairs: &[(&str, &str)]) -> MigrationPlan {
    MigrationPlan {
        mapping: mapping(pairs),
        ..MigrationPlan::default()
    }
}

fn parked_at_user_task() -> InstanceFacts {
    InstanceFacts {
        process_id: "p1".to_owned(),
        status: "SUSPENDED".to_owned(),
        waiting_nodes: vec!["U".to_owned()],
        completed_nodes: vec!["S".to_owned()],
        start_node: "S".to_owned(),
        retry_nodes: TextSet::new(),
        wait_rows: vec![("U".to_owned(), false)],
        pending_outbox: 0,
    }
}

#[test]
fn an_identity_migration_onto_an_identical_graph_validates() {
    let graph = index(&[("S", start()), ("U", user_task())]);
    let report = validate(
        &parked_at_user_task(),
        Some(&graph),
        Some(&graph),
        &names(&["p1"]),
        &MigrationPlan::default(),
    );
    assert!(report.valid(), "{:?}", report.violations);
    assert!(report.warnings.is_empty(), "{:?}", report.warnings);
    assert_eq!(report.loci.len(), 2, "the wait and the routed start");
    assert_eq!(report.effective_mapping.get("U").unwrap(), "U");
}

#[test]
fn a_renamed_wait_node_validates_only_with_a_mapping_entry() {
    let source = index(&[("S", start()), ("U", user_task())]);
    let target = index(&[("S", start()), ("U2", user_task())]);

    let unmapped = validate(
        &parked_at_user_task(),
        Some(&source),
        Some(&target),
        &names(&["p1"]),
        &MigrationPlan::default(),
    );
    assert!(!unmapped.valid());
    assert_eq!(unmapped.violations[0].code, MIGRATE_NODE_UNMAPPED);
    assert_eq!(unmapped.violations[0].source_node_id.as_deref(), Some("U"));

    let mapped = validate(
        &parked_at_user_task(),
        Some(&source),
        Some(&target),
        &names(&["p1"]),
        &plan(&[("U", "U2")]),
    );
    assert!(mapped.valid(), "{:?}", mapped.violations);
    assert_eq!(mapped.effective_mapping.get("U").unwrap(), "U2");
}

#[test]
fn a_message_wait_may_not_land_on_a_timer_or_a_gateway() {
    let source = index(&[("S", start()), ("U", user_task())]);
    for wrong in [timer_catch(), shape("exclusiveGateway"), shape("endEvent")] {
        let target = index(&[("S", start()), ("U", wrong.clone())]);
        let report = validate(
            &parked_at_user_task(),
            Some(&source),
            Some(&target),
            &names(&["p1"]),
            &MigrationPlan::default(),
        );
        assert!(!report.valid(), "<{}> must be refused", wrong.construct);
        assert_eq!(report.violations[0].code, MIGRATE_NODE_INCOMPATIBLE);
    }
}

#[test]
fn a_timer_row_of_a_node_outweighs_its_message_rows() {
    let source = index(&[("T", timer_catch())]);
    for rows in [[true, false], [false, true]] {
        let facts = InstanceFacts {
            waiting_nodes: vec!["T".to_owned()],
            wait_rows: rows.iter().map(|timer| ("T".to_owned(), *timer)).collect(),
            start_node: String::new(),
            ..parked_at_user_task()
        };
        let report = validate(
            &facts,
            Some(&source),
            Some(&source),
            &names(&["p1"]),
            &MigrationPlan::default(),
        );
        assert_eq!(report.loci.len(), 1);
        assert_eq!(report.loci[0].0.kind, LocusKind::TimerWait);
    }
}

#[test]
fn a_timer_park_needs_a_timer_capable_target() {
    let facts = InstanceFacts {
        waiting_nodes: vec!["T".to_owned()],
        wait_rows: vec![("T".to_owned(), true)],
        start_node: String::new(),
        ..parked_at_user_task()
    };
    let source = index(&[("T", timer_catch())]);
    let ok = validate(
        &facts,
        Some(&source),
        Some(&index(&[("T", timer_catch())])),
        &names(&["p1"]),
        &MigrationPlan::default(),
    );
    assert!(ok.valid(), "{:?}", ok.violations);
    assert_eq!(ok.loci[0].0.kind, LocusKind::TimerWait);

    let bad = validate(
        &facts,
        Some(&source),
        Some(&index(&[("T", user_task())])),
        &names(&["p1"]),
        &MigrationPlan::default(),
    );
    assert!(!bad.valid());
    assert_eq!(bad.violations[0].code, MIGRATE_NODE_INCOMPATIBLE);
}

#[test]
fn a_retry_park_is_classified_from_the_counter_and_needs_a_retry_policy_target() {
    // A TIMER row on a node that carries an attempt counter and is NOT completed is the
    // executor's own definition of a retry backoff.
    let facts = InstanceFacts {
        waiting_nodes: vec!["charge".to_owned()],
        completed_nodes: vec!["S".to_owned()],
        retry_nodes: nodes(&["charge"]),
        wait_rows: vec![("charge".to_owned(), true)],
        start_node: String::new(),
        ..parked_at_user_task()
    };
    let source = index(&[("charge", retry_task())]);
    let mut warnings = Vec::new();
    let loci = derive_loci(&facts, Some(&source), &TextMap::new(), &mut warnings);
    assert_eq!(loci[0].kind, LocusKind::RetryPark);

    // A timer-capable node is NOT enough — the park re-drives the task.
    let bad = validate(
        &facts,
        Some(&source),
        Some(&index(&[("charge", timer_catch())])),
        &names(&["p1"]),
        &MigrationPlan::default(),
    );
    assert!(!bad.valid());
    assert_eq!(bad.violations[0].code, MIGRATE_NODE_INCOMPATIBLE);

    let ok = validate(
        &facts,
        Some(&source),
        Some(&index(&[("charge", retry_task())])),
        &names(&["p1"]),
        &MigrationPlan::default(),
    );
    assert!(ok.valid(), "{:?}", ok.violations);
}

#[test]
fn a_retry_budget_with_no_park_still_has_to_land_on_a_retry_policy() {
    let facts = InstanceFacts {
        waiting_nodes: vec!["U".to_owned()],
        completed_nodes: vec!["S".to_owned(), "charge".to_owned()],
        retry_nodes: nodes(&["charge"]),
        wait_rows: vec![("U".to_owned(), false)],
        start_node: String::new(),
        ..parked_at_user_task()
    };
    let source = index(&[("U", user_task()), ("charge", retry_task())]);
    let report = validate(
        &facts,
        Some(&source),
        Some(&index(&[
            ("U", user_task()),
            ("charge", shape("serviceTask")),
        ])),
        &names(&["p1"]),
        &MigrationPlan::default(),
    );
    assert!(!report.valid());
    assert_eq!(report.violations[0].code, MIGRATE_NODE_INCOMPATIBLE);
    assert_eq!(
        report.violations[0].source_node_id.as_deref(),
        Some("charge")
    );
}

#[test]
fn a_continue_reply_park_is_classified_from_the_source_graph() {
    let facts = InstanceFacts {
        waiting_nodes: vec!["reply".to_owned()],
        completed_nodes: vec!["S".to_owned(), "reply".to_owned()],
        wait_rows: vec![("reply".to_owned(), true)],
        start_node: String::new(),
        ..parked_at_user_task()
    };
    let source = index(&[("reply", continue_reply_task())]);
    let mut warnings = Vec::new();
    let loci = derive_loci(&facts, Some(&source), &TextMap::new(), &mut warnings);
    assert_eq!(loci[0].kind, LocusKind::ContinueReplyPark);

    let bad = validate(
        &facts,
        Some(&source),
        Some(&index(&[("reply", shape("serviceTask"))])),
        &names(&["p1"]),
        &MigrationPlan::default(),
    );
    assert!(!bad.valid());
    assert_eq!(bad.violations[0].code, MIGRATE_NODE_INCOMPATIBLE);
}

#[test]
fn a_routed_start_must_map_onto_a_start_event() {
    let source = index(&[("S", start()), ("U", user_task())]);
    let target = index(&[("S", user_task()), ("U", user_task())]);
    let report = validate(
        &parked_at_user_task(),
        Some(&source),
        Some(&target),
        &names(&["p1"]),
        &MigrationPlan::default(),
    );
    assert!(!report.valid());
    assert!(report.violations.iter().any(
        |v| v.code == MIGRATE_NODE_INCOMPATIBLE && v.source_node_id.as_deref() == Some("S")
    ));
}

#[test]
fn every_violation_is_reported_not_just_the_first() {
    let facts = InstanceFacts {
        waiting_nodes: vec!["U".to_owned(), "T".to_owned()],
        completed_nodes: vec!["S".to_owned()],
        start_node: "S".to_owned(),
        wait_rows: vec![("U".to_owned(), false), ("T".to_owned(), true)],
        ..parked_at_user_task()
    };
    let source = index(&[("S", start()), ("U", user_task()), ("T", timer_catch())]);
    // Target: U is gone, T is the wrong construct, S is not a start event. Three violations.
    let target = index(&[("S", user_task()), ("T", user_task())]);
    let report = validate(
        &facts,
        Some(&source),
        Some(&target),
        &names(&["p1"]),
        &MigrationPlan::default(),
    );
    assert_eq!(report.violations.len(), 3, "{:?}", report.violations);
    let codes: BTreeSet<&str> = report.violations.iter().map(|v| v.code).collect();
    assert!(codes.contains(MIGRATE_NODE_UNMAPPED));
    assert!(codes.contains(MIGRATE_NODE_INCOMPATIBLE));
}

#[test]
fn a_terminal_instance_is_a_validation_error_and_a_failed_one_is_not() {
    let graph = index(&[("S", start()), ("U", user_task())]);
    for status in ["COMPLETED", "TERMINATED"] {
        let facts = InstanceFacts {
            status: status.to_owned(),
            ..parked_at_user_task()
        };
        let report = validate(
            &facts,
            Some(&graph),
            Some(&graph),
            &names(&["p1"]),
            &MigrationPlan::default(),
        );
        assert!(!report.valid());
        assert_eq!(report.violations[0].code, MIGRATE_INSTANCE_TERMINAL);
    }
    let failed = InstanceFacts {
        status: "FAILED".to_owned(),
        ..parked_at_user_task()
    };
    let report = validate(
        &failed,
        Some(&graph),
        Some(&graph),
        &names(&["p1"]),
        &MigrationPlan::default(),
    );
    assert!(report.valid(), "{:?}", report.violations);
}

#[test]
fn an_absent_target_process_is_one_decisive_refusal_not_a_wall_of_noise() {
    let source = index(&[("S", start()), ("U", user_task())]);
    let report = validate(
        &parked_at_user_task(),
        Some(&source),
        None,
        &names(&["other"]),
        &MigrationPlan::default(),
    );
    assert_eq!(report.violations.len(), 1);
    assert_eq!(report.violations[0].code, MIGRATE_PROCESS_ABSENT);
    assert!(report.violations[0].detail.contains("other"));
}

#[test]
fn a_mapping_entry_naming_no_locus_is_refused_rather_than_silently_ignored() {
    let graph = index(&[("S", start()), ("U", user_task())]);
    let report = validate(
        &parked_at_user_task(),
        Some(&graph),
        Some(&graph),
        &names(&["p1"]),
        &plan(&[("typo", "U")]),
    );
    assert!(!report.valid());
    assert_eq!(report.violations[0].code, MIGRATE_MAPPING_INVALID);
}

#[test]
fn a_mapping_that_folds_two_parked_waits_onto_one_node_is_refused() {
    let facts = InstanceFacts {
        waiting_nodes: vec!["A".to_owned(), "B".to_owned()],
        wait_rows: vec![("A".to_owned(), false), ("B".to_owned(), false)],
        start_node: String::new(),
        ..parked_at_user_task()
    };
    let source = index(&[("A", user_task()), ("B", user_task())]);
    let target = index(&[("Z", user_task())]);
    let report = validate(
        &facts,
        Some(&source),
        Some(&target),
        &names(&["p1"]),
        &plan(&[("A", "Z"), ("B", "Z")]),
    );
    assert!(!report.valid());
    assert!(report
        .violations
        .iter()
        .any(|v| v.code == MIGRATE_MAPPING_INVALID && v.detail.contains("folds")));
}

#[test]
fn a_completed_node_absent_from_the_target_warns_but_does_not_refuse() {
    let facts = InstanceFacts {
        completed_nodes: vec!["S".to_owned(), "gone".to_owned()],
        ..parked_at_user_task()
    };
    let source = index(&[
        ("S", start()),
        ("U", user_task()),
        ("gone", shape("serviceTask")),
    ]);
    let target = index(&[("S", start()), ("U", user_task())]);
    let report = validate(
        &facts,
        Some(&source),
        Some(&target),
        &names(&["p1"]),
        &MigrationPlan::default(),
    );
    assert!(report.valid(), "{:?}", report.violations);
    assert_eq!(report.warnings.len(), 1);
    assert_eq!(report.warnings[0].code, MIGRATE_COMPLETED_NODE_ABSENT);
}

#[test]
fn a_frontier_entry_with_no_wait_row_warns_and_is_still_validated() {
    let facts = InstanceFacts {
        waiting_nodes: vec!["U".to_owned(), "orphan".to_owned()],
        wait_rows: vec![("U".to_owned(), false)],
        ..parked_at_user_task()
    };
    let source = index(&[("S", start()), ("U", user_task()), ("orphan", user_task())]);
    let target = index(&[("S", start()), ("U", user_task())]);
    let report = validate(
        &facts,
        Some(&source),
        Some(&target),
        &names(&["p1"]),
        &MigrationPlan::default(),
    );
    assert!(report
        .warnings
        .iter()
        .any(|w| w.code == MIGRATE_FRONTIER_WITHOUT_WAIT_ROW));
    // And it was still validated — the target has no `orphan`, so it is an unmapped locus.
    assert!(report
        .violations
        .iter()
        .any(|v| v.code == MIGRATE_NODE_UNMAPPED
            && v.source_node_id.as_deref() == Some("orphan")));
}

#[test]
fn pending_outbox_rows_are_reported_as_staying_on_the_source() {
    let graph = index(&[("S", start()), ("U", user_task())]);
    let facts = InstanceFacts {
        pending_outbox: 3,
        ..parked_at_user_task()
    };
    let report = validate(
        &facts,
        Some(&graph),
        Some(&graph),
        &names(&["p1"]),
        &MigrationPlan::default(),
    );
    assert!(report.valid());
    assert!(report
        .warnings
        .iter()
        .any(|w| w.code == MIGRATE_OUTBOX_PENDING_ON_SOURCE && w.detail.contains('3')));
}

// ---- v2: cross-process re-homing --------------------------------------------------------

fn cross_process_plan(to: &str, pairs: &[(&str, &str)]) -> MigrationPlan {
    MigrationPlan {
        mapping: mapping(pairs),
        target_process_id: Some(to.to_owned()),
        ..MigrationPlan::default()
    }
}

#[test]
fn naming_the_instances_own_process_is_not_a_cross_process_migration() {
    // Explicitness must not change semantics: `targetProcessId: "p1"` for an instance already in
    // `p1` is the same identity-mapped migration as omitting it, NOT a re-home that suddenly
    // demands an explicit entry for every locus.
    let plan = cross_process_plan("p1", &[]);
    assert!(!plan.is_cross_process("p1"));
    let graph = index(&[("S", start()), ("U", user_task())]);
    let report = validate(
        &parked_at_user_task(),
        Some(&graph),
        Some(&graph),
        &names(&["p1"]),
        &plan,
    );
    assert!(report.valid(), "{:?}", report.violations);
}

#[test]
fn a_cross_process_migration_refuses_every_locus_the_mapping_does_not_name() {
    // The target process declares the SAME ids — and that is precisely why identity must not be
    // implicit: `U` in `p2` is a different node that happens to share a name.
    let source = index(&[("S", start()), ("U", user_task())]);
    let target = index(&[("S", start()), ("U", user_task())]);
    let report = validate(
        &parked_at_user_task(),
        Some(&source),
        Some(&target),
        &names(&["p2"]),
        &cross_process_plan("p2", &[]),
    );
    assert!(
        !report.valid(),
        "identity across process ids is never implicit"
    );
    let unmapped: Vec<&str> = report
        .violations
        .iter()
        .filter(|v| v.code == MIGRATE_CROSS_PROCESS_UNMAPPED)
        .filter_map(|v| v.source_node_id.as_deref())
        .collect();
    // In locus order (kind, then node id): the parked message wait, then the routed start.
    assert_eq!(unmapped, ["U", "S"], "EVERY live locus, not just the first");
    assert!(
        report.violations[0].detail.contains("p1"),
        "{:?}",
        report.violations[0]
    );
}

#[test]
fn a_fully_mapped_cross_process_migration_validates_against_the_target_process() {
    // The mapping names every locus, and each target node is checked by the SAME matrix — the
    // process boundary changes who must be named, never what a locus is allowed to land on.
    let source = index(&[("S", start()), ("U", user_task())]);
    let target = index(&[("Begin", start()), ("Review", user_task())]);
    let plan = cross_process_plan("p2", &[("U", "Review"), ("S", "Begin")]);
    let ok = validate(
        &parked_at_user_task(),
        Some(&source),
        Some(&target),
        &names(&["p2"]),
        &plan,
    );
    assert!(ok.valid(), "{:?}", ok.violations);
    assert_eq!(ok.effective_mapping.get("U").unwrap(), "Review");

    // …and an incompatible target is still refused, mapped or not.
    let wrong = index(&[("Begin", start()), ("Review", timer_catch())]);
    let bad = validate(
        &parked_at_user_task(),
        Some(&source),
        Some(&wrong),
        &names(&["p2"]),
        &plan,
    );
    assert!(!bad.valid());
    assert!(bad
        .violations
        .iter()
        .any(|v| v.code == MIGRATE_NODE_INCOMPATIBLE));
}

#[test]
fn a_cross_process_migration_onto_an_undeclared_process_names_the_process_it_asked_for() {
    let source = index(&[("S", start()), ("U", user_task())]);
    let report = validate(
        &parked_at_user_task(),
        Some(&source),
        None,
        &names(&["p1", "other"]),
        &cross_process_plan("nope", &[("U", "X"), ("S", "Y")]),
    );
    let absent = report
        .violations
        .iter()
        .find(|v| v.code == MIGRATE_PROCESS_ABSENT)
        .expect("PROCESS_ABSENT");
    assert!(absent.detail.contains("'nope'"), "{}", absent.detail);
    assert!(
        absent.detail.contains("other"),
        "and it names what IS there"
    );
}

// ---- v2: the resume flag ----------------------------------------------------------------

#[test]
fn resume_is_a_validation_error_on_anything_that_is_not_failed() {
    let graph = index(&[("S", start()), ("U", user_task())]);
    let resume = MigrationPlan {
        resume: true,
        ..MigrationPlan::default()
    };
    for status in ["SUSPENDED", "RUNNING"] {
        let facts = InstanceFacts {
            status: status.to_owned(),
            ..parked_at_user_task()
        };
        let report = validate(&facts, Some(&graph), Some(&graph), &names(&["p1"]), &resume);
        assert!(!report.valid(), "{status} has no failure state to clear");
        assert!(report
            .violations
            .iter()
            .any(|v| v.code == MIGRATE_RESUME_NOT_FAILED));
    }
    // FAILED is the one status it is FOR.
    let failed = InstanceFacts {
        status: "FAILED".to_owned(),
        ..parked_at_user_task()
    };
    let report = validate(&failed, Some(&graph), Some(&graph), &names(&["p1"]), &resume);
    assert!(report.valid(), "{:?}", report.violations);
}

#[test]
fn resume_on_a_terminal_instance_reports_both_reasons_not_the_first() {
    let graph = index(&[("S", start()), ("U", user_task())]);
    let facts = InstanceFacts {
        status: "COMPLETED".to_owned(),
        ..parked_at_user_task()
    };
    let report = validate(
        &facts,
        Some(&graph),
        Some(&graph),
        &names(&["p1"]),
        &MigrationPlan {
            resume: true,
            ..MigrationPlan::default()
        },
    );
    let codes: BTreeSet<&str> = report.violations.iter().map(|v| v.code).collect();
    assert!(codes.contains(MIGRATE_INSTANCE_TERMINAL));
    assert!(codes.contains(MIGRATE_RESUME_NOT_FAILED));
}

// ---- v2: reading a FAILED instance's parks out of the rows the failure tore down ---------

fn wait_row(
    node_id: &str,
    kind: &str,
    status: &str,
    resolved_at: Option<i128>,
) -> InstanceWait {
    InstanceWait {
        node_id: node_id.to_owned(),
        kind: kind.to_owned(),
        status: status.to_owned(),
        resolved_at,
    }
}

#[test]
fn a_live_instances_parks_are_exactly_its_waiting_rows() {
    let rows = vec![
        wait_row("U", "MESSAGE", "WAITING", None),
        wait_row(
            "done",
            "MESSAGE",
            "RESOLVED",
            Some(NOW),
        ),
    ];
    assert_eq!(
        live_park_rows("SUSPENDED", &vec!["U".to_owned()], &rows),
        [("U".to_owned(), false)]
    );
}

#[test]
fn a_failed_instances_parks_are_the_rows_its_failure_resolved_in_one_statement() {
    // The bug this closes: a FAILED instance has NO waiting rows, so a frontier timer park used
    // to be validated against the MESSAGE-wait rule and refused on a perfectly good timer node.
    let failure = NOW;
    let earlier = failure - 300_000_000_000;
    let rows = vec![
        wait_row("collectDocs", "MESSAGE", "RESOLVED", Some(earlier)),
        wait_row("Wait", "TIMER", "RESOLVED", Some(failure)),
        wait_row("Wait#alt", "MESSAGE", "RESOLVED", Some(failure)),
    ];
    let parks = live_park_rows("FAILED", &vec!["Wait".to_owned()], &rows);
    assert_eq!(
        parks,
        [("Wait".to_owned(), true), ("Wait#alt".to_owned(), false)],
        "the torn-down parks, classified by KIND — and not the wait satisfied five minutes \
         earlier"
    );
}

#[test]
fn a_failed_instance_with_no_frontier_has_no_parks_to_recover() {
    // Nothing was parked, so an older satisfied wait must not be mistaken for a park.
    let rows = vec![wait_row(
        "collectDocs",
        "MESSAGE",
        "RESOLVED",
        Some(NOW),
    )];
    assert!(live_park_rows("FAILED", &Vec::new(), &rows).is_empty());
}

#[test]
fn a_failed_timer_park_now_validates_against_the_timer_rule() {
    // End to end through the validator: the same instance, before and after the fix's input.
    let failure = NOW;
    let rows = vec![wait_row("Wait", "TIMER", "RESOLVED", Some(failure))];
    let facts = InstanceFacts {
        process_id: "p1".to_owned(),
        status: "FAILED".to_owned(),
        waiting_nodes: vec!["Wait".to_owned()],
        completed_nodes: vec!["S".to_owned()],
        start_node: String::new(),
        retry_nodes: TextSet::new(),
        wait_rows: live_park_rows("FAILED", &vec!["Wait".to_owned()], &rows),
        pending_outbox: 0,
    };
    let graph = index(&[("S", start()), ("Wait", timer_catch())]);
    let report = validate(
        &facts,
        Some(&graph),
        Some(&graph),
        &names(&["p1"]),
        &MigrationPlan::default(),
    );
    assert!(report.valid(), "{:?}", report.violations);
    assert_eq!(report.loci[0].0.kind, LocusKind::TimerWait);
    assert!(
        report.warnings.is_empty(),
        "and no bogus 'frontier without a wait row' warning: {:?}",
        report.warnings
    );
}

// ---- v2: the batch partial-failure contract ---------------------------------------------

fn attempt(id: &str, outcome: MigrationOutcome, resumed: bool) -> InstanceAttempt {
    InstanceAttempt {
        instance_id: id.to_owned(),
        outcome,
        resumed,
        report: Json::object()
            .with("instanceId", text(id))
            .with("migrated", Json::Bool(outcome == MigrationOutcome::Migrated)),
    }
}

fn a_filter() -> BatchFilter {
    BatchFilter {
        source_deployment_id: "dep-0123456789abcdef01234567".to_owned(),
        process_id: Some("p1".to_owned()),
        status: None,
        include_terminal: false,
        limit: BATCH_LIMIT_DEFAULT,
    }
}

#[test]
fn a_batch_report_counts_every_outcome_and_keeps_each_instances_own_verdict() {
    // The heart of the contract: one bounced and one refused instance neither hide the two that
    // moved nor infect them — the report is per instance, and the totals are a count, not a
    // verdict on the call.
    let attempts = vec![
        attempt("a", MigrationOutcome::Migrated, true),
        attempt("b", MigrationOutcome::Migrated, false),
        attempt("c", MigrationOutcome::Refused, false),
        attempt("d", MigrationOutcome::Bounced, false),
    ];
    let report = batch_report(
        &a_filter(),
        "dep-aaaaaaaaaaaaaaaaaaaaaaaa",
        &MigrationPlan::default(),
        &attempts,
    );

    assert_eq!(at(&report, &["selected"]), &Json::Int(4));
    assert_eq!(at(&report, &["totals", "migrated"]), &Json::Int(2));
    assert_eq!(at(&report, &["totals", "refused"]), &Json::Int(1));
    assert_eq!(at(&report, &["totals", "bounced"]), &Json::Int(1));
    assert_eq!(at(&report, &["totals", "resumed"]), &Json::Int(1));
    assert_eq!(at(&report, &["totals", "errors"]), &Json::Int(0));
    assert_eq!(
        at(&report, &["filter", "sourceDeploymentId"]),
        &Json::Text(a_filter().source_deployment_id)
    );
    assert_eq!(at(&report, &["filter", "processId"]), &text("p1"));

    let entries = items(at(&report, &["instances"]));
    assert_eq!(entries.len(), 4);
    assert_eq!(at(&entries[0], &["outcome"]), &text("MIGRATED"));
    assert_eq!(
        at(&entries[0], &["migrated"]), &Json::Bool(true),
        "the per-instance body rides along whole"
    );
    assert_eq!(at(&entries[2], &["outcome"]), &text("REFUSED"));
    assert_eq!(at(&entries[2], &["retrySafe"]), &Json::Bool(false));
    // Only contention is retry-safe: a refusal needs a different request, not the same one again.
    assert_eq!(at(&entries[3], &["outcome"]), &text("BOUNCED"));
    assert_eq!(at(&entries[3], &["retrySafe"]), &Json::Bool(true));
}

#[test]
fn a_bounced_instance_makes_the_note_say_re_run_rather_than_retrying_internally() {
    let quiet = batch_report(
        &a_filter(),
        "dep-aaaaaaaaaaaaaaaaaaaaaaaa",
        &MigrationPlan::default(),
        &vec![attempt("a", MigrationOutcome::Migrated, false)],
    );
    assert!(!quiet.get_text("note").unwrap().contains("BOUNCED"));

    let contended = batch_report(
        &a_filter(),
        "dep-aaaaaaaaaaaaaaaaaaaaaaaa",
        &MigrationPlan::default(),
        &vec![attempt("a", MigrationOutcome::Bounced, false)],
    );
    let note = contended.get_text("note").unwrap();
    assert!(note.contains("BOUNCED"), "{note}");
    assert!(note.contains("not retried"), "{note}");
}

#[test]
fn an_empty_selection_is_an_honest_empty_report_not_an_error() {
    let report = batch_report(
        &a_filter(),
        "dep-aaaaaaaaaaaaaaaaaaaaaaaa",
        &MigrationPlan::default(),
        &Vec::new(),
    );
    assert_eq!(at(&report, &["selected"]), &Json::Int(0));
    assert_eq!(at(&report, &["totals", "migrated"]), &Json::Int(0));
    assert_eq!(items(at(&report, &["instances"])).len(), 0);
}

#[test]
fn only_contention_is_retry_safe_and_only_the_single_endpoint_reads_a_status() {
    assert_eq!(MigrationOutcome::Migrated.http_status(), 200);
    assert_eq!(MigrationOutcome::DryRunValid.http_status(), 200);
    assert_eq!(MigrationOutcome::Refused.http_status(), 422);
    assert_eq!(MigrationOutcome::Bounced.http_status(), 409);
    assert_eq!(MigrationOutcome::NotFound.http_status(), 404);
    assert_eq!(MigrationOutcome::Error.http_status(), 500);
    for outcome in [
        MigrationOutcome::Migrated,
        MigrationOutcome::DryRunValid,
        MigrationOutcome::Refused,
        MigrationOutcome::NotFound,
        MigrationOutcome::Error,
    ] {
        assert!(!outcome.retry_safe(), "{}", outcome.label());
    }
    assert!(MigrationOutcome::Bounced.retry_safe());
}
