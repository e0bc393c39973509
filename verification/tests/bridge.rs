//! What the engine hands to its persistence.

use sutra_engine::bridge::{
    build_step, crypto_diag, decode_diag, deployment_diag, outbox_entries, outbox_rows,
    parse_instance, persistence_diag, step_timer_waits, CarriedState, OutboxEmission,
    PersistenceBridge, PersistenceError, ReplyMode, SuspendedInstance, TimerWaitRecord,
    DEFAULT_RETENTION_SECS,
};
use sutra_engine::concurrency::{PersistedActiveInstanceCount, PersistedChannelConcurrency};
use sutra_engine::diag::Code;
use sutra_engine::duration::Duration;
use sutra_engine::endings::RowEffect;
use sutra_engine::keyed::TextMap;
use sutra_engine::instances::{
    dead_letter, instance_key, record_seen, Claim, DecodedSnapshot, InboundIncident,
    InstanceClaimOutcome, StoredSnapshot,
};
use sutra_engine::outside::{received_or, rfc3339};
use sutra_engine::parking::{
    commit_emissions, committed, AliasRecord, CommittedStep, ParkRequest,
};

const INSTANCE: &str = "00000000-0000-0000-0000-00000000000a";

fn snapshot() -> SuspendedInstance {
    let mut backoff = TextMap::new();
    backoff.insert("retrying".to_string(), "2026-07-24T00:00:00Z".to_string());
    SuspendedInstance {
        rest: CarriedState {
            deployment_id: "d-1".to_string(),
            status: "SUSPENDED".to_string(),
            suspended: true,
            completed_nodes: vec!["start".to_string()],
            variables: vec![("card".to_string(), vec![4, 2])],
            sensitive: vec!["card".to_string()],
            start_node: "start".to_string(),
            coverage: vec!["happy".to_string()],
            retry_attempts: vec![("retrying".to_string(), 2)],
            audit_seq: 7,
        },
        process_id: "pay".to_string(),
        waiting_nodes: vec!["wait".to_string(), "retrying".to_string()],
        retry_backoff: backoff,
        key_id: "k-1".to_string(),
        encrypt_names: vec!["card".to_string()],
        subjects: vec![("email".to_string(), "a@b".to_string())],
    }
}

#[test]
fn lanes_claim_under_owners_of_their_own() {
    let bridge = PersistenceBridge::new("replica-1");
    assert_eq!(bridge.claim_owner(), "replica-1");
    assert_eq!(bridge.retention(), Duration::from_secs(DEFAULT_RETENTION_SECS));
    let zero = PersistenceBridge::new("replica-1").with_shard_owner(0);
    let one = PersistenceBridge::new("replica-1").with_shard_owner(1);
    assert_ne!(zero.claim_owner(), one.claim_owner());
    assert!(one.claim_owner().starts_with("replica-1"));
}

fn down() -> PersistenceError {
    PersistenceError::Other("down".to_string())
}

#[test]
fn a_claim_is_granted_or_held() {
    let bridge = PersistenceBridge::new("r").with_shard_owner(3);
    let good = Ok(());
    assert_eq!(
        bridge.claim(&good, INSTANCE),
        Ok(Claim { instance: 10, owner: bridge.claim_owner().to_string() })
    );
    assert_eq!(
        bridge.claim_instance(&good, INSTANCE, &Ok(true)),
        Ok(InstanceClaimOutcome::Granted)
    );
    assert_eq!(
        bridge.claim_instance(&good, INSTANCE, &Ok(false)),
        Ok(InstanceClaimOutcome::HeldByOther)
    );
    let d = bridge.claim_instance(&good, INSTANCE, &Err(down())).unwrap_err();
    assert_eq!(d.message, "instance claim failed: down");
    assert_eq!(bridge.release_instance(&good, INSTANCE, &Ok(())), Ok(()));
    let d = bridge.release_instance(&good, INSTANCE, &Err(down())).unwrap_err();
    assert_eq!(d.message, "instance claim release failed: down");
    assert_eq!(bridge.poisoned_call_emission_exists(&good, INSTANCE, &Ok(true)), Ok(true));
    let d = bridge.poisoned_call_emission_exists(&good, INSTANCE, &Err(down())).unwrap_err();
    assert_eq!(d.message, "outbox poisonedExistsForNode failed: down");
}

#[test]
fn an_instance_without_an_address_is_refused_before_the_store_is_asked() {
    let bridge = PersistenceBridge::new("r");
    let bad = Err("bad id".to_string());
    assert!(instance_key(&bad, "i-1").unwrap_err().message.contains("bad id"));
    assert!(instance_key(&Ok(()), "i-1").unwrap_err().message.contains("'i-1' is not a UUID"));
    assert_eq!(instance_key(&Ok(()), INSTANCE), Ok(10));
    assert!(bridge.claim_instance(&bad, INSTANCE, &Ok(true)).is_err());
    assert!(bridge.claim_instance(&Ok(()), "i-1", &Ok(true)).is_err());
}

#[test]
fn an_alias_names_the_instance_it_is_bound_to() {
    let bridge = PersistenceBridge::new("r");
    let id = bridge.find_live_alias(&Ok(()), &Ok(Some(10))).unwrap();
    assert_eq!(id.as_deref(), Some(INSTANCE));
    let other = 0x67e5_5044_10b1_426f_9247_bb68_0e5f_e0c8;
    let id = bridge.find_live_alias(&Ok(()), &Ok(Some(other))).unwrap();
    assert_eq!(id.as_deref(), Some("67e55044-10b1-426f-9247-bb680e5fe0c8"));
    assert_eq!(instance_key(&Ok(()), &id.unwrap()), Ok(other));
    assert_eq!(bridge.find_live_alias(&Ok(()), &Ok(None)), Ok(None));
    let d = bridge.find_live_alias(&Ok(()), &Err(down())).unwrap_err();
    assert_eq!(d.message, "alias findLive failed: down");
    assert!(bridge.find_live_alias(&Err("bad id".to_string()), &Ok(None)).is_err());
}

fn stored(named: Option<&str>) -> StoredSnapshot {
    let s = snapshot();
    StoredSnapshot {
        named: Ok(named.map(str::to_string)),
        data_key: Ok(()),
        decoded: Ok(DecodedSnapshot {
            rest: s.rest,
            process_id: s.process_id,
            waiting_nodes: s.waiting_nodes,
            retry_backoff: s.retry_backoff,
        }),
    }
}

#[test]
fn a_stored_instance_is_rehydrated_under_its_key() {
    let bridge = PersistenceBridge::with_key_provider("r", true);
    let loaded = match bridge.load(&Ok(()), INSTANCE, Ok(Some(stored(Some("k-9"))))) {
        Ok(Some(i)) => i,
        other => panic!("it is loaded: {}", other.is_ok()),
    };
    assert_eq!(loaded.process_id, "pay");
    assert_eq!(loaded.rest.deployment_id, "d-1");
    assert!(loaded.rest.suspended && loaded.rest.status == "SUSPENDED");
    assert_eq!(loaded.rest.variables, vec![("card".to_string(), vec![4, 2])]);
    assert_eq!(loaded.rest.retry_attempts, vec![("retrying".to_string(), 2)]);
    assert_eq!(loaded.rest.audit_seq, 7);
    assert_eq!(loaded.key_id, "k-9");
    assert!(loaded.encrypt_names.is_empty());
    assert!(loaded.subjects.is_empty());
    // What parks again is encrypted under the same key.
    let mut again = loaded;
    again.encrypt_names = vec!["card".to_string()];
    assert_eq!(bridge.encode_snapshot(&again).as_deref(), Some("k-9"));

    assert!(matches!(bridge.load(&Ok(()), INSTANCE, Ok(None)), Ok(None)));
    let clear = match bridge.load(&Ok(()), INSTANCE, Ok(Some(stored(None)))) {
        Ok(Some(i)) => i,
        other => panic!("it is loaded: {}", other.is_ok()),
    };
    assert_eq!(clear.key_id, "");
}

#[test]
fn an_instance_that_cannot_be_read_is_not_resumed() {
    let keyed = PersistenceBridge::with_key_provider("r", true);
    let failure = |bridge: &PersistenceBridge, row| match bridge.load(&Ok(()), INSTANCE, row) {
        Ok(_) => panic!("nothing is resumed"),
        Err(d) => d.message,
    };
    assert_eq!(failure(&keyed, Err(down())), "instance load failed: down");
    let mut s = stored(None);
    s.named = Err("cut off".to_string());
    assert!(failure(&keyed, Ok(Some(s))).ends_with("snapshot: cut off"));
    let mut s = stored(Some("k-9"));
    s.data_key = Err("no key".to_string());
    assert!(failure(&keyed, Ok(Some(s))).ends_with("(fail-closed): no key"));
    let mut s = stored(Some("k-9"));
    s.decoded = Err("cut off".to_string());
    assert!(failure(&keyed, Ok(Some(s))).ends_with("snapshot: cut off"));
    let clear = PersistenceBridge::new("r");
    assert!(failure(&clear, Ok(Some(stored(Some("k-9"))))).contains("refusing to resume in the clear"));
    // A snapshot in the clear needs no key.
    let mut s = stored(None);
    s.data_key = Err("no key".to_string());
    assert!(clear.load(&Ok(()), INSTANCE, Ok(Some(s))).is_ok());
}

#[test]
fn finished_instances_are_kept_for_the_retention() {
    let bridge = PersistenceBridge::new("r");
    let sends = vec![emission(INSTANCE)];
    let step = match bridge.commit_complete("d-1", &Ok(()), INSTANCE, &sends) {
        Ok(step) => step,
        Err(d) => panic!("{d:?}"),
    };
    assert_eq!(step.instance, 10);
    assert_eq!(step.outbox.len(), 1);
    assert_eq!(step.outbox[0].deployment, "d-1");
    assert_eq!(
        step.effects(Some(Ok(vec![7]))),
        Ok(vec![RowEffect::Complete(vec![7]), RowEffect::ResolveWaits, RowEffect::RetireAliases])
    );
    // An instance that was cancelled meanwhile still leaves no wait and no alias behind.
    assert_eq!(
        step.effects(None),
        Ok(vec![RowEffect::ResolveWaits, RowEffect::RetireAliases])
    );
    assert_eq!(
        step.effects(Some(Err(down()))).unwrap_err().message,
        "terminal step failed: down"
    );
    assert!(step.retained(true, 1));
    assert!(!step.retained(true, 0));
    assert!(!step.retained(false, 1));
    let eager = PersistenceBridge::new("r").with_retention(Duration::from_secs(0));
    let step = match eager.commit_complete("d-1", &Ok(()), INSTANCE, &sends) {
        Ok(step) => step,
        Err(d) => panic!("{d:?}"),
    };
    assert_eq!(
        step.effects(None),
        Ok(vec![RowEffect::Delete, RowEffect::ResolveWaits, RowEffect::RetireAliases])
    );
    assert!(!step.retained(true, 1));
    let lost = vec![emission("i-1")];
    assert!(bridge.commit_complete("d-1", &Ok(()), INSTANCE, &lost).is_err());
    assert!(bridge.commit_complete("d-1", &Ok(()), "i-1", &sends).is_err());
}

#[test]
fn a_failed_instance_is_marked_where_it_still_is() {
    let bridge = PersistenceBridge::new("r");
    let step = match bridge.commit_failed(&Ok(()), INSTANCE, Ok(Some(Ok(vec![9])))) {
        Ok(Some(step)) => step,
        _ => panic!("the instance is there"),
    };
    assert_eq!(step.instance, 10);
    // Its aliases stay bound.
    assert_eq!(step.effects, vec![RowEffect::Fail(vec![9]), RowEffect::ResolveWaits]);
    assert!(matches!(bridge.commit_failed(&Ok(()), INSTANCE, Ok(None)), Ok(None)));
    let failure = |row| match bridge.commit_failed(&Ok(()), INSTANCE, row) {
        Ok(_) => panic!("nothing is recorded"),
        Err(d) => d.message,
    };
    assert_eq!(failure(Err(down())), "failed-state commit failed: down");
    assert_eq!(failure(Ok(Some(Err(down())))), "failed-state commit failed: down");
    assert!(bridge.commit_failed(&Ok(()), "i-1", Ok(None)).is_err());
}

#[test]
fn a_step_whose_transaction_fails_says_which_one_it_was() {
    assert_eq!(committed(CommittedStep::Park, &Ok(())), Ok(()));
    let failure = |step: CommittedStep| match committed(step, &Err(down())) {
        Ok(_) => panic!("nothing is committed"),
        Err(d) => d.message,
    };
    assert_eq!(failure(CommittedStep::Park), "park step commit failed: down");
    assert_eq!(failure(CommittedStep::Repark), "re-park step commit failed: down");
    assert_eq!(failure(CommittedStep::Emissions), "sync-path outbox commit failed: down");
}

#[test]
fn an_incident_is_never_dropped_for_its_stamp() {
    let bridge = PersistenceBridge::new("r");
    let mut incident = InboundIncident {
        deployment: "d-1".to_string(),
        channel: "orders".to_string(),
        process_id: None,
        dedup_key: None,
        failure_code: "X".to_string(),
        detail: "d".to_string(),
        received_at: "2026-07-24T00:00:00Z".to_string(),
        payload: Some(vec![1]),
        headers: None,
        content_type: None,
        tenant: None,
        module_key: None,
    };
    let row = bridge.record(true, &incident).unwrap();
    assert_eq!(row.received_at, 1_784_851_200_000_000_000);
    assert_eq!(row.incident.deployment, "d-1");
    assert_eq!(row.incident.channel, "orders");
    assert!(bridge.record(false, &incident).is_none());
    incident.received_at = "?".to_string();
    assert_eq!(dead_letter(true, &incident, 5).unwrap().received_at, 5);
    assert!(bridge.record(true, &incident).unwrap().received_at > 1_700_000_000_000_000_000);
}

#[test]
fn values_are_encrypted_where_there_are_keys() {
    let clear = PersistenceBridge::new("r");
    assert_eq!(clear.encode_snapshot(&snapshot()), None);
    assert_eq!(clear.blind_subjects(&snapshot()), None);
    let keyed = PersistenceBridge::with_key_provider("r", true);
    assert_eq!(keyed.encode_snapshot(&snapshot()).as_deref(), Some("k-1"));
    assert_eq!(keyed.blind_subjects(&snapshot()).as_deref(), Some("k-1"));
    let mut unnamed = snapshot();
    unnamed.key_id = String::new();
    assert_eq!(keyed.encode_snapshot(&unnamed), None);

    // What was encrypted is never read in the clear.
    assert_eq!(keyed.decode_snapshot(&Some("k-1".to_string()), INSTANCE), Ok(Some("k-1".to_string())));
    assert_eq!(keyed.decode_snapshot(&None, INSTANCE), Ok(None));
    assert!(clear.decode_snapshot(&Some("k-1".to_string()), INSTANCE).is_err());
}

#[test]
fn a_step_writes_the_waits_of_the_snapshot() {
    let step = match build_step(INSTANCE, &snapshot(), &vec!["earlier".to_string()]) {
        Ok(step) => step,
        Err(d) => panic!("{d:?}"),
    };
    assert_eq!(step.instance_id, 10);
    assert!(step.waits.iter().all(|w| w.process_id == "pay"));
    assert!(step.waits.iter().any(|w| w.node_id == "wait"));
    assert_eq!(step.resolved_waits, vec!["earlier".to_string()]);
    match build_step("i-1", &snapshot(), &vec![]) {
        Ok(_) => panic!("no UUID"),
        Err(d) => assert_eq!(d.code, Code::RuntimeUnexpected),
    }
}

#[test]
fn timers_are_due_at_their_instants() {
    let record = |at: &str| TimerWaitRecord { node_id: "t".to_string(), due_at: at.to_string() };
    let waits = match step_timer_waits(&vec![record("2026-07-24T00:00:00Z")], "pay") {
        Ok(waits) => waits,
        Err(d) => panic!("{d:?}"),
    };
    assert_eq!(waits.len(), 1);
    assert_eq!(waits[0].due_at, 1_784_851_200_000_000_000);
    assert_eq!(waits[0].process_id, "pay");
    assert!(step_timer_waits(&vec![record("soon")], "pay").is_err());
    assert_eq!(rfc3339(1_784_851_200_000_000_000), "2026-07-24T00:00:00Z");
    assert_eq!(rfc3339(i128::MAX), "");
}

fn emission(instance: &str) -> OutboxEmission {
    OutboxEmission {
        instance_id: instance.to_string(),
        node_id: "send".to_string(),
        body: b"x".to_vec(),
        content_type: None,
        destination: "https://h".to_string(),
        headers: TextMap::new(),
        labels: TextMap::new(),
        required: true,
        mode: ReplyMode::Native,
        outbox_key: "ob".to_string(),
        cloud_event_json: None,
        auth_ref_json: None,
        traceparent: None,
    }
}

#[test]
fn emissions_become_rows_that_are_due_at_once() {
    let emissions = vec![emission(INSTANCE), emission(INSTANCE)];
    let rows = match outbox_rows("d-1", &emissions, &vec![1, 2], 99) {
        Ok(rows) => rows,
        Err(d) => panic!("{d:?}"),
    };
    assert_eq!(rows.len(), 2);
    assert_eq!(rows[1].entry_id, 2);
    assert_eq!(rows[1].instance_id, 10);
    assert_eq!((rows[1].created_at, rows[1].next_attempt_at), (99, 99));
    assert_eq!(rows[1].attempt_count, 0);
    assert_eq!(rows[1].emission.destination, "https://h");

    let entries = match outbox_entries("d-1", &emissions) {
        Ok(entries) => entries,
        Err(d) => panic!("{d:?}"),
    };
    assert_ne!(entries[0].entry_id, entries[1].entry_id);
    assert!(entries[0].created_at > 1_700_000_000_000_000_000);

    let bad = vec![emission("i-1")];
    assert!(outbox_rows("d-1", &bad, &vec![1], 99).is_err());
}

#[test]
fn diagnostics_name_what_failed() {
    assert_eq!(parse_instance(INSTANCE), Ok(10));
    assert!(parse_instance("i-1").unwrap_err().message.contains("i-1"));
    let alias = PersistenceError::AliasCollision { name: "order".to_string(), value: "7".to_string() };
    assert_eq!(persistence_diag("commit", &alias).code, Code::InboundAliasConflictReject);
    let other = PersistenceError::Other("down".to_string());
    assert_eq!(persistence_diag("commit", &other).code, Code::RuntimeUnexpected);
    for d in [crypto_diag("e"), decode_diag("e"), deployment_diag("e")] {
        assert_eq!(d.code, Code::RuntimeUnexpected);
        assert!(d.message.contains('e'));
    }
}

#[test]
fn an_inbox_that_cannot_answer_lets_a_message_through() {
    assert!(record_seen(true, &Ok(true)));
    assert!(!record_seen(true, &Ok(false)));
    assert_eq!(received_or("2026-07-24T00:00:00Z", 5), 1_784_851_200_000_000_000);
    assert_eq!(received_or("?", 5), 5);
}

#[test]
fn counts_that_are_unknown_are_zero() {
    let gauge = PersistedChannelConcurrency;
    assert_eq!(gauge.count_active(true, &Ok(3)), 3);
    assert_eq!(gauge.count_active(true, &Ok(-3)), 0);
    assert_eq!(gauge.count_active(true, &Err("down".to_string())), 0);
    assert_eq!(gauge.count_active(false, &Ok(3)), 0);
    assert_eq!(gauge.instance(true, INSTANCE), Some(10));
    assert_eq!(gauge.instance(false, INSTANCE), None);
    assert_eq!(gauge.instance(true, "i-1"), None);
    assert_eq!(PersistedActiveInstanceCount.count_active(true, &Ok(7)), 7);
}

fn park<'a>(
    snapshot: &'a SuspendedInstance,
    aliases: &'a Vec<AliasRecord>,
    timers: &'a Vec<TimerWaitRecord>,
    emissions: &'a Vec<OutboxEmission>,
) -> ParkRequest<'a> {
    ParkRequest {
        deployment_id: "d-1",
        deployment: Ok(()),
        instance_id: INSTANCE,
        snapshot,
        encoded: Ok(()),
        blinded: Ok(()),
        aliases,
        timer_waits: timers,
        emissions,
    }
}

#[test]
fn a_park_commits_everything_in_one_step() {
    let snapshot = snapshot();
    let timers =
        vec![TimerWaitRecord { node_id: "t".to_string(), due_at: "2026-07-24T00:00:00Z".to_string() }];
    let emissions = vec![emission(INSTANCE)];
    let aliases = vec![AliasRecord {
        name: "order".to_string(),
        value: "7".to_string(),
        unique: true,
    }];
    let bridge = PersistenceBridge::with_key_provider("r", true).with_shard_owner(2);
    let step = match bridge.commit_park(&park(&snapshot, &aliases, &timers, &emissions)) {
        Ok(step) => step,
        Err(d) => panic!("{d:?}"),
    };
    assert_eq!(step.write.instance_id, 10);
    assert_eq!(step.key.as_deref(), Some("k-1"));
    assert_eq!(step.subjects_key.as_deref(), Some("k-1"));
    assert_eq!(step.outbox.len(), 1);
    assert_eq!(step.timers.len(), 1);
    assert_eq!(step.aliases[0].name, "order");
    assert_eq!(step.released, None);
    assert!(step.write.resolved_waits.is_empty());
    assert_eq!(step.write.withdrawn_call_nodes, vec!["retrying".to_string()]);

    let satisfied = vec!["wait".to_string()];
    let again = match bridge.commit_repark(&park(&snapshot, &aliases, &timers, &emissions), &satisfied) {
        Ok(step) => step,
        Err(d) => panic!("{d:?}"),
    };
    assert_eq!(again.write.resolved_waits, satisfied);
    assert_eq!(again.released.as_deref(), Some(bridge.claim_owner()));
}

#[test]
fn a_park_is_refused_by_the_first_thing_that_fails() {
    let snapshot = snapshot();
    let bad_timers = vec![TimerWaitRecord { node_id: "t".to_string(), due_at: "?".to_string() }];
    let bad_emissions = vec![emission("i-1")];
    let aliases = vec![];
    let bridge = PersistenceBridge::with_key_provider("r", true);
    let refusal = |q: &ParkRequest| match bridge.commit_park(q) {
        Ok(_) => panic!("the step commits nothing"),
        Err(d) => d.message,
    };
    let mut q = park(&snapshot, &aliases, &bad_timers, &bad_emissions);
    q.deployment = Err("bad id".to_string());
    q.encoded = Err("no key".to_string());
    assert!(refusal(&q).contains("bad id"));
    q.deployment = Ok(());
    assert!(refusal(&q).contains("no key"));
    q.encoded = Ok(());
    q.blinded = Err("no index".to_string());
    assert!(refusal(&q).contains("no index"));
    q.blinded = Ok(());
    assert!(refusal(&q).contains("'i-1' is not a UUID"));
    let good = vec![];
    q.emissions = &good;
    assert!(refusal(&q).contains("unparseable due-at"));
    // Without keys the cipher is not asked.
    let no_timers = vec![];
    let mut q = park(&snapshot, &aliases, &no_timers, &good);
    q.encoded = Err("no key".to_string());
    assert!(PersistenceBridge::new("r").commit_park(&q).is_ok());
}

#[test]
fn emissions_without_a_park_are_rows_too() {
    let none = vec![];
    assert!(matches!(commit_emissions("d", &Err("bad".to_string()), &none), Ok(rows) if rows.is_empty()));
    let some = vec![emission(INSTANCE)];
    assert!(commit_emissions("d", &Err("bad".to_string()), &some).is_err());
    assert!(matches!(commit_emissions("d", &Ok(()), &some), Ok(rows) if rows.len() == 1));
}
