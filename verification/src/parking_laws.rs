//! What is written when an instance parks, and what a stored instance is read back with.

use vstd::prelude::*;

use crate::bridge;
use crate::bridge::{
    OutboxEmission, OutboxEntry, PersistenceError, StepTimerWait, StepWrite, SuspendedInstance,
    TimerView, TimerWaitRecord,
};
use crate::diag::{Code, DiagnosticView};
use crate::keyed;
use crate::outside;
use crate::parking;
use crate::parking::{CommittedStep, ParkRequest, ParkStep};
use crate::text;

verus! {

// ---- timers ------------------------------------------------------------------------------------

proof fn timers_in_place(waits: Seq<TimerWaitRecord>, process_id: Seq<char>)
    ensures
        match bridge::timer_waits(waits, process_id) {
            Ok(v) => v.len() == waits.len() && forall|i: int|
                0 <= i < waits.len() ==> (#[trigger] v[i]).node_id == waits[i].node_id@
                    && v[i].process_id == process_id && outside::rfc3339_instant(waits[i].due_at@)
                    == Ok::<i128, Seq<char>>(v[i].due_at),
            Err(d) => exists|i: int| #[trigger]
                first_unreadable(waits, i) && refused_for(d, waits[i]),
        },
    decreases waits.len(),
{
    if waits.len() > 0 {
        let rest = waits.drop_last();
        let n = waits.len() - 1;
        timers_in_place(rest, process_id);
        assert(waits[n] == waits.last());
        match bridge::timer_waits(rest, process_id) {
            Err(d) => {
                let i = choose|i: int| #[trigger]
                    first_unreadable(rest, i) && refused_for(d, rest[i]);
                assert(rest[i] == waits[i]);
                assert forall|j: int| 0 <= j < i implies outside::rfc3339_instant(
                    (#[trigger] waits[j]).due_at@,
                ) is Ok by {
                    assert(rest[j] == waits[j]);
                }
                assert(first_unreadable(waits, i));
            },
            Ok(v) => match bridge::timer_waits(waits, process_id) {
                Ok(w) => {
                    assert forall|i: int| 0 <= i < waits.len() implies (#[trigger] w[i]).node_id
                        == waits[i].node_id@ && w[i].process_id == process_id
                        && outside::rfc3339_instant(waits[i].due_at@) == Ok::<i128, Seq<char>>(
                        w[i].due_at,
                    ) by {
                        if i < n {
                            assert(w[i] == v[i]);
                            assert(rest[i] == waits[i]);
                        }
                    }
                },
                Err(_) => {
                    assert forall|j: int| 0 <= j < n implies outside::rfc3339_instant(
                        (#[trigger] waits[j]).due_at@,
                    ) is Ok by {
                        assert(rest[j] == waits[j]);
                        assert(v[j].node_id == rest[j].node_id@);
                    }
                    assert(first_unreadable(waits, n));
                },
            },
        }
    }
}

spec fn first_unreadable(waits: Seq<TimerWaitRecord>, i: int) -> bool {
    &&& 0 <= i < waits.len()
    &&& outside::rfc3339_instant(waits[i].due_at@) is Err
    &&& forall|j: int|
        0 <= j < i ==> outside::rfc3339_instant((#[trigger] waits[j]).due_at@) is Ok
}

spec fn refused_for(d: DiagnosticView, record: TimerWaitRecord) -> bool {
    &&& d.code == Code::RuntimeUnexpected
    &&& d.message == "timer wait '"@ + record.node_id@ + "' carries unparseable due-at '"@
        + record.due_at@ + "': "@ + outside::rfc3339_instant(record.due_at@)->Err_0
}

/// Where the timers of a step can all be read there is one row for every record, in their order:
/// it waits at the record's node, belongs to the process given, and is due at the instant that the
/// record's text denotes.
pub proof fn each_timer_keeps_its_node_and_instant(
    waits: Seq<TimerWaitRecord>,
    process_id: Seq<char>,
    rows: Seq<StepTimerWait>,
)
    requires
        bridge::timer_waits(waits, process_id) == Ok::<Seq<TimerView>, DiagnosticView>(
            bridge::timers(rows),
        ),
    ensures
        rows.len() == waits.len(),
        forall|i: int|
            0 <= i < rows.len() ==> {
                &&& (#[trigger] rows[i]).node_id@ == waits[i].node_id@
                &&& rows[i].process_id@ == process_id
                &&& outside::rfc3339_instant(waits[i].due_at@) == Ok::<i128, Seq<char>>(
                    rows[i].due_at,
                )
            },
{
    timers_in_place(waits, process_id);
    let v = bridge::timers(rows);
    assert forall|i: int| 0 <= i < rows.len() implies {
        &&& (#[trigger] rows[i]).node_id@ == waits[i].node_id@
        &&& rows[i].process_id@ == process_id
        &&& outside::rfc3339_instant(waits[i].due_at@) == Ok::<i128, Seq<char>>(rows[i].due_at)
    } by {
        assert(v[i] == rows[i]@);
    }
}

/// The timers of a step are refused exactly where one of them cannot be read; the first such record
/// is the one that is named.
pub proof fn timers_are_refused_for_the_first_unreadable(
    waits: Seq<TimerWaitRecord>,
    process_id: Seq<char>,
    k: int,
)
    requires
        0 <= k < waits.len(),
        outside::rfc3339_instant(waits[k].due_at@) is Err,
        forall|j: int| 0 <= j < k ==> outside::rfc3339_instant((#[trigger] waits[j]).due_at@) is Ok,
    ensures
        bridge::timer_waits(waits, process_id) matches Err(d) && d.code == Code::RuntimeUnexpected
            && d.message == "timer wait '"@ + waits[k].node_id@
            + "' carries unparseable due-at '"@ + waits[k].due_at@ + "': "@
            + outside::rfc3339_instant(waits[k].due_at@)->Err_0,
{
    timers_in_place(waits, process_id);
    match bridge::timer_waits(waits, process_id) {
        Ok(v) => {
            assert(v[k].node_id == waits[k].node_id@);
        },
        Err(d) => {
            let i = choose|i: int| #[trigger]
                first_unreadable(waits, i) && refused_for(d, waits[i]);
            assert(i == k);
        },
    }
}

// ---- the step ----------------------------------------------------------------------------------

/// A step writes for its own instance: one wait for every node that the snapshot waits at, in their
/// order and of the snapshot's process, and withdraws the calls of the nodes that back off.
pub proof fn a_step_writes_its_snapshot(
    w: StepWrite,
    instance_id: Seq<char>,
    s: SuspendedInstance,
    satisfied: Seq<Seq<char>>,
    node: Seq<char>,
)
    requires
        bridge::writes(w, instance_id, s, satisfied),
    ensures
        outside::uuid_value(instance_id) == Ok::<u128, Seq<char>>(w.instance_id),
        w.waits@.len() == s.waiting_nodes@.len(),
        forall|i: int|
            0 <= i < w.waits@.len() ==> {
                &&& (#[trigger] w.waits@[i]).node_id@ == s.waiting_nodes@[i]@
                &&& w.waits@[i].process_id@ == s.process_id@
                &&& w.waits@[i].correlation_key is None
            },
        w.resolved_waits@.len() == satisfied.len(),
        forall|i: int|
            0 <= i < satisfied.len() ==> (#[trigger] w.resolved_waits@[i])@ == satisfied[i],
        text::texts(w.withdrawn_call_nodes@).contains(node) <==> keyed::has(
            s.retry_backoff@,
            node,
        ),
{
    let r = text::texts(w.resolved_waits@);
    assert(r.len() == w.resolved_waits@.len());
    assert forall|i: int| 0 <= i < satisfied.len() implies (#[trigger] w.resolved_waits@[i])@
        == satisfied[i] by {
        assert(r[i] == w.resolved_waits@[i]@);
    }
    keyed::has_is_contains(s.retry_backoff@, node);
}

/// A parked step keeps everything of its request: the deployment, the snapshot, the aliases, one
/// outbox row for every emission in their order, ready at once and never tried, and one timer for
/// every timer record; it is encrypted and hashed under the snapshot's own key where it is at all, and
/// resolves and releases what it was told to.
pub proof fn a_park_keeps_its_request(
    s: ParkStep,
    encrypting: bool,
    q: ParkRequest,
    satisfied: Seq<Seq<char>>,
    released: Option<Seq<char>>,
)
    requires
        parking::commits(s, encrypting, q, satisfied, released),
    ensures
        s.deployment@ == q.deployment_id@,
        *s.snapshot == *q.snapshot,
        *s.aliases == *q.aliases,
        outside::uuid_value(q.instance_id@) == Ok::<u128, Seq<char>>(s.write.instance_id),
        text::texts(s.write.resolved_waits@) == satisfied,
        s.outbox@.len() == q.emissions@.len(),
        forall|i: int|
            0 <= i < s.outbox@.len() ==> {
                &&& (#[trigger] s.outbox@[i]).deployment@ == q.deployment_id@
                &&& *s.outbox@[i].emission == q.emissions@[i]
                &&& outside::uuid_value(q.emissions@[i].instance_id@) == Ok::<u128, Seq<char>>(
                    s.outbox@[i].instance_id,
                )
                &&& s.outbox@[i].created_at == s.outbox@[0].created_at
                &&& s.outbox@[i].next_attempt_at == s.outbox@[i].created_at
                &&& s.outbox@[i].attempt_count == 0
                &&& s.outbox@[i].last_diagnostic_json is None
            },
        s.timers@.len() == q.timer_waits@.len(),
        forall|i: int|
            0 <= i < s.timers@.len() ==> {
                &&& (#[trigger] s.timers@[i]).node_id@ == q.timer_waits@[i].node_id@
                &&& s.timers@[i].process_id@ == q.snapshot.process_id@
                &&& outside::rfc3339_instant(q.timer_waits@[i].due_at@) == Ok::<i128, Seq<char>>(
                    s.timers@[i].due_at,
                )
            },
        match (s.released, released) {
            (Some(a), Some(b)) => a@ == b,
            (None, None) => true,
            _ => false,
        },
        s.key is Some <==> encrypting && q.snapshot.key_id@.len() > 0
            && q.snapshot.encrypt_names@.len() > 0,
        s.key matches Some(k) ==> k@ == q.snapshot.key_id@,
        s.subjects_key is Some <==> encrypting && q.snapshot.key_id@.len() > 0
            && q.snapshot.subjects@.len() > 0,
        s.subjects_key matches Some(k) ==> k@ == q.snapshot.key_id@,
{
    each_timer_keeps_its_node_and_instant(q.timer_waits@, q.snapshot.process_id@, s.timers@);
    let now = choose|now: i128| #[trigger]
        bridge::rows_at(s.outbox@, q.deployment_id@, q.emissions@, now);
    outbox_rows_are_fresh(s.outbox@, q.deployment_id@, q.emissions@, now);
}

/// Every outbox row is its emission's, ready at the instant of the step and never tried.
pub proof fn outbox_rows_are_fresh(
    rows: Seq<OutboxEntry>,
    dep: Seq<char>,
    emissions: Seq<OutboxEmission>,
    now: i128,
)
    requires
        bridge::rows_at(rows, dep, emissions, now),
    ensures
        rows.len() == emissions.len(),
        forall|i: int|
            0 <= i < rows.len() ==> {
                &&& (#[trigger] rows[i]).deployment@ == dep
                &&& *rows[i].emission == emissions[i]
                &&& outside::uuid_value(emissions[i].instance_id@) == Ok::<u128, Seq<char>>(
                    rows[i].instance_id,
                )
                &&& rows[i].created_at == now
                &&& rows[i].next_attempt_at == now
                &&& rows[i].attempt_count == 0
                &&& rows[i].last_diagnostic_json is None
            },
{
}

/// One outbox row is its emission's under the id drawn for it.
pub proof fn an_outbox_row_is_its_emission(
    e: OutboxEntry,
    dep: Seq<char>,
    emission: OutboxEmission,
    entry_id: u128,
    now: i128,
)
    requires
        bridge::row_of(e, dep, emission, entry_id, now),
    ensures
        e.deployment@ == dep,
        e.entry_id == entry_id,
        outside::uuid_value(emission.instance_id@) == Ok::<u128, Seq<char>>(e.instance_id),
        *e.emission == emission,
        e.created_at == now && e.next_attempt_at == now,
        e.attempt_count == 0 && e.last_diagnostic_json is None,
{
}

/// Emissions can be addressed exactly where every one of them names an instance by a readable id.
pub proof fn every_emission_needs_an_instance(emissions: Seq<OutboxEmission>)
    ensures
        bridge::unaddressable(emissions) is None <==> forall|i: int|
            0 <= i < emissions.len() ==> outside::uuid_value(
                (#[trigger] emissions[i]).instance_id@,
            ) is Ok,
    decreases emissions.len(),
{
    if emissions.len() > 0 {
        let rest = emissions.drop_first();
        every_emission_needs_an_instance(rest);
        if forall|i: int|
            0 <= i < emissions.len() ==> outside::uuid_value(
                (#[trigger] emissions[i]).instance_id@,
            ) is Ok {
            assert forall|i: int| 0 <= i < rest.len() implies outside::uuid_value(
                (#[trigger] rest[i]).instance_id@,
            ) is Ok by {
                assert(rest[i] == emissions[i + 1]);
            }
        }
        if bridge::unaddressable(emissions) is None {
            assert forall|i: int| 0 <= i < emissions.len() implies outside::uuid_value(
                (#[trigger] emissions[i]).instance_id@,
            ) is Ok by {
                if i > 0 {
                    assert(rest[i - 1] == emissions[i]);
                }
            }
        }
    }
}

/// Where emissions cannot be addressed, the first that cannot is the one that is named.
pub proof fn the_first_unaddressable_emission_is_named(emissions: Seq<OutboxEmission>, k: int)
    requires
        0 <= k < emissions.len(),
        outside::uuid_value(emissions[k].instance_id@) is Err,
        forall|j: int|
            0 <= j < k ==> outside::uuid_value((#[trigger] emissions[j]).instance_id@) is Ok,
    ensures
        bridge::unaddressable(emissions) matches Some(d) && d.code == Code::RuntimeUnexpected
            && d.message == "instance id '"@ + emissions[k].instance_id@ + "' is not a UUID: "@
            + outside::uuid_value(emissions[k].instance_id@)->Err_0,
    decreases k,
{
    if k > 0 {
        let rest = emissions.drop_first();
        assert(outside::uuid_value(emissions[0].instance_id@) is Ok);
        assert forall|j: int| 0 <= j < k - 1 implies outside::uuid_value(
            (#[trigger] rest[j]).instance_id@,
        ) is Ok by {
            assert(rest[j] == emissions[j + 1]);
        }
        assert(rest[k - 1] == emissions[k]);
        the_first_unaddressable_emission_is_named(rest, k - 1);
    }
}

// ---- keys --------------------------------------------------------------------------------------

/// A snapshot is encrypted exactly where the engine has keys, the snapshot names something to
/// encrypt and names its key, and then under that very key; its subjects are hashed by the same rule
/// where it has subjects.
pub proof fn a_snapshot_is_encrypted_under_its_own_key(encrypting: bool, s: SuspendedInstance)
    ensures
        bridge::encryption_key(encrypting, s) matches Some(k) ==> encrypting && k == s.key_id@
            && k.len() > 0 && s.encrypt_names@.len() > 0,
        encrypting && s.key_id@.len() > 0 && s.encrypt_names@.len() > 0 ==> bridge::encryption_key(
            encrypting,
            s,
        ) == Some(s.key_id@),
        bridge::index_key(encrypting, s) matches Some(k) ==> encrypting && k == s.key_id@ && k.len()
            > 0 && s.subjects@.len() > 0,
        encrypting && s.key_id@.len() > 0 && s.subjects@.len() > 0 ==> bridge::index_key(
            encrypting,
            s,
        ) == Some(s.key_id@),
{
}

/// What was stored with a key is read with that key or not at all; what was stored without one is
/// read without one.
pub proof fn a_snapshot_is_read_with_the_key_it_names(
    encrypting: bool,
    named: Option<Seq<char>>,
    instance_id: Seq<char>,
)
    ensures
        match (named, encrypting) {
            (None, _) => bridge::decoding_key(encrypting, named, instance_id) == Ok::<
                Option<Seq<char>>,
                DiagnosticView,
            >(None),
            (Some(k), true) => bridge::decoding_key(encrypting, named, instance_id) == Ok::<
                Option<Seq<char>>,
                DiagnosticView,
            >(Some(k)),
            (Some(_), false) => bridge::decoding_key(encrypting, named, instance_id) matches Err(d)
                && d.code == Code::RuntimeUnexpected,
        },
{
}

/// What one engine encrypts, any engine with keys reads under the same key, and none without keys
/// reads at all.
pub proof fn an_encrypted_snapshot_reads_back_under_its_key(
    s: SuspendedInstance,
    instance_id: Seq<char>,
)
    requires
        bridge::encryption_key(true, s) is Some,
    ensures
        bridge::decoding_key(true, bridge::encryption_key(true, s), instance_id) == Ok::<
            Option<Seq<char>>,
            DiagnosticView,
        >(Some(s.key_id@)),
        bridge::decoding_key(false, bridge::encryption_key(true, s), instance_id) is Err,
{
}

// ---- refusals ----------------------------------------------------------------------------------

/// A park is refused for its deployment before its instance, before a cipher that failed where it
/// was needed, before an emission that cannot be addressed, before a timer that cannot be read; and
/// for nothing else.
pub proof fn a_park_is_refused_in_order(encrypting: bool, q: ParkRequest)
    ensures
        ({
            let f = parking::refusal(encrypting, q);
            let keyed = encrypting && q.snapshot.key_id@.len() > 0;
            match q.deployment {
                Err(e) => f matches Some(d) && d.code == Code::RuntimeUnexpected && d.message
                    == "deployment id failed persistence-form validation: "@ + e@,
                Ok(_) => match outside::uuid_value(q.instance_id@) {
                    Err(e) => f matches Some(d) && d.code == Code::RuntimeUnexpected && d.message
                        == "instance id '"@ + q.instance_id@ + "' is not a UUID: "@ + e,
                    Ok(_) => if keyed && q.snapshot.encrypt_names@.len() > 0 && q.encoded is Err {
                        f matches Some(d) && d.message
                            == "snapshot encryption/decryption failed (fail-closed): "@
                            + q.encoded->Err_0@
                    } else if keyed && q.snapshot.subjects@.len() > 0 && q.blinded is Err {
                        f matches Some(d) && d.message
                            == "snapshot encryption/decryption failed (fail-closed): "@
                            + q.blinded->Err_0@
                    } else if exists|i: int|
                        0 <= i < q.emissions@.len() && outside::uuid_value(
                            (#[trigger] q.emissions@[i]).instance_id@,
                        ) is Err {
                        f is Some && f == bridge::unaddressable(q.emissions@)
                    } else {
                        f is None <==> forall|i: int|
                            0 <= i < q.timer_waits@.len() ==> outside::rfc3339_instant(
                                (#[trigger] q.timer_waits@[i]).due_at@,
                            ) is Ok
                    },
                },
            }
        }),
{
    every_emission_needs_an_instance(q.emissions@);
    timers_in_place(q.timer_waits@, q.snapshot.process_id@);
    match bridge::timer_waits(q.timer_waits@, q.snapshot.process_id@) {
        Ok(v) => {
            assert forall|i: int| 0 <= i < q.timer_waits@.len() implies outside::rfc3339_instant(
                (#[trigger] q.timer_waits@[i]).due_at@,
            ) is Ok by {
                assert(v[i].node_id == q.timer_waits@[i].node_id@);
            }
        },
        Err(_) => {},
    }
}

/// A store that finds an alias taken answers with a conflict that names the alias and its value;
/// any other failure is the engine's own, under the step's words.
pub proof fn a_taken_alias_is_a_conflict(
    context: Seq<char>,
    name: String,
    value: String,
    words: String,
)
    ensures
        ({
            let d = bridge::step_failure(context, PersistenceError::AliasCollision { name, value });
            &&& d.code == Code::InboundAliasConflictReject
            &&& d.message.subrange(0, "<q:alias "@.len() as int) == "<q:alias "@
            &&& d.message == "<q:alias "@ + name@ + "> = '"@ + value@
                + "' already bound to a live instance (unique-live index); the step was rolled back and the arrival rejected"@
        }),
        ({
            let d = bridge::step_failure(context, PersistenceError::Other(words));
            &&& d.code == Code::RuntimeUnexpected
            &&& d.message == context + ": "@ + words@
        }),
{
    let d = bridge::step_failure(context, PersistenceError::AliasCollision { name, value });
    assert(d.message.subrange(0, "<q:alias "@.len() as int) =~= "<q:alias "@);
}

/// The three steps fail under words of their own.
pub proof fn each_step_fails_under_its_own_words(a: CommittedStep, b: CommittedStep)
    ensures
        parking::commit_context(CommittedStep::Park) == "park step commit failed"@,
        parking::commit_context(CommittedStep::Repark) == "re-park step commit failed"@,
        parking::commit_context(CommittedStep::Emissions) == "sync-path outbox commit failed"@,
        a != b ==> parking::commit_context(a) != parking::commit_context(b),
{
    reveal_strlit("park step commit failed");
    reveal_strlit("re-park step commit failed");
    reveal_strlit("sync-path outbox commit failed");
    assert("park step commit failed"@.len() < "re-park step commit failed"@.len());
    assert("re-park step commit failed"@.len() < "sync-path outbox commit failed"@.len());
}

// ---- parking again -----------------------------------------------------------------------------

/// A first park resolves no wait and releases no claim.
pub proof fn a_first_park_releases_nothing(s: ParkStep, encrypting: bool, q: ParkRequest)
    requires
        parking::parks(s, encrypting, q),
    ensures
        s.released is None,
        s.write.resolved_waits@.len() == 0,
        s.deployment@ == q.deployment_id@ && *s.snapshot == *q.snapshot,
        s.outbox@.len() == q.emissions@.len() && s.timers@.len() == q.timer_waits@.len(),
{
    a_park_keeps_its_request(s, encrypting, q, Seq::empty(), None);
    assert(text::texts(s.write.resolved_waits@).len() == s.write.resolved_waits@.len());
}

/// Parking again resolves exactly what was satisfied and releases its own owner's claim.
pub proof fn parking_again_releases_the_claim(
    s: ParkStep,
    encrypting: bool,
    q: ParkRequest,
    satisfied: Seq<Seq<char>>,
    owner: Seq<char>,
)
    requires
        parking::reparks(s, encrypting, q, satisfied, owner),
    ensures
        s.released matches Some(o) && o@ == owner,
        text::texts(s.write.resolved_waits@) == satisfied,
        s.deployment@ == q.deployment_id@ && *s.snapshot == *q.snapshot,
        s.outbox@.len() == q.emissions@.len() && s.timers@.len() == q.timer_waits@.len(),
{
    a_park_keeps_its_request(s, encrypting, q, satisfied, Some(owner));
}

/// The owner of a lane is named for its replica and its shard.
pub proof fn a_lane_is_named_for_its_shard(replica: Seq<char>, shard: u32)
    ensures
        text::begins(bridge::lane_owner(replica, shard), replica),
        text::finishes(bridge::lane_owner(replica, shard), "-s"@ + text::decimal(shard as nat)),
        bridge::lane_owner(replica, shard).len() == replica.len() + 2 + text::decimal(
            shard as nat,
        ).len(),
{
    reveal_strlit("-s");
    let o = bridge::lane_owner(replica, shard);
    let tail = "-s"@ + text::decimal(shard as nat);
    assert(o.take(replica.len() as int) =~= replica);
    assert(o.skip(o.len() - tail.len()) =~= tail);
}

} // verus!
