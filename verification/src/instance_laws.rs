//! How a stored instance is addressed, claimed, read back and ended.

use vstd::prelude::*;

use crate::bridge;
use crate::bridge::{OutboxEmission, PersistenceError, SuspendedInstance};
use crate::diag::{Code, DiagnosticView};
use crate::duration::Duration;
use crate::endings;
use crate::endings::{AliasRow, EffectView, Rows, WaitRow};
use crate::instances;
use crate::instances::{
    Claim, DeadLetterRow, InboundIncident, InstanceClaimOutcome, StoredSnapshot,
};
use crate::outside;

verus! {

// ---- addressing --------------------------------------------------------------------------------

/// An instance is addressed by the number that its id denotes; a deployment that the store cannot
/// hold is refused first, then an id that denotes none.
pub proof fn an_instance_is_addressed_by_its_id(
    deployment: Result<(), String>,
    instance_id: Seq<char>,
)
    ensures
        match (deployment, outside::uuid_value(instance_id)) {
            (Ok(_), Ok(v)) => instances::addressed(deployment, instance_id) == Ok::<
                u128,
                DiagnosticView,
            >(v),
            (Err(e), _) => instances::addressed(deployment, instance_id) matches Err(d) && d.code
                == Code::RuntimeUnexpected && d.message
                == "deployment id failed persistence-form validation: "@ + e@,
            (Ok(_), Err(e)) => instances::addressed(deployment, instance_id) matches Err(d)
                && d.code == Code::RuntimeUnexpected && d.message == "instance id '"@ + instance_id
                + "' is not a UUID: "@ + e,
        },
{
}

/// The store's answer is handed on as it is; its failure is told under the request's words; and
/// without an address there is no answer at all.
pub proof fn the_store_answers_for_itself<T>(
    key: u128,
    refused: DiagnosticView,
    context: Seq<char>,
    value: T,
    words: String,
    unasked: Result<T, PersistenceError>,
)
    ensures
        instances::answered(Ok(key), context, Ok::<T, PersistenceError>(value)) == Ok::<
            T,
            DiagnosticView,
        >(value),
        instances::answered(Ok(key), context, Err::<T, _>(PersistenceError::Other(words))) matches Err(
            d,
        ) && d.code == Code::RuntimeUnexpected && d.message == context + ": "@ + words@,
        instances::answered(Err(refused), context, unasked) == Err::<T, DiagnosticView>(refused),
{
}

/// A claim is granted exactly where the store says that this owner won it; where another holds it
/// the answer says so, and a failure is neither.
pub proof fn only_a_won_claim_is_granted(won: Result<bool, DiagnosticView>)
    ensures
        instances::claim_outcome(won) == Ok::<InstanceClaimOutcome, DiagnosticView>(
            InstanceClaimOutcome::Granted,
        ) <==> won == Ok::<bool, DiagnosticView>(true),
        instances::claim_outcome(won) == Ok::<InstanceClaimOutcome, DiagnosticView>(
            InstanceClaimOutcome::HeldByOther,
        ) <==> won == Ok::<bool, DiagnosticView>(false),
        won matches Err(d) ==> (instances::claim_outcome(won) matches Err(e) && e == d),
{
}

// ---- reading back ------------------------------------------------------------------------------

/// A stored instance can be read exactly where its key can be named, the engine has keys if one is
/// named, the named key opens, and the snapshot decodes; the first of these that fails is told.
pub proof fn a_stored_instance_is_read_or_told_why(
    encrypting: bool,
    s: StoredSnapshot,
    instance_id: Seq<char>,
)
    ensures
        ({
            let f = instances::unreadable(encrypting, s, instance_id);
            match s.named {
                Err(e) => f matches Some(d) && d.message
                    == "failed to decode persisted instance snapshot: "@ + e@,
                Ok(Some(_)) => if !encrypting {
                    f matches Some(d) && d.code == Code::RuntimeUnexpected
                } else if s.data_key is Err {
                    f matches Some(d) && d.message
                        == "snapshot encryption/decryption failed (fail-closed): "@
                        + s.data_key->Err_0@
                } else if s.decoded is Err {
                    f matches Some(d) && d.message
                        == "failed to decode persisted instance snapshot: "@ + s.decoded->Err_0@
                } else {
                    f is None
                },
                Ok(None) => if s.decoded is Err {
                    f matches Some(d) && d.message
                        == "failed to decode persisted instance snapshot: "@ + s.decoded->Err_0@
                } else {
                    f is None
                },
            }
        }),
{
}

/// Loading fails exactly where the instance cannot be addressed, the store fails, or the row that it
/// has cannot be read; that there is no row is no failure.
pub proof fn loading_fails_for_the_address_the_store_or_the_row(
    encrypting: bool,
    deployment: Result<(), String>,
    instance_id: Seq<char>,
    row: Result<Option<StoredSnapshot>, PersistenceError>,
)
    ensures
        instances::load_failure(encrypting, deployment, instance_id, row) is None <==> {
            &&& deployment is Ok
            &&& outside::uuid_value(instance_id) is Ok
            &&& row is Ok
            &&& row->Ok_0 matches Some(s) ==> instances::unreadable(
                encrypting,
                s,
                instance_id,
            ) is None
        },
{
}

/// An instance that is read back is the one that was stored: its state, its process, its frontier,
/// its backoffs and the key it was stored under; what names to encrypt and what subjects to hash are
/// asked anew.
pub proof fn a_loaded_instance_is_the_stored_one(i: SuspendedInstance, s: StoredSnapshot)
    requires
        instances::rehydrated(i, s),
    ensures
        s.decoded is Ok,
        i.rest == s.decoded->Ok_0.rest,
        i.process_id == s.decoded->Ok_0.process_id,
        i.waiting_nodes == s.decoded->Ok_0.waiting_nodes,
        i.retry_backoff == s.decoded->Ok_0.retry_backoff,
        s.named is Ok,
        match s.named->Ok_0 {
            Some(k) => i.key_id@ == k@,
            None => i.key_id@.len() == 0,
        },
        i.encrypt_names@.len() == 0 && i.subjects@.len() == 0,
{
}

// ---- ending ------------------------------------------------------------------------------------

/// Resolving an instance's waits ends every wait of that instance and of no other, and changes
/// nothing else of any row.
pub proof fn resolving_ends_the_instances_waits(
    waits: Seq<WaitRow>,
    deployment: Seq<char>,
    instance: u128,
    i: int,
)
    requires
        0 <= i < waits.len(),
    ensures
        ({
            let r = endings::resolved(waits, deployment, instance);
            &&& r.len() == waits.len()
            &&& r[i].deployment == waits[i].deployment
            &&& r[i].instance == waits[i].instance
            &&& r[i].node == waits[i].node
            &&& r[i].waiting <==> waits[i].waiting && !(waits[i].deployment == deployment
                && waits[i].instance == instance)
        }),
{
}

/// Retiring an instance's aliases frees every alias of that instance and of no other, and changes
/// nothing else of any row.
pub proof fn retiring_frees_the_instances_aliases(
    aliases: Seq<AliasRow>,
    deployment: Seq<char>,
    instance: u128,
    i: int,
)
    requires
        0 <= i < aliases.len(),
    ensures
        ({
            let r = endings::retired(aliases, deployment, instance);
            &&& r.len() == aliases.len()
            &&& r[i].deployment == aliases[i].deployment
            &&& r[i].instance == aliases[i].instance
            &&& r[i].name == aliases[i].name
            &&& r[i].value == aliases[i].value
            &&& r[i].live <==> aliases[i].live && !(aliases[i].deployment == deployment
                && aliases[i].instance == instance)
        }),
{
}

/// Each effect touches its own rows: a completion and a failure write the instance's snapshot, a
/// deletion removes it, and neither touches another instance's; the other two leave the snapshots.
pub proof fn each_effect_touches_its_own_rows(
    rows: Rows,
    deployment: Seq<char>,
    instance: u128,
    bytes: Seq<u8>,
    other: (Seq<char>, u128),
)
    requires
        other != (deployment, instance),
    ensures
        ({
            let c = endings::after(rows, deployment, instance, EffectView::Complete(bytes));
            let x = endings::after(rows, deployment, instance, EffectView::Fail(bytes));
            let d = endings::after(rows, deployment, instance, EffectView::Delete);
            let w = endings::after(rows, deployment, instance, EffectView::ResolveWaits);
            let a = endings::after(rows, deployment, instance, EffectView::RetireAliases);
            let here = (deployment, instance);
            &&& c.snapshots.dom().contains(here) && c.snapshots[here] == bytes
            &&& x.snapshots.dom().contains(here) && x.snapshots[here] == bytes
            &&& !d.snapshots.dom().contains(here)
            &&& c.snapshots.dom().contains(other) == rows.snapshots.dom().contains(other)
            &&& x.snapshots.dom().contains(other) == rows.snapshots.dom().contains(other)
            &&& d.snapshots.dom().contains(other) == rows.snapshots.dom().contains(other)
            &&& c.snapshots[other] == rows.snapshots[other]
            &&& x.snapshots[other] == rows.snapshots[other]
            &&& d.snapshots[other] == rows.snapshots[other]
            &&& c.waits == rows.waits && x.waits == rows.waits && d.waits == rows.waits
            &&& c.aliases == rows.aliases && x.aliases == rows.aliases && d.aliases == rows.aliases
            &&& w.snapshots == rows.snapshots && w.aliases == rows.aliases
            &&& a.snapshots == rows.snapshots && a.waits == rows.waits
            &&& w.waits == endings::resolved(rows.waits, deployment, instance)
            &&& a.aliases == endings::retired(rows.aliases, deployment, instance)
        }),
{
}

/// After an instance has completed nothing of it waits and none of its aliases is live. Its snapshot
/// is gone where nothing is retained; where it is retained it is the restamped one, or stays as it
/// was where there was none to restamp.
pub proof fn a_completed_instance_leaves_no_wait(
    rows: Rows,
    deployment: Seq<char>,
    instance: u128,
    retain: bool,
    restamped: Option<Seq<u8>>,
    i: int,
    other: (Seq<char>, u128),
)
    requires
        other != (deployment, instance),
    ensures
        ({
            let e = endings::ended(rows, deployment, instance, retain, restamped);
            let here = (deployment, instance);
            &&& e.waits.len() == rows.waits.len() && e.aliases.len() == rows.aliases.len()
            &&& 0 <= i < rows.waits.len() ==> (e.waits[i].waiting <==> rows.waits[i].waiting && !(
            rows.waits[i].deployment == deployment && rows.waits[i].instance == instance))
            &&& 0 <= i < rows.aliases.len() ==> (e.aliases[i].live <==> rows.aliases[i].live && !(
            rows.aliases[i].deployment == deployment && rows.aliases[i].instance == instance))
            &&& !retain ==> !e.snapshots.dom().contains(here)
            &&& retain ==> match restamped {
                Some(b) => e.snapshots.dom().contains(here) && e.snapshots[here] == b,
                None => e.snapshots == rows.snapshots,
            }
            &&& e.snapshots.dom().contains(other) == rows.snapshots.dom().contains(other)
            &&& e.snapshots[other] == rows.snapshots[other]
        }),
{
}

/// The writes of a completion are the deletion or the restamped snapshot first, then the waits, then
/// the aliases.
pub proof fn a_completion_writes_in_order(retain: bool, restamped: Option<Seq<u8>>)
    ensures
        ({
            let v = endings::completing(retain, restamped);
            let n = v.len();
            &&& n >= 2 && v[n - 2] == EffectView::ResolveWaits && v[n - 1]
                == EffectView::RetireAliases
            &&& !retain ==> n == 3 && v[0] == EffectView::Delete
            &&& retain && restamped is None ==> n == 2
            &&& retain && restamped is Some ==> n == 3 && v[0] == EffectView::Complete(
                restamped->Some_0,
            )
        }),
{
}

/// Writes are applied one after another, in their order.
pub proof fn writes_apply_in_order(
    rows: Rows,
    deployment: Seq<char>,
    instance: u128,
    a: Seq<EffectView>,
    b: Seq<EffectView>,
)
    ensures
        endings::after_all(rows, deployment, instance, a + b) == endings::after_all(
            endings::after_all(rows, deployment, instance, a),
            deployment,
            instance,
            b,
        ),
        endings::after_all(rows, deployment, instance, Seq::empty()) == rows,
    decreases b.len(),
{
    if b.len() == 0 {
        assert(a + b =~= a);
    } else {
        writes_apply_in_order(rows, deployment, instance, a, b.drop_last());
        assert((a + b).drop_last() =~= a + b.drop_last());
        assert((a + b).last() == b.last());
    }
}

/// After an instance has failed nothing of it waits; its snapshot is the restamped one; its aliases
/// stay as they were.
pub proof fn a_failed_instance_leaves_no_wait(
    rows: Rows,
    deployment: Seq<char>,
    instance: u128,
    bytes: Seq<u8>,
    i: int,
)
    ensures
        ({
            let e = endings::failed(rows, deployment, instance, bytes);
            &&& e.snapshots.dom().contains((deployment, instance)) && e.snapshots[(
                deployment,
                instance,
            )] == bytes
            &&& e.waits.len() == rows.waits.len()
            &&& 0 <= i < rows.waits.len() ==> (e.waits[i].waiting <==> rows.waits[i].waiting && !(
            rows.waits[i].deployment == deployment && rows.waits[i].instance == instance))
            &&& e.aliases == rows.aliases
        }),
{
}

/// An ending is refused for its deployment, then its instance, then the first emission without an
/// address, and for nothing else.
pub proof fn an_ending_is_refused_in_order(
    deployment: Result<(), String>,
    instance_id: Seq<char>,
    emissions: Seq<OutboxEmission>,
)
    ensures
        ({
            let f = endings::terminal_refusal(deployment, instance_id, emissions);
            match (deployment, outside::uuid_value(instance_id)) {
                (Err(e), _) => f matches Some(d) && d.message
                    == "deployment id failed persistence-form validation: "@ + e@,
                (Ok(_), Err(e)) => f matches Some(d) && d.message == "instance id '"@ + instance_id
                    + "' is not a UUID: "@ + e,
                (Ok(_), Ok(_)) => f == bridge::unaddressable(emissions),
            }
        }),
{
}

/// Recording a failure is refused for its deployment, then its instance, then the store's failure or
/// that of restamping the row, and for nothing else: that there is no row is no refusal.
pub proof fn recording_a_failure_is_refused_in_order(
    deployment: Result<(), String>,
    instance_id: Seq<char>,
    row: Result<Option<Result<Vec<u8>, PersistenceError>>, PersistenceError>,
)
    ensures
        ({
            let f = endings::failing_refusal(deployment, instance_id, row);
            match (deployment, outside::uuid_value(instance_id)) {
                (Err(e), _) => f matches Some(d) && d.message
                    == "deployment id failed persistence-form validation: "@ + e@,
                (Ok(_), Err(e)) => f matches Some(d) && d.message == "instance id '"@ + instance_id
                    + "' is not a UUID: "@ + e,
                (Ok(_), Ok(_)) => match row {
                    Err(e) => f == Some(bridge::step_failure("failed-state commit failed"@, e)),
                    Ok(Some(Err(e))) => f == Some(
                        bridge::step_failure("failed-state commit failed"@, e),
                    ),
                    Ok(None) => f is None,
                    Ok(Some(Ok(_))) => f is None,
                },
            }
        }),
        endings::restamp(row->Ok_0) matches Some(b) ==> (row->Ok_0 matches Some(Ok(v)) && v@ == b),
        row->Ok_0 matches Some(Ok(v)) ==> endings::restamp(row->Ok_0) == Some(v@),
{
}

// ---- arrivals ----------------------------------------------------------------------------------

/// An arrival is passed over exactly where the store can hold its deployment and says that its key
/// was seen; a store that cannot say never stops one.
pub proof fn only_a_seen_key_is_passed_over(storable: bool, first: Result<bool, String>)
    ensures
        !instances::counts_as_first(storable, first) <==> storable && first == Ok::<bool, String>(
            false,
        ),
{
}

/// An incident is kept exactly where the store can hold its deployment, as it is, received when its
/// text says, or now where the text denotes no instant.
pub proof fn an_incident_is_kept_as_it_is(
    row: Option<DeadLetterRow>,
    storable: bool,
    incident: InboundIncident,
    now: i128,
)
    requires
        instances::dead_lettered(row, storable, incident, now),
    ensures
        row is Some <==> storable,
        row matches Some(r) ==> *r.incident == incident && match outside::rfc3339_instant(
            incident.received_at@,
        ) {
            Ok(t) => r.received_at == t,
            Err(_) => r.received_at == now,
        },
{
}

/// History was kept exactly where it is to be retained, there was a snapshot, and the one row of the
/// instance was marked.
pub proof fn history_is_kept_by_marking_one_row(retain: bool, present: bool, marked: u64)
    ensures
        endings::kept(retain, present, marked) ==> retain && present && marked == 1,
        retain && present ==> (endings::kept(retain, present, marked) <==> marked == 1),
        !retain || !present ==> !endings::kept(retain, present, marked),
{
}

/// A claim is made on the instance that the id denotes, by the owner that makes it.
pub proof fn a_claim_is_its_owners(
    c: Claim,
    deployment: Result<(), String>,
    instance_id: Seq<char>,
    owner: Seq<char>,
)
    requires
        instances::claims(c, deployment, instance_id, owner),
    ensures
        c.owner@ == owner,
        deployment is Ok,
        outside::uuid_value(instance_id) == Ok::<u128, Seq<char>>(c.instance),
{
}

/// History is retained exactly where it is retained for any time at all.
pub proof fn any_retention_retains(retention: Duration)
    ensures
        endings::retains(retention) <==> retention.total() > 0,
{
}

/// An alias leads to the instance that the store says it is bound to, by the text of its id; to none
/// where it is bound to none; and to a failure where the deployment or the store fails.
pub proof fn an_alias_leads_to_its_instance(
    deployment: Result<(), String>,
    owner: Result<Option<u128>, PersistenceError>,
)
    ensures
        match instances::alias_owner(deployment, owner) {
            Ok(Some(id)) => deployment is Ok && (owner matches Ok(Some(v)) && id
                == outside::uuid_text(v)),
            Ok(None) => deployment is Ok && (owner matches Ok(None)),
            Err(_) => deployment is Err || owner is Err,
        },
{
}

} // verus!
