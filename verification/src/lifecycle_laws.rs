//! Which deployments may retire, what a stored archive becomes, and how often the engine looks.

use vstd::prelude::*;

use crate::assembly::{DeploymentPlan, PlanView};
use crate::duration::Duration;
use crate::lifecycle;
use crate::lifecycle::{ArchiveStatus, NewArchive, Pinned, ServedArchiveRow, StoredArchive};
use crate::text;

verus! {

// ---- quiescence --------------------------------------------------------------------------------

/// A deployment is among the quiescent ones exactly where the store cannot hold its id, or where its
/// active instances, its pending outbox rows and its live external tasks were each counted and each
/// count is zero.
pub proof fn only_settled_deployments_retire(v: Seq<Pinned>, id: Seq<char>)
    ensures
        lifecycle::quiescent_among(v).contains(id) <==> exists|i: int|
            0 <= i < v.len() && (#[trigger] v[i]).id@ == id && (!v[i].storable || (
            v[i].instances == Some(0i64) && v[i].outbox == Some(0i64) && v[i].external_tasks
                == Some(0i64))),
    decreases v.len(),
{
    let found = lifecycle::quiescent_among(v);
    if v.len() > 0 {
        let rest = v.drop_last();
        let n = v.len() - 1;
        only_settled_deployments_retire(rest, id);
        let before = lifecycle::quiescent_among(rest);
        let p = v[n];
        let settled = !p.storable || (p.instances == Some(0i64) && p.outbox == Some(0i64)
            && p.external_tasks == Some(0i64));
        assert(p == v.last());
        if before.contains(id) {
            let i = choose|i: int|
                0 <= i < rest.len() && (#[trigger] rest[i]).id@ == id && (!rest[i].storable || (
                rest[i].instances == Some(0i64) && rest[i].outbox == Some(0i64)
                    && rest[i].external_tasks == Some(0i64)));
            assert(v[i] == rest[i]);
            let k = choose|k: int| 0 <= k < before.len() && before[k] == id;
            assert(found[k] == id);
        }
        if settled && p.id@ == id {
            assert(found[found.len() - 1] == id);
        }
        if found.contains(id) && !before.contains(id) {
            let k = choose|k: int| 0 <= k < found.len() && found[k] == id;
            if k < before.len() {
                assert(before[k] == id);
            }
            assert(v[n].id@ == id);
        }
        if exists|i: int|
            0 <= i < v.len() && (#[trigger] v[i]).id@ == id && (!v[i].storable || (v[i].instances
                == Some(0i64) && v[i].outbox == Some(0i64) && v[i].external_tasks == Some(0i64))) {
            let i = choose|i: int|
                0 <= i < v.len() && (#[trigger] v[i]).id@ == id && (!v[i].storable || (
                v[i].instances == Some(0i64) && v[i].outbox == Some(0i64) && v[i].external_tasks
                    == Some(0i64)));
            if i < n {
                assert(rest[i] == v[i]);
                assert(before.contains(id));
            }
        }
    }
}

/// While a deployment that the store holds has an active instance, a pending outbox row or a live
/// external task, or while one of the three could not be counted, it goes on draining.
pub proof fn whatever_is_pending_keeps_it_draining(v: Seq<Pinned>, k: int)
    requires
        0 <= k < v.len(),
        v[k].storable,
        forall|i: int| 0 <= i < v.len() && i != k ==> (#[trigger] v[i]).id@ != v[k].id@,
        v[k].instances is None || v[k].outbox is None || v[k].external_tasks is None || (
        v[k].instances matches Some(n) && n > 0) || (v[k].outbox matches Some(n) && n > 0) || (
        v[k].external_tasks matches Some(n) && n > 0),
    ensures
        !lifecycle::quiescent_among(v).contains(v[k].id@),
{
    only_settled_deployments_retire(v, v[k].id@);
}

/// The quiescent ones stand in the order in which they drain, each at its own place: asking about
/// two lists one behind the other is asking about each.
pub proof fn quiescence_is_asked_one_by_one(a: Seq<Pinned>, b: Seq<Pinned>, p: Pinned)
    ensures
        lifecycle::quiescent_among(a + b) == lifecycle::quiescent_among(a)
            + lifecycle::quiescent_among(b),
        lifecycle::quiescent_among(seq![p]) == if p.storable && (p.instances != Some(0i64)
            || p.outbox != Some(0i64) || p.external_tasks != Some(0i64)) {
            Seq::<Seq<char>>::empty()
        } else {
            seq![p.id@]
        },
    decreases b.len(),
{
    assert(seq![p].drop_last() =~= Seq::<Pinned>::empty());
    assert(lifecycle::quiescent_among(Seq::<Pinned>::empty()) =~= Seq::<Seq<char>>::empty());
    if b.len() == 0 {
        assert(a + b =~= a);
        assert(lifecycle::quiescent_among(a) + lifecycle::quiescent_among(b)
            =~= lifecycle::quiescent_among(a));
    } else {
        quiescence_is_asked_one_by_one(a, b.drop_last(), p);
        assert((a + b).drop_last() =~= a + b.drop_last());
        assert((a + b).last() == b.last());
        let x = lifecycle::quiescent_among(a);
        let y = lifecycle::quiescent_among(b.drop_last());
        assert((x + y).push(b.last().id@) =~= x + y.push(b.last().id@));
    }
    assert(Seq::<Seq<char>>::empty().push(p.id@) =~= seq![p.id@]);
}

// ---- stored archives ---------------------------------------------------------------------------

/// Every served archive goes to one side and not to the other: to the draining ones exactly where
/// its row drains.
pub proof fn a_served_archive_drains_or_serves(
    a: Seq<ServedArchiveRow>,
    b: Seq<ServedArchiveRow>,
    row: ServedArchiveRow,
    draining: bool,
)
    ensures
        lifecycle::served_part(a + b, draining) == lifecycle::served_part(a, draining)
            + lifecycle::served_part(b, draining),
        row.status == ArchiveStatus::Draining ==> {
            &&& lifecycle::served_part(seq![row], true) == seq![row.archive]
            &&& lifecycle::served_part(seq![row], false) == Seq::<StoredArchive>::empty()
        },
        row.status != ArchiveStatus::Draining ==> {
            &&& lifecycle::served_part(seq![row], true) == Seq::<StoredArchive>::empty()
            &&& lifecycle::served_part(seq![row], false) == seq![row.archive]
        },
        lifecycle::served_part(b, true).len() + lifecycle::served_part(b, false).len() == b.len(),
    decreases b.len(),
{
    let none = Seq::<ServedArchiveRow>::empty();
    assert(seq![row].drop_last() =~= none);
    assert(lifecycle::served_part(none, true) =~= Seq::<StoredArchive>::empty());
    assert(lifecycle::served_part(none, false) =~= Seq::<StoredArchive>::empty());
    assert(Seq::<StoredArchive>::empty().push(row.archive) =~= seq![row.archive]);
    if b.len() == 0 {
        assert(a + b =~= a);
        assert(lifecycle::served_part(a, draining) + lifecycle::served_part(b, draining)
            =~= lifecycle::served_part(a, draining));
    } else {
        a_served_archive_drains_or_serves(a, b.drop_last(), row, draining);
        assert((a + b).drop_last() =~= a + b.drop_last());
        assert((a + b).last() == b.last());
        let x = lifecycle::served_part(a, draining);
        let y = lifecycle::served_part(b.drop_last(), draining);
        assert((x + y).push(b.last().archive) =~= x + y.push(b.last().archive));
    }
}

/// Of the archives of the store, those that could be prepared are served, in their order, each with
/// its own plan; the others are passed over.
pub proof fn what_can_be_prepared_is_served(
    a: Seq<Result<DeploymentPlan, String>>,
    b: Seq<Result<DeploymentPlan, String>>,
    plan: DeploymentPlan,
    error: String,
)
    ensures
        lifecycle::prepared_plans(a + b) == lifecycle::prepared_plans(a)
            + lifecycle::prepared_plans(b),
        lifecycle::prepared_plans(seq![Ok(plan)]) == seq![plan@],
        lifecycle::prepared_plans(seq![Err(error)]) == Seq::<PlanView>::empty(),
    decreases b.len(),
{
    assert(seq![Ok::<DeploymentPlan, String>(plan)].drop_last() =~= Seq::<
        Result<DeploymentPlan, String>,
    >::empty());
    assert(seq![Err::<DeploymentPlan, String>(error)].drop_last() =~= Seq::<
        Result<DeploymentPlan, String>,
    >::empty());
    assert(lifecycle::prepared_plans(Seq::<Result<DeploymentPlan, String>>::empty()) =~= Seq::<
        PlanView,
    >::empty());
    assert(Seq::<PlanView>::empty().push(plan@) =~= seq![plan@]);
    if b.len() == 0 {
        assert(a + b =~= a);
        assert(lifecycle::prepared_plans(a) + lifecycle::prepared_plans(b)
            =~= lifecycle::prepared_plans(a));
    } else {
        what_can_be_prepared_is_served(a, b.drop_last(), plan, error);
        assert((a + b).drop_last() =~= a + b.drop_last());
        assert((a + b).last() == b.last());
        let x = lifecycle::prepared_plans(a);
        let y = lifecycle::prepared_plans(b.drop_last());
        match b.last() {
            Ok(p) => {
                assert((x + y).push(p@) =~= x + y.push(p@));
            },
            Err(_) => {},
        }
    }
}

/// A sweep looks at the draining rows whose ids the engine can read, in their order, and at no
/// others.
pub proof fn a_sweep_looks_at_readable_rows(
    a: Seq<(Seq<char>, bool)>,
    b: Seq<(Seq<char>, bool)>,
    id: Seq<char>,
)
    ensures
        lifecycle::sweepable(a + b) == lifecycle::sweepable(a) + lifecycle::sweepable(b),
        lifecycle::sweepable(seq![(id, true)]) == seq![id],
        lifecycle::sweepable(seq![(id, false)]) == Seq::<Seq<char>>::empty(),
    decreases b.len(),
{
    assert(lifecycle::sweepable(Seq::<(Seq<char>, bool)>::empty()) =~= Seq::<Seq<char>>::empty());
    assert(seq![(id, true)].drop_last() =~= Seq::<(Seq<char>, bool)>::empty());
    assert(seq![(id, false)].drop_last() =~= Seq::<(Seq<char>, bool)>::empty());
    assert(Seq::<Seq<char>>::empty().push(id) =~= seq![id]);
    if b.len() == 0 {
        assert(a + b =~= a);
        assert(lifecycle::sweepable(a) + lifecycle::sweepable(b) =~= lifecycle::sweepable(a));
    } else {
        a_sweep_looks_at_readable_rows(a, b.drop_last(), id);
        assert((a + b).drop_last() =~= a + b.drop_last());
        assert((a + b).last() == b.last());
        let x = lifecycle::sweepable(a);
        let y = lifecycle::sweepable(b.drop_last());
        assert((x + y).push(b.last().0) =~= x + y.push(b.last().0));
    }
}

/// A sweep counts the rows that its own write retired: each once, and neither a row that another
/// process retired nor one whose write failed.
pub proof fn a_sweep_counts_its_own_writes(
    a: Seq<Result<bool, String>>,
    b: Seq<Result<bool, String>>,
    error: String,
)
    ensures
        lifecycle::retired_rows(a + b) == lifecycle::retired_rows(a) + lifecycle::retired_rows(b),
        lifecycle::retired_rows(seq![Ok(true)]) == 1,
        lifecycle::retired_rows(seq![Ok(false)]) == 0,
        lifecycle::retired_rows(seq![Err(error)]) == 0,
        lifecycle::retired_rows(b) <= b.len(),
        lifecycle::retired_rows(b) == 0 <==> !b.contains(Ok(true)),
    decreases b.len(),
{
    assert(seq![Ok::<bool, String>(true)].drop_last() =~= Seq::<Result<bool, String>>::empty());
    assert(seq![Ok::<bool, String>(false)].drop_last() =~= Seq::<Result<bool, String>>::empty());
    assert(seq![Err::<bool, String>(error)].drop_last() =~= Seq::<Result<bool, String>>::empty());
    assert(lifecycle::retired_rows(Seq::<Result<bool, String>>::empty()) == 0);
    if b.len() == 0 {
        assert(a + b =~= a);
    } else {
        let rest = b.drop_last();
        a_sweep_counts_its_own_writes(a, rest, error);
        assert((a + b).drop_last() =~= a + rest);
        assert((a + b).last() == b.last());
        if b.contains(Ok(true)) && !rest.contains(Ok(true)) {
            let i = choose|i: int| 0 <= i < b.len() && b[i] == Ok::<bool, String>(true);
            if i < rest.len() {
                assert(rest[i] == b[i]);
            }
            assert(b.last() == Ok::<bool, String>(true));
        }
        if rest.contains(Ok(true)) {
            let i = choose|i: int| 0 <= i < rest.len() && rest[i] == Ok::<bool, String>(true);
            assert(b[i] == rest[i]);
        }
        if b.last() == Ok::<bool, String>(true) {
            assert(b[b.len() - 1] == b.last());
        }
    }
}

// ---- how often ---------------------------------------------------------------------------------

/// The engine never looks more often than the floor allows, and otherwise as often as it was told:
/// the interval is the longer of the two.
pub proof fn an_interval_never_falls_below_its_floor(d: Duration, floor: Duration)
    ensures
        lifecycle::at_least(d, floor).total() >= floor.total(),
        lifecycle::at_least(d, floor).total() >= d.total(),
        lifecycle::at_least(d, floor) == d || lifecycle::at_least(d, floor) == floor,
        d.total() >= floor.total() ==> lifecycle::at_least(d, floor) == d,
{
}

// ---- slots and ticks ---------------------------------------------------------------------------

/// A slot begins with its tenant, ends with its version and holds its module between; so two module
/// versions whose tenants and versions agree share a slot only where their modules do.
pub proof fn a_slot_tells_modules_apart(
    tenant: Seq<char>,
    a: Seq<char>,
    b: Seq<char>,
    version: Seq<char>,
)
    ensures
        text::begins(lifecycle::slot_name(tenant, a, version), tenant + "--"@ + a),
        text::finishes(lifecycle::slot_name(tenant, a, version), "--"@ + version),
        lifecycle::slot_name(tenant, a, version) == lifecycle::slot_name(tenant, b, version) <==> a
            == b,
{
    let x = lifecycle::slot_name(tenant, a, version);
    let y = lifecycle::slot_name(tenant, b, version);
    reveal_strlit("--");
    let head = tenant + "--"@ + a;
    let tail = "--"@ + version;
    assert(x.take(head.len() as int) =~= head);
    assert(x.skip(x.len() - tail.len()) =~= tail);
    if x == y {
        assert(a.len() == b.len());
        assert forall|i: int| 0 <= i < a.len() implies a[i] == b[i] by {
            assert(x[tenant.len() + 2 + i] == a[i]);
            assert(y[tenant.len() + 2 + i] == b[i]);
        }
        assert(a =~= b);
    }
}

/// A new archive is stored under its deployment's id, which is its checksum too, in the slot of its
/// own module version and with its own bytes.
pub proof fn a_new_archive_keeps_what_it_is(
    r: NewArchive,
    deployment_id: Seq<char>,
    tenant: Seq<char>,
    module: Seq<char>,
    version: Seq<char>,
    bytes: Seq<u8>,
)
    requires
        lifecycle::archived(r, deployment_id, tenant, module, version, bytes),
    ensures
        r.deployment_id@ == deployment_id && r.checksum@ == deployment_id,
        r.tenant@ == tenant && r.module@ == module && r.version@ == version,
        r.slot@ == r.tenant@ + "--"@ + r.module@ + "--"@ + r.version@,
        r.bytes@ == bytes,
{
}

/// A tick is silent exactly where nothing changed, nothing retired and nothing is pending.
pub proof fn a_tick_is_silent_where_nothing_happened(changed: bool, retired: nat, pending: bool)
    ensures
        !lifecycle::telling(changed, retired, pending) <==> !changed && retired == 0 && !pending,
{
}

} // verus!
