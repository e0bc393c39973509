//! The life of a deployment outside the directory: when it is quiescent, what a watch tick does, and
//! how the rows of the archive store are served.

use vstd::prelude::*;

use crate::assembly::{DeploymentPlan, PlanView};
use crate::deploy::{DeploymentDirectory, SeenArchive};
use crate::deploy;
use crate::duration::Duration;
use crate::text;

verus! {

// ---- quiescence --------------------------------------------------------------------------------

/// What is pinned to a draining deployment. A count is `None` where it could not be read.
pub struct Pinned {
    pub id: String,
    /// Whether the id is one that the store can hold rows of.
    pub storable: bool,
    pub instances: Option<i64>,
    pub outbox: Option<i64>,
    pub external_tasks: Option<i64>,
}

/// Whether nothing is pinned to a deployment: no active instance, no pending outbox row and no live
/// external task, each known for certain.
pub open spec fn quiescent(p: Pinned) -> bool {
    !p.storable || (p.instances == Some(0i64) && p.outbox == Some(0i64) && p.external_tasks == Some(
        0i64,
    ))
}

/// The quiescent deployments.
pub open spec fn quiescent_among(v: Seq<Pinned>) -> Seq<Seq<char>>
    decreases v.len(),
{
    if v.len() == 0 {
        Seq::empty()
    } else if quiescent(v.last()) {
        quiescent_among(v.drop_last()).push(v.last().id@)
    } else {
        quiescent_among(v.drop_last())
    }
}

/// A count that could not be read keeps a deployment from being retired.
pub proof fn unknown_counts_pin(p: Pinned)
    requires
        p.storable,
        p.instances is None || p.outbox is None || p.external_tasks is None,
    ensures
        !quiescent(p),
{
}

/// The draining deployments that can be retired. Without a store nothing is pinned, and all can.
pub fn quiescent_ids(draining: &Vec<String>, pinned: Option<&Vec<Pinned>>) -> (r: Vec<String>)
    ensures
        text::texts(r@) == match pinned {
            Some(v) => quiescent_among(v@),
            None => text::texts(draining@),
        },
{
    let v = match pinned {
        None => {
            return text::copy_texts(draining);
        },
        Some(v) => v,
    };
    let mut out: Vec<String> = Vec::new();
    let mut i: usize = 0;
    assert(text::texts(out@) =~= quiescent_among(v@.take(0)));
    while i < v.len()
        invariant
            i <= v.len(),
            text::texts(out@) == quiescent_among(v@.take(i as int)),
        decreases v.len() - i,
    {
        let p = &v[i];
        let ghost prior = text::texts(out@);
        assert(v@.take(i + 1).drop_last() =~= v@.take(i as int));
        assert(v@.take(i + 1).last() == *p);
        let idle = match (p.instances, p.outbox, p.external_tasks) {
            (Some(a), Some(b), Some(c)) => a == 0 && b == 0 && c == 0,
            _ => false,
        };
        if !p.storable || idle {
            out.push(p.id.clone());
            assert(text::texts(out@) =~= prior.push(p.id@));
        }
        i = i + 1;
    }
    assert(v@.take(v.len() as int) =~= v@);
    out
}

// ---- the watch loop ----------------------------------------------------------------------------

/// `d`, but at least `floor`.
pub open spec fn at_least(d: Duration, floor: Duration) -> Duration {
    if d.total() < floor.total() {
        floor
    } else {
        d
    }
}

/// How often the directory is looked at.
pub fn watch_interval(configured: Duration) -> (r: Duration)
    ensures
        r == at_least(configured, Duration::of_millis(100)),
{
    let floor = Duration::from_millis(100);
    if configured.shorter_than(&floor) {
        floor
    } else {
        configured
    }
}

/// How often the archive store is swept.
pub fn sweep_interval(configured: Duration) -> (r: Duration)
    ensures
        r == at_least(configured, Duration::of_secs(1)),
{
    let floor = Duration::from_secs(1);
    if configured.shorter_than(&floor) {
        floor
    } else {
        configured
    }
}

/// The first half of a tick: scan, and where the desired set is another, make it active. Whether it
/// was, and which deployments started to drain.
pub fn begin_tick(d: &mut DeploymentDirectory, seen: Vec<SeenArchive>) -> (r: (bool, Vec<String>))
    ensures
        ({
            let s = deploy::scanned(old(d)@, seen@);
            let changed = deploy::desired(s.files) != s.active;
            &&& r.0 == changed
            &&& final(d)@ == if changed {
                deploy::activated(s)
            } else {
                s
            }
            &&& text::texts(r.1@) == if changed {
                deploy::leaving(s)
            } else {
                Seq::empty()
            }
        }),
{
    if d.scan(seen) {
        let newly = d.activate_desired();
        (true, newly)
    } else {
        let none: Vec<String> = Vec::new();
        assert(text::texts(none@) =~= Seq::empty());
        (false, none)
    }
}

/// Whether a tick has anything to tell.
pub open spec fn telling(changed: bool, retired: nat, pending: bool) -> bool {
    changed || retired > 0 || pending
}

/// The second half of a tick: retire what is quiescent. Whether the engine has to be flipped, which
/// it also has where the last flip failed.
pub fn finish_tick(
    d: &mut DeploymentDirectory,
    retired: &Vec<String>,
    changed: bool,
    pending: bool,
) -> (r: bool)
    ensures
        final(d)@ == deploy::retired_state(old(d)@, text::texts(retired@)),
        r == (changed || retired@.len() > 0 || pending),
        r == telling(changed, retired@.len(), pending),
{
    let any = d.retire(retired);
    changed || any || pending
}

/// Whether a flip is still owed after one was tried: exactly where it failed.
pub fn still_pending(flipped: &Result<(), String>) -> (r: bool)
    ensures
        r == (*flipped is Err),
{
    flipped.is_err()
}

// ---- the archive store -------------------------------------------------------------------------

/// The slot of a module version.
pub open spec fn slot_name(tenant: Seq<char>, module: Seq<char>, version: Seq<char>) -> Seq<char> {
    tenant + "--"@ + module + "--"@ + version
}

/// The slot of an archive: `<tenant>--<module>--<version>`.
pub fn archive_slot(tenant: &str, module: &str, version: &str) -> (r: String)
    ensures
        r@ == tenant@ + "--"@ + module@ + "--"@ + version@,
        r@ == slot_name(tenant@, module@, version@),
{
    text::text5(tenant, "--", module, "--", version)
}

/// An archive on its way into the store.
#[derive(Debug, PartialEq, Eq)]
pub struct NewArchive {
    pub deployment_id: String,
    pub slot: String,
    pub tenant: String,
    pub module: String,
    pub version: String,
    /// What its contents are told apart by: the deployment id, which is made of them.
    pub checksum: String,
    pub bytes: Vec<u8>,
}

/// Whether this is the row of a new archive.
pub open spec fn archived(
    r: NewArchive,
    deployment_id: Seq<char>,
    tenant: Seq<char>,
    module: Seq<char>,
    version: Seq<char>,
    bytes: Seq<u8>,
) -> bool {
    &&& r.deployment_id@ == deployment_id
    &&& r.checksum@ == deployment_id
    &&& r.slot@ == slot_name(tenant, module, version)
    &&& r.tenant@ == tenant
    &&& r.module@ == module
    &&& r.version@ == version
    &&& r.bytes@ == bytes
}

/// What is stored of an archive. New contents of one tenant, module and version go to one slot.
pub fn new_archive(
    deployment_id: String,
    tenant: String,
    module: String,
    version: String,
    bytes: Vec<u8>,
) -> (r: NewArchive)
    ensures
        r.deployment_id@ == deployment_id@,
        r.slot@ == tenant@ + "--"@ + module@ + "--"@ + version@,
        r.tenant == tenant,
        r.module == module,
        r.version == version,
        r.checksum@ == deployment_id@,
        r.bytes == bytes,
        archived(r, deployment_id@, tenant@, module@, version@, bytes@),
{
    NewArchive {
        slot: archive_slot(&tenant, &module, &version),
        checksum: deployment_id.clone(),
        deployment_id,
        tenant,
        module,
        version,
        bytes,
    }
}

/// The states of a stored archive.
#[derive(Debug, Clone, Copy, PartialEq, Eq, Structural)]
pub enum ArchiveStatus {
    Validated,
    Active,
    Draining,
    Retired,
}

/// A stored archive.
pub struct StoredArchive {
    pub deployment_id: String,
    pub slot: String,
    pub bytes: Vec<u8>,
}

/// A row of the served listing.
pub struct ServedArchiveRow {
    pub status: ArchiveStatus,
    pub archive: StoredArchive,
}

/// The archives of a listing that drain, or those that do not, in the listing's order.
pub open spec fn served_part(rows: Seq<ServedArchiveRow>, draining: bool) -> Seq<StoredArchive>
    decreases rows.len(),
{
    if rows.len() == 0 {
        Seq::empty()
    } else {
        let rest = served_part(rows.drop_last(), draining);
        if (rows.last().status == ArchiveStatus::Draining) == draining {
            rest.push(rows.last().archive)
        } else {
            rest
        }
    }
}

/// Split a served listing into the active and the draining archives.
pub fn split_served_archives(served: Vec<ServedArchiveRow>) -> (r: (
    Vec<StoredArchive>,
    Vec<StoredArchive>,
))
    ensures
        r.0@ == served_part(served@, false),
        r.1@ == served_part(served@, true),
{
    let ghost all = served@;
    let mut rest = served;
    let mut active: Vec<StoredArchive> = Vec::new();
    let mut draining: Vec<StoredArchive> = Vec::new();
    let ghost mut n: int = 0;
    assert(all.take(0) =~= Seq::empty());
    while rest.len() > 0
        invariant
            0 <= n <= all.len(),
            rest@ == all.skip(n),
            active@ == served_part(all.take(n), false),
            draining@ == served_part(all.take(n), true),
        decreases rest.len(),
    {
        assert(rest@[0] == all[n]);
        let row = rest.remove(0);
        assert(all.take(n + 1).drop_last() =~= all.take(n));
        assert(all.take(n + 1).last() == row);
        match row.status {
            ArchiveStatus::Draining => {
                draining.push(row.archive);
            },
            _ => {
                active.push(row.archive);
            },
        }
        proof {
            assert(rest@ =~= all.skip(n + 1));
            n = n + 1;
        }
    }
    assert(all.take(n) =~= all);
    (active, draining)
}

/// The plans of the archives that could be prepared.
pub open spec fn prepared_plans(outcomes: Seq<Result<DeploymentPlan, String>>) -> Seq<PlanView>
    decreases outcomes.len(),
{
    if outcomes.len() == 0 {
        Seq::empty()
    } else {
        let rest = prepared_plans(outcomes.drop_last());
        match outcomes.last() {
            Ok(p) => rest.push(p@),
            Err(_) => rest,
        }
    }
}

/// What a row of plans holds.
pub open spec fn owned(v: Seq<DeploymentPlan>) -> Seq<PlanView> {
    v.map_values(|p: DeploymentPlan| p@)
}

/// Keep the plans of the stored archives that could be prepared; a bad row never stops the others.
pub fn plans_from_store(outcomes: Vec<Result<DeploymentPlan, String>>) -> (r: Vec<DeploymentPlan>)
    ensures
        owned(r@) == prepared_plans(outcomes@),
{
    let ghost all = outcomes@;
    let mut rest = outcomes;
    let mut out: Vec<DeploymentPlan> = Vec::new();
    let ghost mut n: int = 0;
    assert(owned(out@) =~= prepared_plans(all.take(0)));
    while rest.len() > 0
        invariant
            0 <= n <= all.len(),
            rest@ == all.skip(n),
            owned(out@) == prepared_plans(all.take(n)),
        decreases rest.len(),
    {
        let ghost prior = owned(out@);
        assert(rest@[0] == all[n]);
        let outcome = rest.remove(0);
        assert(all.take(n + 1).drop_last() =~= all.take(n));
        assert(all.take(n + 1).last() == outcome);
        match outcome {
            Ok(p) => {
                let ghost v = p@;
                out.push(p);
                assert(owned(out@) =~= prior.push(v));
            },
            Err(_) => {},
        }
        proof {
            assert(rest@ =~= all.skip(n + 1));
            n = n + 1;
        }
    }
    assert(all.take(n) =~= all);
    out
}

/// How many rows a sweep retired.
pub open spec fn retired_rows(outcomes: Seq<Result<bool, String>>) -> nat
    decreases outcomes.len(),
{
    if outcomes.len() == 0 {
        0
    } else {
        retired_rows(outcomes.drop_last()) + if outcomes.last() == Ok::<bool, String>(true) {
            1nat
        } else {
            0nat
        }
    }
}

/// The deployments of drained rows that a sweep looks at: those whose id is one.
pub open spec fn sweepable(rows: Seq<(Seq<char>, bool)>) -> Seq<Seq<char>>
    decreases rows.len(),
{
    if rows.len() == 0 {
        Seq::empty()
    } else {
        let rest = sweepable(rows.drop_last());
        if rows.last().1 {
            rest.push(rows.last().0)
        } else {
            rest
        }
    }
}

/// The deployments of drained rows that a sweep looks at. Each row comes with whether its id is one.
pub fn sweep_candidates(rows: &Vec<(String, bool)>) -> (r: Vec<String>)
    ensures
        text::texts(r@) == sweepable(rows@.map_values(|p: (String, bool)| (p.0@, p.1))),
{
    let ghost all = rows@.map_values(|p: (String, bool)| (p.0@, p.1));
    let mut out: Vec<String> = Vec::new();
    let mut i: usize = 0;
    assert(text::texts(out@) =~= sweepable(all.take(0)));
    while i < rows.len()
        invariant
            i <= rows.len(),
            all == rows@.map_values(|p: (String, bool)| (p.0@, p.1)),
            text::texts(out@) == sweepable(all.take(i as int)),
        decreases rows.len() - i,
    {
        let ghost prior = out@;
        assert(all.take(i + 1).drop_last() =~= all.take(i as int));
        assert(all.take(i + 1).last() == all[i as int]);
        if rows[i].1 {
            out.push(rows[i].0.clone());
            assert(text::texts(out@) =~= text::texts(prior).push(all[i as int].0));
        }
        i = i + 1;
    }
    assert(all.take(rows.len() as int) =~= all);
    out
}

/// Whether the engine is flipped again after rows of the store were retired: where any was.
pub fn must_reactivate(retired: usize) -> (r: bool)
    ensures
        r == (retired > 0),
{
    retired > 0
}

/// Count the rows that a sweep retired, from what retiring each answered. A row that another
/// replica moved on, or whose retirement failed, does not count. The engine is flipped again where
/// any did.
pub fn count_retired(outcomes: &Vec<Result<bool, String>>) -> (r: usize)
    ensures
        r == retired_rows(outcomes@),
{
    let mut n: usize = 0;
    let mut i: usize = 0;
    assert(outcomes@.take(0) =~= Seq::empty());
    while i < outcomes.len()
        invariant
            i <= outcomes.len(),
            n <= i,
            n == retired_rows(outcomes@.take(i as int)),
        decreases outcomes.len() - i,
    {
        assert(outcomes@.take(i + 1).drop_last() =~= outcomes@.take(i as int));
        assert(outcomes@.take(i + 1).last() == outcomes@[i as int]);
        match &outcomes[i] {
            Ok(done) => {
                if *done {
                    n = n + 1;
                }
            },
            Err(_) => {},
        }
        i = i + 1;
    }
    assert(outcomes@.take(outcomes.len() as int) =~= outcomes@);
    n
}

} // verus!
