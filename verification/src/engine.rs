//! What an engine is assembled from: the bindings a lane serves, where coverage goes, which audit
//! sinks are on, and what runs only with persistence.

use vstd::prelude::*;

use crate::assembly::{DeploymentPlan, PlanView};
use crate::bridge::{BridgeView, PersistenceBridge};
use crate::bridge;
use crate::config::{AuditConfig, AuditView, EngineConfig};
use crate::graph::{ProcessDefinition, ProcessModule};
use crate::keyed::{TextMap, TextSet};
use crate::lanes::DataStores;
use crate::lanes;
use crate::metrics::{CoverageMeta, CoverageMetaView};
use crate::registries;
use crate::sources;
use crate::text;
use crate::transports::{ChannelDefinition, ChannelView};
use crate::transports;

verus! {

// ---- bindings ----------------------------------------------------------------------------------

/// The key under which a channel is bound.
pub open spec fn binding_key(def: ChannelView) -> (Seq<char>, Seq<char>) {
    (def.namespace.module_key(), def.channel_name)
}

/// The keys that the channels of a row of plans claim.
pub open spec fn claims(v: Seq<PlanView>) -> Seq<(Seq<char>, Seq<char>)>
    decreases v.len(),
{
    if v.len() == 0 {
        Seq::empty()
    } else {
        claims(v.drop_last()) + v.last().definitions.map_values(|d: ChannelView| binding_key(d))
    }
}

/// The channels whose keys are not claimed yet, and the claims once they are bound. The first
/// channel under a key is the one that is bound.
pub open spec fn residual(defs: Seq<ChannelView>, claimed: Seq<(Seq<char>, Seq<char>)>) -> (
    Seq<ChannelView>,
    Seq<(Seq<char>, Seq<char>)>,
)
    decreases defs.len(),
{
    if defs.len() == 0 {
        (Seq::empty(), claimed)
    } else {
        let rest = residual(defs.drop_last(), claimed);
        let key = binding_key(defs.last());
        if rest.1.contains(key) {
            rest
        } else {
            (rest.0.push(defs.last()), rest.1.push(key))
        }
    }
}

/// The channels that each draining plan binds, the most recently drained first, and the claims then.
pub open spec fn residuals(draining: Seq<PlanView>, claimed: Seq<(Seq<char>, Seq<char>)>) -> (
    Seq<Seq<ChannelView>>,
    Seq<(Seq<char>, Seq<char>)>,
)
    decreases draining.len(),
{
    if draining.len() == 0 {
        (Seq::empty(), claimed)
    } else {
        let rest = residuals(draining.drop_last(), claimed);
        let own = residual(draining.last().definitions, rest.1);
        (rest.0.push(own.0), own.1)
    }
}

/// A draining deployment binds no key that is claimed already, and no key twice.
pub proof fn residual_keys_are_free(
    defs: Seq<ChannelView>,
    claimed: Seq<(Seq<char>, Seq<char>)>,
)
    ensures
        forall|i: int| 0 <= i < residual(defs, claimed).0.len() ==> !claimed.contains(
            binding_key(#[trigger] residual(defs, claimed).0[i]),
        ),
        forall|i: int| 0 <= i < residual(defs, claimed).0.len() ==> residual(defs, claimed).1.contains(
            binding_key(#[trigger] residual(defs, claimed).0[i]),
        ),
        forall|i: int, j: int|
            0 <= i < j < residual(defs, claimed).0.len() ==> binding_key(
                #[trigger] residual(defs, claimed).0[i],
            ) != binding_key(#[trigger] residual(defs, claimed).0[j]),
        forall|k: (Seq<char>, Seq<char>)| claimed.contains(k) ==> #[trigger] residual(
            defs,
            claimed,
        ).1.contains(k),
    decreases defs.len(),
{
    if defs.len() > 0 {
        let before = residual(defs.drop_last(), claimed);
        let now = residual(defs, claimed);
        residual_keys_are_free(defs.drop_last(), claimed);
        let key = binding_key(defs.last());
        if !before.1.contains(key) {
            assert forall|k: (Seq<char>, Seq<char>)| before.1.contains(k) implies now.1.contains(
                k,
            ) by {
                let i = choose|i: int| 0 <= i < before.1.len() && before.1[i] == k;
                assert(now.1[i] == k);
            }
            assert(now.1[before.1.len() as int] == key);
            assert forall|i: int| 0 <= i < now.0.len() implies !claimed.contains(
                binding_key(#[trigger] now.0[i]),
            ) && now.1.contains(binding_key(now.0[i])) by {
                if i < before.0.len() {
                    assert(now.0[i] == before.0[i]);
                }
            }
            assert forall|i: int, j: int| 0 <= i < j < now.0.len() implies binding_key(
                #[trigger] now.0[i],
            ) != binding_key(#[trigger] now.0[j]) by {
                assert(now.0[i] == before.0[i]);
                if j < before.0.len() {
                    assert(now.0[j] == before.0[j]);
                }
            }
        }
    }
}

/// New intake flows to the active deployments: no draining deployment binds a key that an active one
/// claims.
pub proof fn draining_never_shadows_active(
    draining: Seq<PlanView>,
    claimed: Seq<(Seq<char>, Seq<char>)>,
    at: int,
)
    requires
        0 <= at < draining.len(),
    ensures
        residuals(draining, claimed).0.len() == draining.len(),
        forall|i: int|
            0 <= i < residuals(draining, claimed).0[at].len() ==> !claimed.contains(
                binding_key(#[trigger] residuals(draining, claimed).0[at][i]),
            ),
    decreases draining.len(),
{
    let rest = residuals(draining.drop_last(), claimed);
    claims_only_grow(draining.drop_last(), claimed);
    residual_keys_are_free(draining.last().definitions, rest.1);
    if at < draining.len() - 1 {
        draining_never_shadows_active(draining.drop_last(), claimed, at);
        assert(residuals(draining, claimed).0[at] == rest.0[at]);
    } else {
        let own = residual(draining.last().definitions, rest.1).0;
        assert(residuals(draining, claimed).0[at] == own);
        assert forall|i: int| 0 <= i < own.len() implies !claimed.contains(
            binding_key(#[trigger] own[i]),
        ) by {
            assert(!rest.1.contains(binding_key(own[i])));
        }
    }
}

proof fn claims_only_grow(draining: Seq<PlanView>, claimed: Seq<(Seq<char>, Seq<char>)>)
    ensures
        residuals(draining, claimed).0.len() == draining.len(),
        forall|k: (Seq<char>, Seq<char>)| claimed.contains(k) ==> #[trigger] residuals(
            draining,
            claimed,
        ).1.contains(k),
    decreases draining.len(),
{
    if draining.len() > 0 {
        claims_only_grow(draining.drop_last(), claimed);
        residual_keys_are_free(
            draining.last().definitions,
            residuals(draining.drop_last(), claimed).1,
        );
    }
}

/// What a row of borrowed channels holds.
pub open spec fn borrowed(v: Seq<&ChannelDefinition>) -> Seq<ChannelView> {
    v.map_values(|d: &ChannelDefinition| (*d)@)
}

fn has_key(claimed: &Vec<(String, String)>, module: &str, channel: &str) -> (r: bool)
    ensures
        r == text::pairs(claimed@).contains((module@, channel@)),
{
    let mut i: usize = 0;
    while i < claimed.len()
        invariant
            i <= claimed.len(),
            forall|k: int| 0 <= k < i ==> text::pairs(claimed@)[k] != (module@, channel@),
        decreases claimed.len() - i,
    {
        if text::same(&claimed[i].0, module) && text::same(&claimed[i].1, channel) {
            assert(text::pairs(claimed@)[i as int] == (module@, channel@));
            return true;
        }
        assert(text::pairs(claimed@)[i as int] != (module@, channel@));
        i = i + 1;
    }
    false
}

fn active_claims(active: &Vec<&DeploymentPlan>) -> (r: Vec<(String, String)>)
    ensures
        text::pairs(r@) == claims(registries::plans(active@)),
{
    let ghost all = registries::plans(active@);
    let mut out: Vec<(String, String)> = Vec::new();
    let mut i: usize = 0;
    assert(text::pairs(out@) =~= claims(all.take(0)));
    while i < active.len()
        invariant
            i <= active.len(),
            all == registries::plans(active@),
            text::pairs(out@) == claims(all.take(i as int)),
        decreases active.len() - i,
    {
        let plan: &DeploymentPlan = active[i];
        let ghost own = plan@.definitions.map_values(|d: ChannelView| binding_key(d));
        let ghost start = text::pairs(out@);
        assert(all.take(i + 1).drop_last() =~= all.take(i as int));
        assert(all.take(i + 1).last() == plan@);
        let mut j: usize = 0;
        assert(start + own.take(0) =~= start);
        while j < plan.definitions.len()
            invariant
                j <= plan.definitions.len(),
                own == plan@.definitions.map_values(|d: ChannelView| binding_key(d)),
                text::pairs(out@) == start + own.take(j as int),
            decreases plan.definitions.len() - j,
        {
            let def = &plan.definitions[j];
            let ghost prior = text::pairs(out@);
            let module = def.namespace.module_key();
            let ghost k = (module@, def.channel_name@);
            out.push((module, def.channel_name.clone()));
            assert(text::pairs(out@) =~= prior.push(k));
            assert(own[j as int] == k);
            assert(start + own.take(j + 1) =~= (start + own.take(j as int)).push(k));
            j = j + 1;
        }
        assert(own.take(plan.definitions.len() as int) =~= own);
        i = i + 1;
    }
    assert(all.take(active.len() as int) =~= all);
    out
}

fn bind_residual<'a>(
    definitions: &'a Vec<ChannelDefinition>,
    claimed: &mut Vec<(String, String)>,
) -> (r: Vec<&'a ChannelDefinition>)
    ensures
        (borrowed(r@), text::pairs(final(claimed)@)) == residual(
            transports::channels(definitions@),
            text::pairs(old(claimed)@),
        ),
{
    let ghost all = transports::channels(definitions@);
    let ghost start = text::pairs(claimed@);
    let mut out: Vec<&'a ChannelDefinition> = Vec::new();
    let mut i: usize = 0;
    assert(borrowed(out@) =~= Seq::empty());
    while i < definitions.len()
        invariant
            i <= definitions.len(),
            all == transports::channels(definitions@),
            (borrowed(out@), text::pairs(claimed@)) == residual(all.take(i as int), start),
        decreases definitions.len() - i,
    {
        let def = &definitions[i];
        assert(all.take(i + 1).drop_last() =~= all.take(i as int));
        assert(all.take(i + 1).last() == def@);
        let module = def.namespace.module_key();
        if !has_key(claimed, &module, &def.channel_name) {
            let ghost kept = borrowed(out@);
            let ghost had = text::pairs(claimed@);
            let ghost k = (module@, def.channel_name@);
            out.push(def);
            claimed.push((module, def.channel_name.clone()));
            assert(borrowed(out@) =~= kept.push(def@));
            assert(text::pairs(claimed@) =~= had.push(k));
        }
        i = i + 1;
    }
    assert(all.take(definitions.len() as int) =~= all);
    out
}

/// What rows of borrowed channels hold.
pub open spec fn rows(v: Seq<Vec<&ChannelDefinition>>) -> Seq<Seq<ChannelView>> {
    v.map_values(|r: Vec<&ChannelDefinition>| borrowed(r@))
}

/// The channels that each draining plan still binds beside the active ones.
pub fn residual_bindings<'a>(
    active: &Vec<&DeploymentPlan>,
    draining: &Vec<&'a DeploymentPlan>,
) -> (r: Vec<Vec<&'a ChannelDefinition>>)
    ensures
        rows(r@) == residuals(
            registries::plans(draining@),
            claims(registries::plans(active@)),
        ).0,
{
    let ghost all = registries::plans(draining@);
    let mut claimed = active_claims(active);
    let ghost start = text::pairs(claimed@);
    let mut out: Vec<Vec<&'a ChannelDefinition>> = Vec::new();
    let mut i: usize = 0;
    assert(rows(out@) =~= Seq::empty());
    while i < draining.len()
        invariant
            i <= draining.len(),
            all == registries::plans(draining@),
            (rows(out@), text::pairs(claimed@)) == residuals(all.take(i as int), start),
        decreases draining.len() - i,
    {
        let plan: &'a DeploymentPlan = draining[i];
        let ghost prior = rows(out@);
        assert(all.take(i + 1).drop_last() =~= all.take(i as int));
        assert(all.take(i + 1).last() == plan@);
        let own = bind_residual(&plan.definitions, &mut claimed);
        let ghost o = borrowed(own@);
        out.push(own);
        assert(rows(out@) =~= prior.push(o));
        i = i + 1;
    }
    assert(all.take(draining.len() as int) =~= all);
    out
}

// ---- coverage ----------------------------------------------------------------------------------

/// Where a deployment's coverage marks go.
pub enum CoverageRoute {
    /// To its declared store.
    Store,
    /// Nowhere: its declared store is at fault.
    Fault(String),
}

/// The contents of a [`CoverageRoute`].
pub enum RouteView {
    Store,
    Fault(Seq<char>),
}

impl View for CoverageRoute {
    type V = RouteView;

    open spec fn view(&self) -> RouteView {
        match self {
            CoverageRoute::Store => RouteView::Store,
            CoverageRoute::Fault(e) => RouteView::Fault(e@),
        }
    }
}

/// Where the coverage marks of a row of plans go; a plan without a declared store has no route.
pub open spec fn routes(v: Seq<PlanView>) -> Seq<(Seq<char>, RouteView)>
    decreases v.len(),
{
    if v.len() == 0 {
        Seq::empty()
    } else {
        let rest = routes(v.drop_last());
        let p = v.last();
        if p.coverage {
            rest.push((p.dep, RouteView::Store))
        } else {
            match p.coverage_fault {
                Some(e) => rest.push((p.dep, RouteView::Fault(e))),
                None => rest,
            }
        }
    }
}

/// Whether a process of these modules declares coverage paths.
pub open spec fn declares_paths(modules: Seq<ProcessModule>) -> bool {
    exists|i: int, j: int|
        0 <= i < modules.len() && 0 <= j < modules[i].processes@.len()
            && (#[trigger] modules[i].processes@[j]).coverage_paths@.len() > 0
}

/// The deployments whose coverage paths are recorded nowhere: they declare paths and no store.
pub open spec fn unrecorded(v: Seq<PlanView>) -> Seq<Seq<char>>
    decreases v.len(),
{
    if v.len() == 0 {
        Seq::empty()
    } else {
        let rest = unrecorded(v.drop_last());
        let p = v.last();
        if declares_paths(p.modules) && !p.coverage && p.coverage_fault is None {
            rest.push(p.dep)
        } else {
            rest
        }
    }
}

/// The coverage metadata of the processes that declare paths.
pub open spec fn process_metas(p: PlanView, processes: Seq<ProcessDefinition>) -> Seq<
    CoverageMetaView,
>
    decreases processes.len(),
{
    if processes.len() == 0 {
        Seq::empty()
    } else {
        let rest = process_metas(p, processes.drop_last());
        let last = processes.last();
        if last.coverage_paths@.len() == 0 {
            rest
        } else {
            let ns = if p.definitions.len() > 0 {
                Some(p.definitions[0].namespace)
            } else {
                None
            };
            rest.push(
                CoverageMetaView {
                    deployment_id: p.dep,
                    process_id: last.id@,
                    declared_paths: text::texts(last.coverage_paths@),
                    tenant: match ns {
                        Some(n) => Some(n.tenant),
                        None => None,
                    },
                    module: match ns {
                        Some(n) => Some(n.module),
                        None => None,
                    },
                    version: match ns {
                        Some(n) => Some(n.version),
                        None => None,
                    },
                },
            )
        }
    }
}

/// The coverage metadata of the processes of these modules.
pub open spec fn module_metas(p: PlanView, modules: Seq<ProcessModule>) -> Seq<CoverageMetaView>
    decreases modules.len(),
{
    if modules.len() == 0 {
        Seq::empty()
    } else {
        module_metas(p, modules.drop_last()) + process_metas(p, modules.last().processes@)
    }
}

/// The coverage metadata of a row of plans. Only a deployment that has a coverage store counts: a
/// gauge with nowhere to read from would publish a coverage that was never measured.
pub open spec fn coverage_metas(v: Seq<PlanView>) -> Seq<CoverageMetaView>
    decreases v.len(),
{
    if v.len() == 0 {
        Seq::empty()
    } else {
        let rest = coverage_metas(v.drop_last());
        if v.last().coverage {
            rest + module_metas(v.last(), v.last().modules)
        } else {
            rest
        }
    }
}

/// What a row of metadata holds.
pub open spec fn metas(v: Seq<CoverageMeta>) -> Seq<CoverageMetaView> {
    v.map_values(|m: CoverageMeta| m@)
}

fn push_process_metas(
    out: &mut Vec<CoverageMeta>,
    plan: &DeploymentPlan,
    processes: &Vec<ProcessDefinition>,
)
    ensures
        metas(final(out)@) == metas(old(out)@) + process_metas(plan@, processes@),
{
    let ghost start = metas(out@);
    let mut i: usize = 0;
    assert(start + process_metas(plan@, processes@.take(0)) =~= start);
    while i < processes.len()
        invariant
            i <= processes.len(),
            metas(out@) == start + process_metas(plan@, processes@.take(i as int)),
        decreases processes.len() - i,
    {
        let p = &processes[i];
        let ghost rest = process_metas(plan@, processes@.take(i as int));
        let ghost prior = metas(out@);
        assert(processes@.take(i + 1).drop_last() =~= processes@.take(i as int));
        assert(processes@.take(i + 1).last() == *p);
        if p.coverage_paths.len() > 0 {
            let ns = if plan.definitions.len() > 0 {
                Some(&plan.definitions[0].namespace)
            } else {
                None
            };
            let m = CoverageMeta {
                deployment_id: plan.dep.clone(),
                process_id: p.id.clone(),
                declared_paths: text::copy_texts(&p.coverage_paths),
                tenant: match ns {
                    Some(n) => Some(n.tenant.clone()),
                    None => None,
                },
                module: match ns {
                    Some(n) => Some(n.module.clone()),
                    None => None,
                },
                version: match ns {
                    Some(n) => Some(n.version.clone()),
                    None => None,
                },
            };
            let ghost v = m@;
            out.push(m);
            assert(metas(out@) =~= prior.push(v));
            assert((start + rest).push(v) =~= start + rest.push(v));
        }
        i = i + 1;
    }
    assert(processes@.take(processes.len() as int) =~= processes@);
}

fn push_plan_metas(out: &mut Vec<CoverageMeta>, plan: &DeploymentPlan)
    ensures
        metas(final(out)@) == metas(old(out)@) + module_metas(plan@, plan.modules@),
{
    let ghost start = metas(out@);
    let mut i: usize = 0;
    assert(start + module_metas(plan@, plan.modules@.take(0)) =~= start);
    while i < plan.modules.len()
        invariant
            i <= plan.modules.len(),
            metas(out@) == start + module_metas(plan@, plan.modules@.take(i as int)),
        decreases plan.modules.len() - i,
    {
        let ghost rest = module_metas(plan@, plan.modules@.take(i as int));
        assert(plan.modules@.take(i + 1).drop_last() =~= plan.modules@.take(i as int));
        push_process_metas(out, plan, &plan.modules[i].processes);
        assert(start + rest + process_metas(plan@, plan.modules@[i as int].processes@) =~= start
            + (rest + process_metas(plan@, plan.modules@[i as int].processes@)));
        i = i + 1;
    }
    assert(plan.modules@.take(plan.modules.len() as int) =~= plan.modules@);
}

fn has_paths(modules: &Vec<ProcessModule>) -> (r: bool)
    ensures
        r == declares_paths(modules@),
{
    let mut i: usize = 0;
    while i < modules.len()
        invariant
            i <= modules.len(),
            forall|a: int, b: int|
                0 <= a < i && 0 <= b < modules@[a].processes@.len() ==> (
                #[trigger] modules@[a].processes@[b]).coverage_paths@.len() == 0,
        decreases modules.len() - i,
    {
        let mut j: usize = 0;
        while j < modules[i as usize].processes.len()
            invariant
                i < modules.len(),
                j <= modules@[i as int].processes@.len(),
                forall|b: int|
                    0 <= b < j ==> (#[trigger] modules@[i as int].processes@[b]).coverage_paths@.len()
                        == 0,
            decreases modules@[i as int].processes@.len() - j,
        {
            if modules[i].processes[j].coverage_paths.len() > 0 {
                assert(modules@[i as int].processes@[j as int].coverage_paths@.len() > 0);
                return true;
            }
            j = j + 1;
        }
        i = i + 1;
    }
    false
}

/// What a row of coverage routes holds.
pub open spec fn routed(v: Seq<(String, CoverageRoute)>) -> Seq<(Seq<char>, RouteView)> {
    v.map_values(|r: (String, CoverageRoute)| (r.0@, r.1@))
}

/// What is known of coverage in an activation.
pub struct CoverageWiring {
    pub routes: Vec<(String, CoverageRoute)>,
    pub unrecorded: Vec<String>,
    pub metas: Vec<CoverageMeta>,
}

fn add_coverage(w: &mut CoverageWiring, plan: &DeploymentPlan, Ghost(before): Ghost<Seq<PlanView>>)
    requires
        routed(old(w).routes@) == routes(before),
        text::texts(old(w).unrecorded@) == unrecorded(before),
        metas(old(w).metas@) == coverage_metas(before),
    ensures
        routed(final(w).routes@) == routes(before.push(plan@)),
        text::texts(final(w).unrecorded@) == unrecorded(before.push(plan@)),
        metas(final(w).metas@) == coverage_metas(before.push(plan@)),
{
    let ghost now = before.push(plan@);
    assert(now.drop_last() =~= before);
    assert(now.last() == plan@);
    if plan.coverage {
        w.routes.push((plan.dep.clone(), CoverageRoute::Store));
        assert(routed(w.routes@) =~= routes(before).push((plan@.dep, RouteView::Store)));
        push_plan_metas(&mut w.metas, plan);
    } else {
        match &plan.coverage_fault {
            Some(e) => {
                w.routes.push((plan.dep.clone(), CoverageRoute::Fault(e.clone())));
                assert(routed(w.routes@) =~= routes(before).push((plan@.dep, RouteView::Fault(e@))));
            },
            None => {
                if has_paths(&plan.modules) {
                    w.unrecorded.push(plan.dep.clone());
                    assert(text::texts(w.unrecorded@) =~= unrecorded(before).push(plan@.dep));
                }
            },
        }
    }
}

/// Where the coverage of an activation goes, whose is recorded nowhere, and the metadata of the
/// gauge.
pub fn wire_coverage(active: &Vec<&DeploymentPlan>, draining: &Vec<&DeploymentPlan>) -> (r:
    CoverageWiring)
    ensures
        ({
            let all = registries::plans(active@) + registries::plans(draining@);
            routed(r.routes@) == routes(all) && text::texts(r.unrecorded@) == unrecorded(all)
                && metas(r.metas@) == coverage_metas(all)
        }),
{
    let ghost a = registries::plans(active@);
    let ghost d = registries::plans(draining@);
    let ghost all = a + d;
    let mut w = CoverageWiring {
        routes: Vec::new(),
        unrecorded: Vec::new(),
        metas: Vec::new(),
    };
    assert(routed(w.routes@) =~= Seq::empty());
    assert(text::texts(w.unrecorded@) =~= Seq::empty());
    assert(metas(w.metas@) =~= Seq::empty());
    let mut i: usize = 0;
    while i < active.len()
        invariant
            i <= active.len(),
            a == registries::plans(active@),
            all == a + d,
            routed(w.routes@) == routes(all.take(i as int)),
            text::texts(w.unrecorded@) == unrecorded(all.take(i as int)),
            metas(w.metas@) == coverage_metas(all.take(i as int)),
        decreases active.len() - i,
    {
        let ghost before = all.take(i as int);
        let plan: &DeploymentPlan = active[i];
        assert(before.push(plan@) =~= all.take(i + 1)) by {
            assert(all[i as int] == plan@);
        }
        add_coverage(&mut w, plan, Ghost(before));
        i = i + 1;
    }
    let mut j: usize = 0;
    while j < draining.len()
        invariant
            j <= draining.len(),
            a == registries::plans(active@),
            d == registries::plans(draining@),
            all == a + d,
            routed(w.routes@) == routes(all.take(active.len() + j)),
            text::texts(w.unrecorded@) == unrecorded(all.take(active.len() + j)),
            metas(w.metas@) == coverage_metas(all.take(active.len() + j)),
        decreases draining.len() - j,
    {
        let ghost before = all.take(active.len() + j);
        let plan: &DeploymentPlan = draining[j];
        assert(before.push(plan@) =~= all.take(active.len() + j + 1)) by {
            assert(all[active.len() + j] == plan@);
        }
        add_coverage(&mut w, plan, Ghost(before));
        j = j + 1;
    }
    assert(all.take(active.len() + draining.len()) =~= all);
    w
}

// ---- seeding coverage --------------------------------------------------------------------------

/// The coverage paths of one process.
pub struct ProcessPaths {
    pub process_id: String,
    pub paths: Vec<String>,
}

/// The contents of [`ProcessPaths`].
pub struct ProcessPathsView {
    pub process_id: Seq<char>,
    pub paths: Seq<Seq<char>>,
}

impl View for ProcessPaths {
    type V = ProcessPathsView;

    open spec fn view(&self) -> ProcessPathsView {
        ProcessPathsView { process_id: self.process_id@, paths: text::texts(self.paths@) }
    }
}

/// The paths of the processes that declare any.
pub open spec fn declaring(processes: Seq<ProcessDefinition>) -> Seq<ProcessPathsView>
    decreases processes.len(),
{
    if processes.len() == 0 {
        Seq::empty()
    } else {
        let rest = declaring(processes.drop_last());
        let last = processes.last();
        if last.coverage_paths@.len() == 0 {
            rest
        } else {
            rest.push(
                ProcessPathsView {
                    process_id: last.id@,
                    paths: text::texts(last.coverage_paths@),
                },
            )
        }
    }
}

/// The paths of the processes of these modules that declare any.
pub open spec fn declared_by(modules: Seq<ProcessModule>) -> Seq<ProcessPathsView>
    decreases modules.len(),
{
    if modules.len() == 0 {
        Seq::empty()
    } else {
        declared_by(modules.drop_last()) + declaring(modules.last().processes@)
    }
}

/// What a row of process paths holds.
pub open spec fn process_paths(v: Seq<ProcessPaths>) -> Seq<ProcessPathsView> {
    v.map_values(|p: ProcessPaths| p@)
}

/// The coverage paths that a deployment seeds at activation and reads back, process by process;
/// none where it has no coverage store.
pub fn coverage_seed(plan: &DeploymentPlan) -> (r: Vec<ProcessPaths>)
    ensures
        process_paths(r@) == if plan.coverage {
            declared_by(plan.modules@)
        } else {
            Seq::empty()
        },
{
    let mut out: Vec<ProcessPaths> = Vec::new();
    assert(process_paths(out@) =~= Seq::empty());
    if !plan.coverage {
        return out;
    }
    let mut i: usize = 0;
    while i < plan.modules.len()
        invariant
            i <= plan.modules.len(),
            process_paths(out@) == declared_by(plan.modules@.take(i as int)),
        decreases plan.modules.len() - i,
    {
        let processes = &plan.modules[i].processes;
        let ghost start = process_paths(out@);
        assert(plan.modules@.take(i + 1).drop_last() =~= plan.modules@.take(i as int));
        let mut j: usize = 0;
        assert(start + declaring(processes@.take(0)) =~= start);
        while j < processes.len()
            invariant
                j <= processes.len(),
                process_paths(out@) == start + declaring(processes@.take(j as int)),
            decreases processes.len() - j,
        {
            let p = &processes[j];
            let ghost rest = declaring(processes@.take(j as int));
            let ghost prior = process_paths(out@);
            assert(processes@.take(j + 1).drop_last() =~= processes@.take(j as int));
            assert(processes@.take(j + 1).last() == *p);
            if p.coverage_paths.len() > 0 {
                let e = ProcessPaths {
                    process_id: p.id.clone(),
                    paths: text::copy_texts(&p.coverage_paths),
                };
                let ghost v = e@;
                out.push(e);
                assert(process_paths(out@) =~= prior.push(v));
                assert((start + rest).push(v) =~= start + rest.push(v));
            }
            j = j + 1;
        }
        assert(processes@.take(processes.len() as int) =~= processes@);
        i = i + 1;
    }
    assert(plan.modules@.take(plan.modules.len() as int) =~= plan.modules@);
    out
}

// ---- the audit trail ---------------------------------------------------------------------------

/// Which audit sinks are registered.
#[derive(Debug, Clone, Copy, PartialEq, Eq, Structural)]
pub struct AuditWiring {
    pub jsonl: bool,
    pub otel: bool,
    pub sql: bool,
}

/// The audit sinks that a configuration registers: the file sink where its file could be opened,
/// the log sink where its pipeline was built, the table sink where there is a database.
pub open spec fn audit_sinks(
    cfg: AuditView,
    jsonl_opened: bool,
    otel_ready: bool,
    pool: bool,
) -> AuditWiring {
    AuditWiring {
        jsonl: cfg.jsonl_path is Some && jsonl_opened,
        otel: cfg.otel_endpoint is Some && otel_ready,
        sql: cfg.sql && pool,
    }
}

/// Decide which audit sinks to register.
pub fn wire_audit(cfg: &AuditConfig, jsonl_opened: bool, otel_ready: bool, pool: bool) -> (r:
    AuditWiring)
    ensures
        r == audit_sinks(cfg@, jsonl_opened, otel_ready, pool),
{
    AuditWiring {
        jsonl: cfg.jsonl_path.is_some() && jsonl_opened,
        otel: cfg.otel_endpoint.is_some() && otel_ready,
        sql: cfg.sql && pool,
    }
}

impl AuditWiring {
    /// The sink of a process that names none: the table, which is the audit of record, before the
    /// file before the log.
    pub open spec fn default_of(self) -> Option<Seq<char>> {
        if self.sql {
            Some("sql"@)
        } else if self.jsonl {
            Some("jsonl"@)
        } else if self.otel {
            Some("otel"@)
        } else {
            None
        }
    }

    /// The name of the default sink, where any is registered.
    pub fn default_sink(&self) -> (r: Option<&'static str>)
        ensures
            match r {
                Some(n) => self.default_of() == Some(n@),
                None => self.default_of() is None,
            },
    {
        if self.sql {
            Some("sql")
        } else if self.jsonl {
            Some("jsonl")
        } else if self.otel {
            Some("otel")
        } else {
            None
        }
    }
}

// ---- the engine --------------------------------------------------------------------------------

/// What surrounds an engine build.
#[derive(Debug, Clone, Copy, PartialEq, Eq, Structural)]
pub struct EngineFacts {
    /// Whether there is a database.
    pub pool: bool,
    /// Whether there is a source of encryption keys.
    pub encrypting: bool,
    /// Whether the audit file could be opened.
    pub jsonl_opened: bool,
    /// Whether the audit pipeline was built.
    pub otel_ready: bool,
    /// The lane.
    pub shard: u32,
}

/// What one lane's engine is assembled from.
pub struct EngineWiring<'a> {
    /// The deployments whose pinned instances resume.
    pub prior_deployments: Vec<String>,
    /// The channels of the active deployments.
    pub bindings: Vec<&'a ChannelDefinition>,
    /// The channels that each draining deployment binds beside them.
    pub residual: Vec<Vec<&'a ChannelDefinition>>,
    /// The redactors of the archives, by name.
    pub redactors: TextMap<String>,
    /// The data stores, by deployment and name.
    pub stores: DataStores<'a>,
    pub coverage: CoverageWiring,
    pub audit: AuditWiring,
    /// The cap on inbound payloads, over which a channel's own goes.
    pub payload_cap: Option<u64>,
    /// The instant that due times are computed from in place of the clock's.
    pub now_override: Option<i128>,
    /// Whether the gauges, the inbox and the instances are kept in the database.
    pub persisted: bool,
    /// What the lane's instances are kept through, where there is a database.
    pub bridge: Option<PersistenceBridge>,
    /// Whether dead letters are kept.
    pub incident_sink: bool,
}

/// The deployments of a row of plans.
pub open spec fn ids(v: Seq<PlanView>) -> Seq<Seq<char>> {
    v.map_values(|p: PlanView| p.dep)
}

/// The channels of a row of plans.
pub open spec fn all_channels(v: Seq<PlanView>) -> Seq<ChannelView>
    decreases v.len(),
{
    if v.len() == 0 {
        Seq::empty()
    } else {
        all_channels(v.drop_last()) + v.last().definitions
    }
}

/// The deployments of a row of plans.
pub fn plan_ids(v: &Vec<&DeploymentPlan>) -> (r: Vec<String>)
    ensures
        text::texts(r@) == ids(registries::plans(v@)),
{
    let mut out: Vec<String> = Vec::new();
    let mut i: usize = 0;
    while i < v.len()
        invariant
            i <= v.len(),
            out.len() == i,
            forall|k: int| 0 <= k < i ==> (#[trigger] out@[k])@ == v@[k].dep@,
        decreases v.len() - i,
    {
        out.push(v[i].dep.clone());
        i = i + 1;
    }
    assert(text::texts(out@) =~= ids(registries::plans(v@)));
    out
}

/// The channels of a row of plans.
pub fn plan_channels<'a>(v: &Vec<&'a DeploymentPlan>) -> (r: Vec<&'a ChannelDefinition>)
    ensures
        borrowed(r@) == all_channels(registries::plans(v@)),
{
    let ghost all = registries::plans(v@);
    let mut out: Vec<&'a ChannelDefinition> = Vec::new();
    let mut i: usize = 0;
    assert(borrowed(out@) =~= all_channels(all.take(0)));
    while i < v.len()
        invariant
            i <= v.len(),
            all == registries::plans(v@),
            borrowed(out@) == all_channels(all.take(i as int)),
        decreases v.len() - i,
    {
        let plan: &'a DeploymentPlan = v[i];
        let ghost start = borrowed(out@);
        let ghost own = plan@.definitions;
        assert(all.take(i + 1).drop_last() =~= all.take(i as int));
        assert(all.take(i + 1).last() == plan@);
        let mut j: usize = 0;
        assert(start + own.take(0) =~= start);
        while j < plan.definitions.len()
            invariant
                j <= plan.definitions.len(),
                own == plan@.definitions,
                borrowed(out@) == start + own.take(j as int),
            decreases plan.definitions.len() - j,
        {
            let ghost prior = borrowed(out@);
            out.push(&plan.definitions[j]);
            assert(borrowed(out@) =~= prior.push(own[j as int]));
            assert(start + own.take(j + 1) =~= (start + own.take(j as int)).push(own[j as int]));
            j = j + 1;
        }
        assert(own.take(plan.definitions.len() as int) =~= own);
        i = i + 1;
    }
    assert(all.take(v.len() as int) =~= all);
    out
}

/// Whether an engine is wired from its deployments: bound for the active ones, and with what the
/// draining ones still need.
pub open spec fn wires(r: EngineWiring, a: Seq<PlanView>, d: Seq<PlanView>) -> bool {
    &&& text::texts(r.prior_deployments@) == ids(d)
    &&& borrowed(r.bindings@) == all_channels(a)
    &&& rows(r.residual@) == residuals(d, claims(a)).0
    &&& r.redactors@ == lanes::redactors_of(a + d)
    &&& r.stores@ == lanes::stores_of(a + d)
    &&& routed(r.coverage.routes@) == routes(a + d)
    &&& text::texts(r.coverage.unrecorded@) == unrecorded(a + d)
    &&& metas(r.coverage.metas@) == coverage_metas(a + d)
}

/// Whether what an engine persists is wired as its pool allows.
pub open spec fn persists(r: EngineWiring, pool: bool, incident_sql: bool) -> bool {
    &&& r.persisted == pool
    &&& r.bridge is Some == pool
    &&& r.incident_sink == (pool && incident_sql)
}

/// Decide what one lane's engine is assembled from. A draining deployment keeps its redactors and its
/// stores, since instances that are pinned to it go on.
pub fn build_engine<'a>(
    active: &Vec<&'a DeploymentPlan>,
    draining: &Vec<&'a DeploymentPlan>,
    config: &EngineConfig,
    replica: &str,
    facts: EngineFacts,
) -> (r: EngineWiring<'a>)
    ensures
        ({
            let a = registries::plans(active@);
            let d = registries::plans(draining@);
            &&& text::texts(r.prior_deployments@) == ids(d)
            &&& borrowed(r.bindings@) == all_channels(a)
            &&& rows(r.residual@) == residuals(d, claims(a)).0
            &&& r.redactors@ == lanes::redactors_of(a + d)
            &&& r.stores@ == lanes::stores_of(a + d)
            &&& routed(r.coverage.routes@) == routes(a + d)
            &&& text::texts(r.coverage.unrecorded@) == unrecorded(a + d)
            &&& metas(r.coverage.metas@) == coverage_metas(a + d)
            &&& r.audit == audit_sinks(
                config@.audit,
                facts.jsonl_opened,
                facts.otel_ready,
                facts.pool,
            )
            &&& r.payload_cap == lanes::payload_cap(config@.payload_cap_bytes)
            &&& r.now_override == config@.now_override
            &&& r.persisted == facts.pool
            &&& match r.bridge {
                Some(b) => facts.pool && b@ == (BridgeView {
                    replica: replica@,
                    claim_owner: bridge::lane_owner(replica@, facts.shard),
                    retention: config@.instance_retention.retention,
                    encrypting: facts.encrypting,
                }),
                None => !facts.pool,
            }
            &&& r.incident_sink == (facts.pool && config@.incident_sql)
        }),
        persists(r, facts.pool, config@.incident_sql),
        wires(r, registries::plans(active@), registries::plans(draining@)),
{
    let served = registries::joined(active, draining);
    let bridge = if facts.pool {
        Some(
            PersistenceBridge::with_key_provider(replica, facts.encrypting).with_retention(
                config.instance_retention.retention,
            ).with_shard_owner(facts.shard),
        )
    } else {
        None
    };
    EngineWiring {
        prior_deployments: plan_ids(draining),
        bindings: plan_channels(active),
        residual: residual_bindings(active, draining),
        coverage: wire_coverage(active, draining),
        redactors: lanes::lane_redactors(&served),
        stores: lanes::lane_stores(&served),
        audit: wire_audit(&config.audit, facts.jsonl_opened, facts.otel_ready, facts.pool),
        payload_cap: lanes::payload_cap_policy(config.payload_cap_bytes),
        now_override: config.now_override,
        persisted: facts.pool,
        bridge,
        incident_sink: facts.pool && config.incident_sql,
    }
}

// ---- the runtime -------------------------------------------------------------------------------

/// How many outbox rows one tick takes per deployment.
pub const OUTBOX_BATCH: u32 = 50;

/// What an engine runtime is assembled from.
pub struct RuntimeWiring<'a> {
    /// The channels that transports are wired to.
    pub definitions: Vec<&'a ChannelDefinition>,
    /// The deployments that the background loops cover.
    pub deployment_ids: Vec<String>,
    /// The channels that ask for an acknowledgement at completion over a transport that has none.
    pub degraded: Vec<&'a ChannelDefinition>,
    /// Whether outbox rows are delivered.
    pub outbox: bool,
    /// Whether a delivery that fails for good is recorded.
    pub outbox_incidents: bool,
    /// Whether workers can pull tasks.
    pub external_tasks: bool,
}

/// Whether a channel asks for an acknowledgement at completion that its transport cannot give.
pub open spec fn degrades(def: ChannelView, capable: Seq<Seq<char>>) -> bool {
    !def.outbound && def.on_complete_ack && def.transport is Some && !capable.contains(
        def.transport->0,
    )
}

/// The channels that degrade.
pub open spec fn degrading(defs: Seq<ChannelView>, capable: Seq<Seq<char>>) -> Seq<ChannelView>
    decreases defs.len(),
{
    if defs.len() == 0 {
        Seq::empty()
    } else {
        let rest = degrading(defs.drop_last(), capable);
        if degrades(defs.last(), capable) {
            rest.push(defs.last())
        } else {
            rest
        }
    }
}

fn find_degraded<'a>(defs: &Vec<&'a ChannelDefinition>, capable: &TextSet) -> (r: Vec<
    &'a ChannelDefinition,
>)
    ensures
        borrowed(r@) == degrading(borrowed(defs@), capable@),
{
    let ghost all = borrowed(defs@);
    let mut out: Vec<&'a ChannelDefinition> = Vec::new();
    let mut i: usize = 0;
    assert(borrowed(out@) =~= degrading(all.take(0), capable@));
    while i < defs.len()
        invariant
            i <= defs.len(),
            all == borrowed(defs@),
            borrowed(out@) == degrading(all.take(i as int), capable@),
        decreases defs.len() - i,
    {
        let def: &'a ChannelDefinition = defs[i];
        let ghost prior = borrowed(out@);
        assert(all.take(i + 1).drop_last() =~= all.take(i as int));
        assert(all.take(i + 1).last() == def@);
        let unable = match &def.transport {
            Some(t) => !capable.contains(t),
            None => false,
        };
        if !def.outbound && def.on_complete_ack && unable {
            out.push(def);
            assert(borrowed(out@) =~= prior.push(def@));
        }
        i = i + 1;
    }
    assert(all.take(defs.len() as int) =~= all);
    out
}

/// Whether a runtime is wired from its deployments.
pub open spec fn runs(
    r: RuntimeWiring,
    a: Seq<PlanView>,
    d: Seq<PlanView>,
    capable: Seq<Seq<char>>,
) -> bool {
    &&& borrowed(r.definitions@) == all_channels(a)
    &&& text::texts(r.deployment_ids@) == ids(a + d)
    &&& borrowed(r.degraded@) == degrading(all_channels(a), capable)
}

/// Whether what a runtime serves is wired as its pool allows.
pub open spec fn serves(r: RuntimeWiring, pool: bool, incident_sql: bool) -> bool {
    &&& r.outbox == pool
    &&& r.outbox_incidents == (pool && incident_sql)
    &&& r.external_tasks == pool
}

/// Decide what a runtime is assembled from. `capable` are the transports that can acknowledge at
/// completion. The channels come from the active deployments only; the background loops cover the
/// draining ones too, whose pinned instances still fire timers and emit.
pub fn build_engine_runtime<'a>(
    active: &Vec<&'a DeploymentPlan>,
    draining: &Vec<&'a DeploymentPlan>,
    pool: bool,
    incident_sql: bool,
    capable: &TextSet,
) -> (r: RuntimeWiring<'a>)
    ensures
        ({
            let a = registries::plans(active@);
            let d = registries::plans(draining@);
            &&& borrowed(r.definitions@) == all_channels(a)
            &&& text::texts(r.deployment_ids@) == ids(a + d)
            &&& borrowed(r.degraded@) == degrading(all_channels(a), capable@)
            &&& r.outbox == pool
            &&& r.outbox_incidents == (pool && incident_sql)
            &&& r.external_tasks == pool
        }),
        serves(r, pool, incident_sql),
        runs(r, registries::plans(active@), registries::plans(draining@), capable@),
{
    let definitions = plan_channels(active);
    let degraded = find_degraded(&definitions, capable);
    let deployment_ids = plan_ids(&registries::joined(active, draining));
    RuntimeWiring {
        definitions,
        deployment_ids,
        degraded,
        outbox: pool,
        outbox_incidents: pool && incident_sql,
        external_tasks: pool,
    }
}

/// Why a runtime could not be assembled: a transport's channels could not be wired.
pub fn wiring_failure(transport: &str, code: &str, message: &str) -> (r: String)
    ensures
        r@ == transport@ + " channel wiring failed: ["@ + code@ + "] "@ + message@,
{
    text::text5(transport, " channel wiring failed: [", code, "] ", message)
}

// ---- keys --------------------------------------------------------------------------------------

/// Where encryption keys come from.
pub enum KeySource {
    /// Data keys wrapped under this key-encryption key, loaded from the database.
    Envelope(String),
    /// Keys derived from this master key.
    Master(String),
    /// Nothing is encrypted.
    Plain,
}

/// The contents of a [`KeySource`].
pub enum KeySourceView {
    Envelope(Seq<char>),
    Master(Seq<char>),
    Plain,
}

impl View for KeySource {
    type V = KeySourceView;

    open spec fn view(&self) -> KeySourceView {
        match self {
            KeySource::Envelope(k) => KeySourceView::Envelope(k@),
            KeySource::Master(k) => KeySourceView::Master(k@),
            KeySource::Plain => KeySourceView::Plain,
        }
    }
}

/// Where a configuration's keys come from.
pub open spec fn key_source(
    envelope: bool,
    kek_ref: Option<Seq<char>>,
    master: Option<Seq<char>>,
    pool: bool,
    to: sources::Resolution,
) -> Result<KeySourceView, Seq<char>> {
    if envelope {
        match to(kek_ref->0) {
            Err(e) => Err("sutra.crypto.envelope.kek: "@ + e),
            Ok(secret) => if pool {
                Ok(KeySourceView::Envelope(secret))
            } else {
                Err(
                    "sutra.crypto.envelope.enabled requires a datasource (the data_key store holds the wrapped DEKs)"@,
                )
            },
        }
    } else {
        match master {
            Some(m) => Ok(KeySourceView::Master(m)),
            None => Ok(KeySourceView::Plain),
        }
    }
}

/// Decide where a configuration's keys come from; `resolve` resolves references.
pub fn build_key_provider<R: Fn(&str) -> Result<String, String>>(
    config: &EngineConfig,
    pool: bool,
    resolve: &R,
) -> (r: Result<KeySource, String>)
    requires
        config.crypto_envelope.enabled ==> config.crypto_envelope.kek_ref is Some,
        forall|s: &str| call_requires(resolve, (s,)),
    ensures
        forall|to: sources::Resolution| #[trigger]
            sources::resolves(*resolve, to) ==> ({
                let expected = key_source(
                    config.crypto_envelope.enabled,
                    sources::opt(config.crypto_envelope.kek_ref),
                    sources::opt(config.crypto_master_key),
                    pool,
                    to,
                );
                match r {
                    Ok(k) => expected == Ok::<KeySourceView, Seq<char>>(k@),
                    Err(e) => expected == Err::<KeySourceView, Seq<char>>(e@),
                }
            }),
{
    if config.crypto_envelope.enabled {
        let kek_ref = match &config.crypto_envelope.kek_ref {
            Some(k) => k,
            None => {
                assert(false);
                return Ok(KeySource::Plain);
            },
        };
        match resolve(kek_ref.as_str()) {
            Err(e) => Err(text::text2("sutra.crypto.envelope.kek: ", &e)),
            Ok(secret) => if pool {
                Ok(KeySource::Envelope(secret))
            } else {
                Err(
                    "sutra.crypto.envelope.enabled requires a datasource (the data_key store holds the wrapped DEKs)".to_owned(),
                )
            },
        }
    } else {
        match &config.crypto_master_key {
            Some(m) => Ok(KeySource::Master(m.clone())),
            None => Ok(KeySource::Plain),
        }
    }
}

} // verus!
