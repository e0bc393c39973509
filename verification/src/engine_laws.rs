//! How the deployments of an engine share channels, coverage, audit sinks and keys.

use vstd::prelude::*;

use crate::activation;
use crate::activation::{ActivePlan, Activation, FlipStepView, StoreActivation};
use crate::assembly::{BindingView, DeploymentPlan, PlanView};
use crate::config::AuditView;
use crate::deploy;
use crate::engine;
use crate::engine::{EngineWiring, KeySourceView, ProcessPathsView, RouteView, RuntimeWiring};
use crate::graph::{ProcessDefinition, ProcessModule};
use crate::keyed;
use crate::lanes;
use crate::metrics::CoverageMetaView;
use crate::plan_laws;
use crate::registries;
use crate::registries::{CodecSourceView, ValidatorSourceView};
use crate::schedules;
use crate::schedules::{ArmingView, TimerStart};
use crate::sources;
use crate::status;
use crate::status::SnapshotView;
use crate::text;
use crate::transports::{ChannelView, NamespaceView};

verus! {

// ---- channels ----------------------------------------------------------------------------------

/// A channel is bound under its module version and its own name: tenant, module and version, and
/// then the name, in that order.
pub proof fn a_channel_is_bound_by_module_and_name(def: ChannelView)
    ensures
        engine::binding_key(def).0 == def.namespace.tenant + "/"@ + def.namespace.module + "/"@
            + def.namespace.version,
        engine::binding_key(def).1 == def.channel_name,
{
}

/// The active deployments claim the keys of all their channels, in their order, and no others.
pub proof fn every_active_channel_is_claimed(a: Seq<PlanView>, b: Seq<PlanView>, p: PlanView)
    ensures
        engine::claims(a + b) == engine::claims(a) + engine::claims(b),
        engine::claims(seq![p]).len() == p.definitions.len(),
        forall|i: int|
            0 <= i < p.definitions.len() ==> (#[trigger] engine::claims(seq![p])[i]).1
                == p.definitions[i].channel_name && engine::claims(seq![p])[i].0
                == p.definitions[i].namespace.module_key(),
    decreases b.len(),
{
    let none = Seq::<PlanView>::empty();
    assert(seq![p].drop_last() =~= none);
    assert(seq![p].last() == p);
    assert(engine::claims(none) =~= Seq::<(Seq<char>, Seq<char>)>::empty());
    let own = p.definitions.map_values(|d: ChannelView| engine::binding_key(d));
    assert(engine::claims(none) + own =~= own);
    if b.len() == 0 {
        assert(a + b =~= a);
        assert(engine::claims(a) + engine::claims(b) =~= engine::claims(a));
    } else {
        every_active_channel_is_claimed(a, b.drop_last(), p);
        assert((a + b).drop_last() =~= a + b.drop_last());
        assert((a + b).last() == b.last());
        let x = engine::claims(a);
        let y = engine::claims(b.drop_last());

        assert((x + y) + b.last().definitions.map_values(|d: ChannelView| engine::binding_key(d)) =~= x + (y + b.last().definitions.map_values(|d: ChannelView| engine::binding_key(d))));
    }
}

proof fn claimed_so_far(
    defs: Seq<ChannelView>,
    claimed: Seq<(Seq<char>, Seq<char>)>,
    key: (Seq<char>, Seq<char>),
)
    ensures
        engine::residual(defs, claimed).1.contains(key) <==> claimed.contains(key) || exists|i: int|
            0 <= i < defs.len()
                && key == ((#[trigger] defs[i]).namespace.module_key(), defs[i].channel_name),
    decreases defs.len(),
{
    if defs.len() > 0 {
        let rest = defs.drop_last();
        let n = defs.len() - 1;
        claimed_so_far(rest, claimed, key);
        let last = (defs[n].namespace.module_key(), defs[n].channel_name);
        claimed_so_far(rest, claimed, last);
        let before = engine::residual(rest, claimed).1;
        let after = engine::residual(defs, claimed).1;
        assert(defs[n] == defs.last());
        if before.contains(key) {
            let k = choose|k: int| 0 <= k < before.len() && before[k] == key;
            assert(after[k] == key);
            if !claimed.contains(key) {
                let i = choose|i: int|
                    0 <= i < rest.len()
                        && key == ((#[trigger] rest[i]).namespace.module_key(), rest[i].channel_name);
                assert(defs[i] == rest[i]);
            }
        }
        if key == last && !before.contains(key) {
            assert(after[after.len() - 1] == key);
        }
        if after.contains(key) && !before.contains(key) {
            let k = choose|k: int| 0 <= k < after.len() && after[k] == key;
            if k < before.len() {
                assert(before[k] == key);
            }
            assert(key == last);
        }
        if exists|i: int|
            0 <= i < defs.len()
                && key == ((#[trigger] defs[i]).namespace.module_key(), defs[i].channel_name) {
            let i = choose|i: int|
                0 <= i < defs.len()
                    && key == ((#[trigger] defs[i]).namespace.module_key(), defs[i].channel_name);
            if i < n {
                assert(rest[i] == defs[i]);
                assert(before.contains(key));
            }
        }
    }
}

/// A draining deployment keeps a channel exactly where nobody claimed its module version and name
/// before it: neither the active ones nor an earlier channel of its own.
pub proof fn a_draining_channel_yields_to_a_claim(
    defs: Seq<ChannelView>,
    def: ChannelView,
    claimed: Seq<(Seq<char>, Seq<char>)>,
)
    ensures
        ({
            let before = engine::residual(defs, claimed);
            let after = engine::residual(defs.push(def), claimed);
            let key = (def.namespace.module_key(), def.channel_name);
            let taken = claimed.contains(key) || exists|i: int|
                0 <= i < defs.len()
                    && key == ((#[trigger] defs[i]).namespace.module_key(), defs[i].channel_name);
            &&& taken ==> after.0 == before.0
            &&& !taken ==> after.0 == before.0 + seq![def]
            &&& engine::residual(Seq::<ChannelView>::empty(), claimed).0.len() == 0
        }),
{
    let all = defs.push(def);
    assert(all.drop_last() =~= defs);
    assert(all.last() == def);
    claimed_so_far(defs, claimed, (def.namespace.module_key(), def.channel_name));
}

/// Draining deployments are asked in their order: each keeps what neither the active ones nor an
/// earlier draining one claims.
pub proof fn draining_deployments_are_asked_in_order(
    draining: Seq<PlanView>,
    p: PlanView,
    claimed: Seq<(Seq<char>, Seq<char>)>,
    key: (Seq<char>, Seq<char>),
)
    ensures
        ({
            let before = engine::residuals(draining, claimed);
            let after = engine::residuals(draining.push(p), claimed);
            &&& after.0.len() == draining.len() + 1
            &&& after.0.drop_last() == before.0
            &&& after.0.last() == engine::residual(p.definitions, before.1).0
            &&& after.1.contains(key) <==> before.1.contains(key) || exists|i: int|
                0 <= i < p.definitions.len() && key == (
                    (#[trigger] p.definitions[i]).namespace.module_key(),
                    p.definitions[i].channel_name,
                )
            &&& engine::residuals(Seq::<PlanView>::empty(), claimed).1 == claimed
        }),
    decreases draining.len(),
{
    let all = draining.push(p);
    assert(all.drop_last() =~= draining);
    assert(all.last() == p);
    if draining.len() > 0 {
        draining_deployments_are_asked_in_order(draining.drop_last(), draining.last(), claimed, key);
        assert(draining.drop_last().push(draining.last()) =~= draining);
    }
    let before = engine::residuals(draining, claimed);
    claimed_so_far(p.definitions, before.1, key);
    assert(engine::residuals(all, claimed).0.drop_last() =~= before.0);
}

/// An engine serves the channels of its deployments in their order, all of them and no others.
pub proof fn channels_are_served_in_order(a: Seq<PlanView>, b: Seq<PlanView>, p: PlanView)
    ensures
        engine::all_channels(a + b) == engine::all_channels(a) + engine::all_channels(b),
        engine::all_channels(seq![p]) == p.definitions,
    decreases b.len(),
{
    let none = Seq::<PlanView>::empty();
    assert(seq![p].drop_last() =~= none);
    assert(seq![p].last() == p);
    assert(engine::all_channels(none) =~= Seq::<ChannelView>::empty());
    assert(engine::all_channels(none) + p.definitions =~= p.definitions);
    if b.len() == 0 {
        assert(a + b =~= a);
        assert(engine::all_channels(a) + engine::all_channels(b) =~= engine::all_channels(a));
    } else {
        channels_are_served_in_order(a, b.drop_last(), p);
        assert((a + b).drop_last() =~= a + b.drop_last());
        assert((a + b).last() == b.last());
        let x = engine::all_channels(a);
        let y = engine::all_channels(b.drop_last());

        assert((x + y) + b.last().definitions =~= x + (y + b.last().definitions));
    }
}

/// An engine knows its deployments by their ids, in their order.
pub proof fn deployments_are_known_by_their_ids(v: Seq<PlanView>)
    ensures
        engine::ids(v).len() == v.len(),
        forall|i: int| 0 <= i < v.len() ==> (#[trigger] engine::ids(v)[i]) == v[i].dep,
{
}

/// A channel degrades exactly where it is inbound, is told to acknowledge on completion and has a
/// transport that cannot; the degraded ones stand in their order.
pub proof fn only_channels_that_cannot_wait_degrade(
    a: Seq<ChannelView>,
    b: Seq<ChannelView>,
    p: ChannelView,
    capable: Seq<Seq<char>>,
)
    ensures
        engine::degrading(a + b, capable)
            == engine::degrading(a, capable) + engine::degrading(b, capable),
        engine::degrading(seq![p], capable) == if !p.outbound && p.on_complete_ack && (
        p.transport matches Some(t) && !capable.contains(t)) {
            seq![p]
        } else {
            Seq::empty()
        },
    decreases b.len(),
{
    let none = Seq::<ChannelView>::empty();
    assert(seq![p].drop_last() =~= none);
    assert(seq![p].last() == p);
    assert(engine::degrading(none, capable) =~= Seq::<ChannelView>::empty());
    assert(Seq::<ChannelView>::empty().push(p) =~= seq![p]);
    if b.len() == 0 {
        assert(a + b =~= a);
        assert(engine::degrading(a, capable) + engine::degrading(b, capable) =~= engine::degrading(a, capable));
    } else {
        only_channels_that_cannot_wait_degrade(a, b.drop_last(), p, capable);
        assert((a + b).drop_last() =~= a + b.drop_last());
        assert((a + b).last() == b.last());
        let x = engine::degrading(a, capable);
        let y = engine::degrading(b.drop_last(), capable);
        assert((x + y).push(b.last()) =~= x + y.push(b.last()));
    }
}

// ---- coverage ----------------------------------------------------------------------------------

/// Coverage of a deployment goes to its store where it has one, else it is told why not, else it goes
/// nowhere; each under its own id.
pub proof fn coverage_goes_to_its_own_deployment(a: Seq<PlanView>, b: Seq<PlanView>, p: PlanView)
    ensures
        engine::routes(a + b) == engine::routes(a) + engine::routes(b),
        engine::routes(seq![p]) == if p.coverage {
            seq![(p.dep, RouteView::Store)]
        } else {
            match p.coverage_fault {
                Some(e) => seq![(p.dep, RouteView::Fault(e))],
                None => Seq::empty(),
            }
        },
    decreases b.len(),
{
    let none = Seq::<PlanView>::empty();
    assert(seq![p].drop_last() =~= none);
    assert(seq![p].last() == p);
    assert(engine::routes(none) =~= Seq::<(Seq<char>, RouteView)>::empty());
    let rv = Seq::<(Seq<char>, RouteView)>::empty();
    assert(rv.push((p.dep, RouteView::Store)) =~= seq![(p.dep, RouteView::Store)]);
    assert(rv.push((p.dep, RouteView::Fault(p.coverage_fault->0))) =~= seq![
        (p.dep, RouteView::Fault(p.coverage_fault->0)),
    ]);
    if b.len() == 0 {
        assert(a + b =~= a);
        assert(engine::routes(a) + engine::routes(b) =~= engine::routes(a));
    } else {
        coverage_goes_to_its_own_deployment(a, b.drop_last(), p);
        assert((a + b).drop_last() =~= a + b.drop_last());
        assert((a + b).last() == b.last());
        let x = engine::routes(a);
        let y = engine::routes(b.drop_last());
        assert((x + y).push((b.last().dep, RouteView::Store)) =~= x + y.push((b.last().dep, RouteView::Store)));
        assert((x + y).push((b.last().dep, RouteView::Fault(b.last().coverage_fault->0))) =~= x + y.push((b.last().dep, RouteView::Fault(b.last().coverage_fault->0))));
    }
}

/// A deployment is told as unrecorded exactly where one of its processes declares a path to cover and
/// it has neither a store nor a reason for none.
pub proof fn declared_paths_without_a_store_are_unrecorded(
    a: Seq<PlanView>,
    b: Seq<PlanView>,
    p: PlanView,
)
    ensures
        engine::unrecorded(a + b) == engine::unrecorded(a) + engine::unrecorded(b),
        engine::unrecorded(seq![p]) == if !p.coverage && p.coverage_fault is None && (exists|
            i: int,
            j: int,
        |
            0 <= i < p.modules.len() && 0 <= j < p.modules[i].processes@.len() && (
            #[trigger] p.modules[i].processes@[j]).coverage_paths@.len() > 0) {
            seq![p.dep]
        } else {
            Seq::empty()
        },
    decreases b.len(),
{
    let none = Seq::<PlanView>::empty();
    assert(seq![p].drop_last() =~= none);
    assert(seq![p].last() == p);
    assert(engine::unrecorded(none) =~= Seq::<Seq<char>>::empty());
    assert(Seq::<Seq<char>>::empty().push(p.dep) =~= seq![p.dep]);
    if b.len() == 0 {
        assert(a + b =~= a);
        assert(engine::unrecorded(a) + engine::unrecorded(b) =~= engine::unrecorded(a));
    } else {
        declared_paths_without_a_store_are_unrecorded(a, b.drop_last(), p);
        assert((a + b).drop_last() =~= a + b.drop_last());
        assert((a + b).last() == b.last());
        let x = engine::unrecorded(a);
        let y = engine::unrecorded(b.drop_last());
        assert((x + y).push(b.last().dep) =~= x + y.push(b.last().dep));
    }
}

/// Every process that declares a path is covered by its own paths, under its deployment and, where
/// the deployment has a channel, under the module version of the first.
pub proof fn a_process_is_covered_by_its_own_paths(
    a: Seq<ProcessDefinition>,
    b: Seq<ProcessDefinition>,
    p: ProcessDefinition,
    plan: PlanView,
)
    ensures
        engine::process_metas(plan, a + b)
            == engine::process_metas(plan, a) + engine::process_metas(plan, b),
        p.coverage_paths@.len() == 0 ==> engine::process_metas(plan, seq![p]).len() == 0,
        p.coverage_paths@.len() > 0 ==> {
            let m = engine::process_metas(plan, seq![p]);
            &&& m.len() == 1
            &&& m[0].deployment_id == plan.dep
            &&& m[0].process_id == p.id@
            &&& m[0].declared_paths == text::texts(p.coverage_paths@)
            &&& plan.definitions.len() == 0 ==> m[0].tenant is None && m[0].module is None
                && m[0].version is None
            &&& plan.definitions.len() > 0 ==> m[0].tenant == Some(
                plan.definitions[0].namespace.tenant,
            ) && m[0].module == Some(plan.definitions[0].namespace.module) && m[0].version == Some(
                plan.definitions[0].namespace.version,
            )
        },
    decreases b.len(),
{
    let none = Seq::<ProcessDefinition>::empty();
    assert(seq![p].drop_last() =~= none);
    assert(seq![p].last() == p);
    assert(engine::process_metas(plan, none) =~= Seq::<CoverageMetaView>::empty());
    assert(engine::process_metas(plan, seq![p]).len() <= 1);
    if b.len() > 0 && b.last().coverage_paths@.len() > 0 {
        let m = engine::process_metas(plan, b).last();
        let x = engine::process_metas(plan, a);
        let y = engine::process_metas(plan, b.drop_last());
        assert((x + y).push(m) =~= x + y.push(m));
    }
    if b.len() == 0 {
        assert(a + b =~= a);
        assert(engine::process_metas(plan, a) + engine::process_metas(plan, b) =~= engine::process_metas(plan, a));
    } else {
        a_process_is_covered_by_its_own_paths(a, b.drop_last(), p, plan);
        assert((a + b).drop_last() =~= a + b.drop_last());
        assert((a + b).last() == b.last());
        let x = engine::process_metas(plan, a);
        let y = engine::process_metas(plan, b.drop_last());
    }
}

/// The coverage of modules is that of their processes, in their order.
pub proof fn modules_are_covered_by_their_processes(
    a: Seq<ProcessModule>,
    b: Seq<ProcessModule>,
    p: ProcessModule,
    plan: PlanView,
)
    ensures
        engine::module_metas(plan, a + b)
            == engine::module_metas(plan, a) + engine::module_metas(plan, b),
        engine::module_metas(plan, seq![p]) == engine::process_metas(plan, p.processes@),
    decreases b.len(),
{
    let none = Seq::<ProcessModule>::empty();
    assert(seq![p].drop_last() =~= none);
    assert(seq![p].last() == p);
    assert(engine::module_metas(plan, none) =~= Seq::<CoverageMetaView>::empty());
    assert(engine::module_metas(plan, none) + engine::process_metas(plan, p.processes@)
        =~= engine::process_metas(plan, p.processes@));
    if b.len() == 0 {
        assert(a + b =~= a);
        assert(engine::module_metas(plan, a) + engine::module_metas(plan, b) =~= engine::module_metas(plan, a));
    } else {
        modules_are_covered_by_their_processes(a, b.drop_last(), p, plan);
        assert((a + b).drop_last() =~= a + b.drop_last());
        assert((a + b).last() == b.last());
        let x = engine::module_metas(plan, a);
        let y = engine::module_metas(plan, b.drop_last());

        assert((x + y) + engine::process_metas(plan, b.last().processes@) =~= x + (y + engine::process_metas(plan, b.last().processes@)));
    }
}

/// Only a deployment that records coverage is covered, by its own modules.
pub proof fn only_covered_deployments_have_coverage(a: Seq<PlanView>, b: Seq<PlanView>, p: PlanView)
    ensures
        engine::coverage_metas(a + b) == engine::coverage_metas(a) + engine::coverage_metas(b),
        engine::coverage_metas(seq![p]) == if p.coverage {
            engine::module_metas(p, p.modules)
        } else {
            Seq::empty()
        },
    decreases b.len(),
{
    let none = Seq::<PlanView>::empty();
    assert(seq![p].drop_last() =~= none);
    assert(seq![p].last() == p);
    assert(engine::coverage_metas(none) =~= Seq::<CoverageMetaView>::empty());
    assert(engine::coverage_metas(none) + engine::module_metas(p, p.modules)
        =~= engine::module_metas(p, p.modules));
    if b.len() == 0 {
        assert(a + b =~= a);
        assert(engine::coverage_metas(a) + engine::coverage_metas(b) =~= engine::coverage_metas(a));
    } else {
        only_covered_deployments_have_coverage(a, b.drop_last(), p);
        assert((a + b).drop_last() =~= a + b.drop_last());
        assert((a + b).last() == b.last());
        let x = engine::coverage_metas(a);
        let y = engine::coverage_metas(b.drop_last());

        assert((x + y) + engine::module_metas(b.last(), b.last().modules) =~= x + (y + engine::module_metas(b.last(), b.last().modules)));
    }
}

/// What is seeded of a process is its id and its own paths, where it has any.
pub proof fn a_process_declares_its_own_paths(
    a: Seq<ProcessDefinition>,
    b: Seq<ProcessDefinition>,
    p: ProcessDefinition,
)
    ensures
        engine::declaring(a + b) == engine::declaring(a) + engine::declaring(b),
        p.coverage_paths@.len() == 0 ==> engine::declaring(seq![p]).len() == 0,
        p.coverage_paths@.len() > 0 ==> {
            let m = engine::declaring(seq![p]);
            &&& m.len() == 1
            &&& m[0].process_id == p.id@
            &&& m[0].paths == text::texts(p.coverage_paths@)
        },
    decreases b.len(),
{
    let none = Seq::<ProcessDefinition>::empty();
    assert(seq![p].drop_last() =~= none);
    assert(seq![p].last() == p);
    assert(engine::declaring(none) =~= Seq::<ProcessPathsView>::empty());
    assert(engine::declaring(seq![p]).len() <= 1);
    if b.len() > 0 && b.last().coverage_paths@.len() > 0 {
        let m = engine::declaring(b).last();
        let x = engine::declaring(a);
        let y = engine::declaring(b.drop_last());
        assert((x + y).push(m) =~= x + y.push(m));
    }
    if b.len() == 0 {
        assert(a + b =~= a);
        assert(engine::declaring(a) + engine::declaring(b) =~= engine::declaring(a));
    } else {
        a_process_declares_its_own_paths(a, b.drop_last(), p);
        assert((a + b).drop_last() =~= a + b.drop_last());
        assert((a + b).last() == b.last());
        let x = engine::declaring(a);
        let y = engine::declaring(b.drop_last());
    }
}

/// What is seeded of modules is what is seeded of their processes, in their order.
pub proof fn modules_declare_what_their_processes_declare(
    a: Seq<ProcessModule>,
    b: Seq<ProcessModule>,
    p: ProcessModule,
)
    ensures
        engine::declared_by(a + b) == engine::declared_by(a) + engine::declared_by(b),
        engine::declared_by(seq![p]) == engine::declaring(p.processes@),
    decreases b.len(),
{
    let none = Seq::<ProcessModule>::empty();
    assert(seq![p].drop_last() =~= none);
    assert(seq![p].last() == p);
    assert(engine::declared_by(none) =~= Seq::<ProcessPathsView>::empty());
    assert(engine::declared_by(none) + engine::declaring(p.processes@) =~= engine::declaring(
        p.processes@,
    ));
    if b.len() == 0 {
        assert(a + b =~= a);
        assert(engine::declared_by(a) + engine::declared_by(b) =~= engine::declared_by(a));
    } else {
        modules_declare_what_their_processes_declare(a, b.drop_last(), p);
        assert((a + b).drop_last() =~= a + b.drop_last());
        assert((a + b).last() == b.last());
        let x = engine::declared_by(a);
        let y = engine::declared_by(b.drop_last());

        assert((x + y) + engine::declaring(b.last().processes@) =~= x + (y + engine::declaring(b.last().processes@)));
    }
}

/// A deployment that records coverage is seeded under its own id with what its modules declare; one
/// that does not is not seeded.
pub proof fn only_covered_deployments_are_seeded(a: Seq<PlanView>, b: Seq<PlanView>, p: PlanView)
    ensures
        activation::seeds(a + b) == activation::seeds(a) + activation::seeds(b),
        activation::seeds(seq![p]) == if p.coverage {
            seq![(p.dep, engine::declared_by(p.modules))]
        } else {
            Seq::empty()
        },
    decreases b.len(),
{
    let none = Seq::<PlanView>::empty();
    assert(seq![p].drop_last() =~= none);
    assert(seq![p].last() == p);
    assert(activation::seeds(none) =~= Seq::<(Seq<char>, Seq<ProcessPathsView>)>::empty());
    assert(Seq::<(Seq<char>, Seq<ProcessPathsView>)>::empty().push(
        (p.dep, engine::declared_by(p.modules)),
    ) =~= seq![(p.dep, engine::declared_by(p.modules))]);
    if b.len() == 0 {
        assert(a + b =~= a);
        assert(activation::seeds(a) + activation::seeds(b) =~= activation::seeds(a));
    } else {
        only_covered_deployments_are_seeded(a, b.drop_last(), p);
        assert((a + b).drop_last() =~= a + b.drop_last());
        assert((a + b).last() == b.last());
        let x = activation::seeds(a);
        let y = activation::seeds(b.drop_last());
        assert((x + y).push((b.last().dep, engine::declared_by(b.last().modules))) =~= x + y.push((b.last().dep, engine::declared_by(b.last().modules))));
    }
}

// ---- audit and keys ----------------------------------------------------------------------------

/// A sink is wired exactly where it is configured and what it needs is there: the file opened, the
/// exporter ready, a pool.
pub proof fn a_sink_needs_what_it_writes_to(
    cfg: AuditView,
    jsonl_opened: bool,
    otel_ready: bool,
    pool: bool,
)
    ensures
        ({
            let w = engine::audit_sinks(cfg, jsonl_opened, otel_ready, pool);
            &&& w.jsonl <==> cfg.jsonl_path is Some && jsonl_opened
            &&& w.otel <==> cfg.otel_endpoint is Some && otel_ready
            &&& w.sql <==> cfg.sql && pool
            &&& w.sql ==> w.default_of() == Some("sql"@)
            &&& !w.sql && w.jsonl ==> w.default_of() == Some("jsonl"@)
            &&& !w.sql && !w.jsonl && w.otel ==> w.default_of() == Some("otel"@)
            &&& w.default_of() is None <==> !w.sql && !w.jsonl && !w.otel
        }),
{
}

/// Envelope encryption takes the secret that its reference resolves to, and needs a pool; without it
/// the master key is taken where there is one, and else nothing is encrypted.
pub proof fn keys_come_from_the_envelope_or_the_master(
    envelope: bool,
    kek_ref: Option<Seq<char>>,
    master: Option<Seq<char>>,
    pool: bool,
    to: sources::Resolution,
)
    ensures
        ({
            let k = engine::key_source(envelope, kek_ref, master, pool, to);
            &&& envelope ==> match to(kek_ref->0) {
                Ok(secret) => if pool {
                    k == Ok::<KeySourceView, Seq<char>>(KeySourceView::Envelope(secret))
                } else {
                    k is Err
                },
                Err(e) => k matches Err(w) && w == "sutra.crypto.envelope.kek: "@ + e,
            }
            &&& !envelope ==> match master {
                Some(m) => k == Ok::<KeySourceView, Seq<char>>(KeySourceView::Master(m)),
                None => k == Ok::<KeySourceView, Seq<char>>(KeySourceView::Plain),
            }
        }),
{
}

/// A payload cap holds exactly where it is positive and a signed count can hold it, and then as it
/// was given.
pub proof fn a_payload_cap_is_positive(bytes: u64)
    ensures
        match lanes::payload_cap(bytes) {
            Some(n) => n == bytes && n > 0 && n <= 9_223_372_036_854_775_807,
            None => bytes == 0 || bytes > 9_223_372_036_854_775_807,
        },
{
}

// ---- registries --------------------------------------------------------------------------------

/// A deployment registers its modules and its outbound channels under its own id, behind those that
/// were there; its templates, scripts and decisions under their keys, its validators and its codecs
/// as what they are.
pub proof fn a_deployment_registers_its_own(v: Seq<PlanView>, p: PlanView)
    ensures
        ({
            let r = registries::registries(v);
            let s = registries::registries(v.push(p));
            &&& s.processes.len() == r.processes.len() + p.modules.len()
            &&& forall|i: int|
                0 <= i < r.processes.len() ==> (#[trigger] s.processes[i]) == r.processes[i]
            &&& forall|i: int|
                0 <= i < p.modules.len() ==> (#[trigger] s.processes[r.processes.len() + i]) == (
                    p.dep,
                    p.modules[i],
                )
            &&& s.outbound_channels.len() == r.outbound_channels.len() + p.outbound.len()
            &&& forall|i: int|
                0 <= i < r.outbound_channels.len() ==> (#[trigger] s.outbound_channels[i])
                    == r.outbound_channels[i]
            &&& forall|i: int|
                0 <= i < p.outbound.len() ==> (#[trigger] s.outbound_channels[
                    r.outbound_channels.len() + i
                ]) == (p.dep, p.outbound[i])
            &&& s.templates == registries::put_all(r.templates, p.templates)
            &&& s.scripts == registries::put_all(r.scripts, p.scripts)
            &&& s.decisions == registries::put_all(r.decisions, p.decisions)
            &&& s.validators == registries::put_all(r.validators, registries::validator_entries(p))
            &&& s.codecs == registries::put_all(r.codecs, registries::codec_entries(p))
        }),
        ({
            let e = registries::registries(Seq::<PlanView>::empty());
            &&& e.processes.len() == 0 && e.outbound_channels.len() == 0 && e.templates.len() == 0
            &&& e.scripts.len() == 0 && e.decisions.len() == 0 && e.validators.len() == 0
            &&& e.codecs.len() == 0
        }),
{
    let all = v.push(p);
    assert(all.drop_last() =~= v);
    assert(all.last() == p);
}

/// The validators that a deployment registers are its decisions, each with its rule and decision,
/// and then its rule sets with their contents; its codecs are its schema folders and then its
/// bundles.
pub proof fn validators_and_codecs_keep_their_sources(p: PlanView)
    ensures
        registries::validator_entries(p).len() == p.validators.len() + p.srl_validators.len(),
        forall|i: int|
            0 <= i < p.validators.len() ==> (#[trigger] registries::validator_entries(p)[i]) == (
                p.validators[i].key,
                ValidatorSourceView::Decision(p.validators[i].rule, p.validators[i].decision),
            ),
        forall|i: int|
            0 <= i < p.srl_validators.len() ==> (#[trigger] registries::validator_entries(p)[
                p.validators.len() + i
            ]) == (p.srl_validators[i].0, ValidatorSourceView::Ruleset(p.srl_validators[i].1)),
        registries::codec_entries(p).len() == p.codecs.len() + p.codec_bundles.len(),
        forall|i: int|
            0 <= i < p.codecs.len() ==> (#[trigger] registries::codec_entries(p)[i]) == (
                p.codecs[i].0,
                CodecSourceView::Schemas(p.codecs[i].1),
            ),
        forall|i: int|
            0 <= i < p.codec_bundles.len() ==> (#[trigger] registries::codec_entries(p)[
                p.codecs.len() + i
            ]) == (p.codec_bundles[i].0, CodecSourceView::Bundle(p.codec_bundles[i].1)),
{
}

/// Registering one entry more makes that entry found under its key and leaves every other key as it
/// was.
pub proof fn the_latest_entry_is_found<T>(
    m: Seq<(Seq<char>, T)>,
    entries: Seq<(Seq<char>, T)>,
    key: Seq<char>,
    value: T,
    other: Seq<char>,
)
    ensures
        ({
            let all = entries.push((key, value));
            &&& keyed::lookup(registries::put_all(m, all), key) == Some(value)
            &&& other != key ==> keyed::lookup(registries::put_all(m, all), other) == keyed::lookup(
                registries::put_all(m, entries),
                other,
            )
            &&& registries::put_all(m, Seq::<(Seq<char>, T)>::empty()) == m
        }),
{
    let all = entries.push((key, value));
    assert(all.drop_last() =~= entries);
    assert(all.last() == (key, value));
    keyed::lookup_put(registries::put_all(m, entries), key, value, key);
    keyed::lookup_put(registries::put_all(m, entries), key, value, other);
}

/// The redactors of a lane are those of its deployments, a later deployment's over an earlier's.
pub proof fn redactors_are_registered_in_order(v: Seq<PlanView>, p: PlanView)
    ensures
        lanes::redactors_of(v.push(p)) == registries::put_all(lanes::redactors_of(v), p.redactors),
        lanes::redactors_of(Seq::<PlanView>::empty()).len() == 0,
{
    let all = v.push(p);
    assert(all.drop_last() =~= v);
}

/// A store is found under its deployment and its own name, and only there.
pub proof fn a_store_is_found_by_deployment_and_name(
    v: Seq<(Seq<char>, BindingView)>,
    e: (Seq<char>, BindingView),
    key: (Seq<char>, Seq<char>),
)
    ensures
        ({
            let m = lanes::by_name(v.push(e));
            &&& m.contains_key((e.0, e.1.name)) && m[(e.0, e.1.name)] == e.1
            &&& key != (e.0, e.1.name) ==> m.contains_key(key) == lanes::by_name(v).contains_key(key)
                && m[key] == lanes::by_name(v)[key]
            &&& !lanes::by_name(Seq::<(Seq<char>, BindingView)>::empty()).contains_key(key)
        }),
{
    let all = v.push(e);
    assert(all.drop_last() =~= v);
    assert(all.last() == e);
}

/// What a deployment's stores add is found under that deployment.
pub proof fn stores_are_added_under_their_deployment(
    m: lanes::StoreMap,
    dep: Seq<char>,
    stores: Seq<BindingView>,
    s: BindingView,
    key: (Seq<char>, Seq<char>),
)
    ensures
        ({
            let n = lanes::with_stores(m, dep, stores.push(s));
            &&& n.contains_key((dep, s.name)) && n[(dep, s.name)] == s
            &&& key != (dep, s.name) ==> n.contains_key(key) == lanes::with_stores(
                m,
                dep,
                stores,
            ).contains_key(key) && n[key] == lanes::with_stores(m, dep, stores)[key]
            &&& lanes::with_stores(m, dep, Seq::<BindingView>::empty()) == m
        }),
{
    let all = stores.push(s);
    assert(all.drop_last() =~= stores);
    assert(all.last() == s);
}

// ---- schedules ---------------------------------------------------------------------------------

/// A timer start is armed as it is declared: its process and node, its kind and expression, first
/// due when its expression says, under the tenant and the module version of its deployment.
pub proof fn a_timer_is_armed_as_declared(t: TimerStart, ns: NamespaceView)
    requires
        t.first_due is Ok,
    ensures
        ({
            let a = schedules::arming(t, ns);
            &&& a.process_id == t.process_id@
            &&& a.node_id == t.node_id@
            &&& a.tenant == ns.tenant
            &&& a.module_key == ns.tenant + "/"@ + ns.module + "/"@ + ns.version
            &&& a.kind == t.kind@
            &&& a.spec == t.spec@
            &&& t.first_due == Ok::<i128, String>(a.next_due_at)
            &&& t.total_fires is None <==> a.remaining_fires is None
            &&& t.total_fires matches Some(n) ==> (n <= i32::MAX ==> a.remaining_fires == Some(
                n as i32,
            ))
        }),
{
}

/// A node is armed at most once, by the first of its timers that can be due: a timer that cannot is
/// passed over, and one for a node that is armed already changes nothing.
pub proof fn a_node_is_armed_once(timers: Seq<TimerStart>, t: TimerStart, ns: NamespaceView)
    ensures
        ({
            let before = schedules::scheduled(timers, ns);
            let after = schedules::scheduled(timers.push(t), ns);
            let armed = exists|i: int|
                0 <= i < before.len() && (#[trigger] before[i]).process_id == t.process_id@
                    && before[i].node_id == t.node_id@;
            &&& t.first_due is Err || armed ==> after == before
            &&& t.first_due is Ok && !armed ==> after.len() == before.len() + 1 && after.contains(
                schedules::arming(t, ns),
            ) && forall|x: ArmingView| before.contains(x) ==> after.contains(x)
            &&& schedules::scheduled(Seq::<TimerStart>::empty(), ns).len() == 0
        }),
{
    let all = timers.push(t);
    assert(all.drop_last() =~= timers);
    assert(all.last() == t);
    let before = schedules::scheduled(timers, ns);
    if t.first_due is Ok {
        schedules::schedules_stand_in_order(timers, ns);
        arming_is_placed(before, schedules::arming(t, ns));
    }
}

proof fn arming_is_placed(s: Seq<ArmingView>, x: ArmingView)
    requires
        schedules::in_order(s),
    ensures
        ({
            let after = schedules::placed(s, x);
            let armed = exists|i: int|
                0 <= i < s.len() && (#[trigger] s[i]).process_id == x.process_id && s[i].node_id
                    == x.node_id;
            &&& armed ==> after == s
            &&& !armed ==> after.len() == s.len() + 1 && after.contains(x) && forall|y: ArmingView|
                s.contains(y) ==> after.contains(y)
        }),
    decreases s.len(),
{
    let after = schedules::placed(s, x);
    if s.len() == 0 {
        assert(after[0] == x);
    } else if schedules::earlier(x, s[0]) {
        assert(after[0] == x);
        assert forall|i: int| 0 <= i < s.len() implies !((#[trigger] s[i]).process_id
            == x.process_id && s[i].node_id == x.node_id) by {
            if s[i].process_id == x.process_id && s[i].node_id == x.node_id {
                if i > 0 {
                    assert(schedules::earlier(s[0], s[i]));
                }
                text::before_irreflexive(x.process_id);
                text::before_irreflexive(x.node_id);
                if text::before(x.process_id, s[0].process_id) && text::before(
                    s[0].process_id,
                    x.process_id,
                ) {
                    text::before_transitive(x.process_id, s[0].process_id, x.process_id);
                }
                if text::before(x.node_id, s[0].node_id) && text::before(s[0].node_id, x.node_id) {
                    text::before_transitive(x.node_id, s[0].node_id, x.node_id);
                }
            }
        }
        assert forall|y: ArmingView| s.contains(y) implies after.contains(y) by {
            let k = choose|k: int| 0 <= k < s.len() && s[k] == y;
            assert(after[k + 1] == y);
        }
    } else if schedules::same_node(x, s[0]) {
        assert(s[0].process_id == x.process_id && s[0].node_id == x.node_id);
    } else {
        let rest = s.drop_first();
        assert forall|i: int, j: int| 0 <= i < j < rest.len() implies schedules::earlier(
            #[trigger] rest[i],
            #[trigger] rest[j],
        ) by {
            assert(rest[i] == s[i + 1] && rest[j] == s[j + 1]);
        }
        arming_is_placed(rest, x);
        let inner = schedules::placed(rest, x);
        if exists|i: int|
            0 <= i < s.len() && (#[trigger] s[i]).process_id == x.process_id && s[i].node_id
                == x.node_id {
            let i = choose|i: int|
                0 <= i < s.len() && (#[trigger] s[i]).process_id == x.process_id && s[i].node_id
                    == x.node_id;
            assert(i > 0);
            assert(rest[i - 1] == s[i]);
            assert(after =~= s);
        } else {
            assert forall|i: int| 0 <= i < rest.len() implies !((#[trigger] rest[i]).process_id
                == x.process_id && rest[i].node_id == x.node_id) by {
                assert(rest[i] == s[i + 1]);
            }
            let k = choose|k: int| 0 <= k < inner.len() && inner[k] == x;
            assert(after[k + 1] == x);
            assert forall|y: ArmingView| s.contains(y) implies after.contains(y) by {
                let q = choose|q: int| 0 <= q < s.len() && s[q] == y;
                if q == 0 {
                    assert(after[0] == y);
                } else {
                    assert(rest[q - 1] == y);
                    assert(inner.contains(y));
                    let z = choose|z: int| 0 <= z < inner.len() && inner[z] == y;
                    assert(after[z + 1] == y);
                }
            }
        }
    }
}

/// Each active deployment is armed under its own id with its own timers.
pub proof fn each_deployment_is_armed_with_its_timers(v: Seq<ActivePlan>)
    ensures
        activation::arming(v).len() == v.len(),
        forall|i: int|
            0 <= i < v.len() ==> (#[trigger] activation::arming(v)[i]) == (
                v[i].plan.dep@,
                schedules::scheduled(v[i].timers@, v[i].plan.namespace@),
            ),
{
}

/// After a flip the schedules are armed first, those of deployments that no longer serve are
/// resolved next, and the channels are rewired last; without a store only the channels are.
pub proof fn a_flip_rewires_last(a: Activation, stored: bool)
    ensures
        ({
            let s = activation::following(a, stored);
            let n = a.schedules@.len();
            let m = a.obsolete@.len();
            &&& s.last() == FlipStepView::Rewire(engine::borrowed(a.definitions@))
            &&& !stored ==> s.len() == 1
            &&& stored ==> s.len() == n + m + 1
            &&& stored ==> forall|i: int|
                0 <= i < n ==> (#[trigger] s[i]) == FlipStepView::Arm(
                    a.schedules@[i].deployment@,
                    schedules::armings(a.schedules@[i].schedules@),
                )
            &&& stored ==> forall|i: int|
                0 <= i < m ==> (#[trigger] s[n + i]) == FlipStepView::Resolve(a.obsolete@[i]@)
        }),
{
}

/// A schedule is resolved exactly where its deployment was served or drains and is not active.
pub proof fn only_inactive_schedules_are_resolved(
    served: Seq<Seq<char>>,
    draining: Seq<Seq<char>>,
    active: Seq<Seq<char>>,
    id: Seq<char>,
)
    ensures
        schedules::obsolete(served, draining, active).contains(id) <==> (served.contains(id)
            || draining.contains(id)) && !active.contains(id),
{
    text::firsts_hold_the_same(text::minus(served + draining, active));
    text::minus_contains(served + draining, active, id);
    let s = served + draining;
    if served.contains(id) {
        let i = choose|i: int| 0 <= i < served.len() && served[i] == id;
        assert(s[i] == id);
    }
    if draining.contains(id) {
        let i = choose|i: int| 0 <= i < draining.len() && draining[i] == id;
        assert(s[served.len() + i] == id);
    }
    if s.contains(id) {
        let i = choose|i: int| 0 <= i < s.len() && s[i] == id;
        if i < served.len() {
            assert(served[i] == id);
        } else {
            assert(draining[i - served.len()] == id);
        }
    }
    let kept = text::minus(s, active);
    assert(text::firsts(kept).contains(id) == kept.contains(id));
}

/// The plans that contracts speak of are the plans that were given, in their order.
pub proof fn plans_are_taken_as_given(v: Seq<&DeploymentPlan>, a: Seq<ActivePlan>)
    ensures
        registries::plans(v).len() == v.len(),
        forall|i: int| 0 <= i < v.len() ==> (#[trigger] registries::plans(v)[i]) == v[i]@,
        activation::becoming(a).len() == a.len(),
        forall|i: int| 0 <= i < a.len() ==> (#[trigger] activation::becoming(a)[i]) == a[i].plan@,
{
}

// ---- pools -------------------------------------------------------------------------------------

/// Without a pool nothing is persisted, dispatched or pulled; with one all of it is, and incidents
/// are written exactly where they are asked for too.
pub proof fn only_a_pool_persists(
    e: EngineWiring,
    r: RuntimeWiring,
    pool: bool,
    incident_sql: bool,
)
    requires
        engine::persists(e, pool, incident_sql),
        engine::serves(r, pool, incident_sql),
    ensures
        !pool ==> !e.persisted && e.bridge is None && !e.incident_sink && !r.outbox
            && !r.outbox_incidents && !r.external_tasks,
        pool ==> e.persisted && e.bridge is Some && r.outbox && r.external_tasks,
        pool ==> (e.incident_sink <==> incident_sql) && (r.outbox_incidents <==> incident_sql),
{
}

// ---- activations -------------------------------------------------------------------------------

/// An activation arms each active deployment with its own timers and resolves the schedules of those
/// that no longer serve; the draining ones keep their registrations behind the active ones.
pub proof fn an_activation_keeps_the_draining_registered(
    r: Activation,
    active: Seq<ActivePlan>,
    draining: Seq<PlanView>,
    served: Seq<Seq<char>>,
    id: Seq<char>,
)
    requires
        activation::activates(r, active, draining, served),
    ensures
        r.schedules@.len() == active.len(),
        forall|i: int|
            0 <= i < active.len() ==> (#[trigger] r.schedules@[i]).deployment@
                == active[i].plan.dep@,
        text::texts(r.obsolete@).contains(id) <==> (served.contains(id) || engine::ids(
            draining,
        ).contains(id)) && !engine::ids(activation::becoming(active)).contains(id),
        r.registries@ == registries::registries(activation::becoming(active) + draining),
        engine::borrowed(r.definitions@) == engine::all_channels(activation::becoming(active)),
        activation::seeded(r.seeds@)
            == activation::seeds(activation::becoming(active)) + activation::seeds(
            draining,
        ),
{
    let s = activation::armed(r.schedules@);
    assert(s.len() == r.schedules@.len());
    assert forall|i: int| 0 <= i < active.len() implies (#[trigger] r.schedules@[i]).deployment@
        == active[i].plan.dep@ by {
        assert(s[i].0 == r.schedules@[i].deployment@);
        assert(activation::arming(active)[i].0 == active[i].plan@.dep);
    }
    only_inactive_schedules_are_resolved(
        served,
        engine::ids(draining),
        engine::ids(activation::becoming(active)),
        id,
    );
    if draining.len() > 0 {
        only_covered_deployments_are_seeded(
            activation::becoming(active),
            draining,
            draining[0],
        );
    } else {
        assert(activation::becoming(active) + draining =~= activation::becoming(active));
        assert(activation::seeds(draining) =~= Seq::<(Seq<char>, Seq<ProcessPathsView>)>::empty());
        assert(activation::seeds(activation::becoming(active)) + activation::seeds(draining)
            =~= activation::seeds(activation::becoming(active)));
    }
}

/// What an engine serves from its store is its active deployments and then its draining ones: each is
/// live, and each has its interface and its nodes under its own id, the draining ones' too.
pub proof fn draining_deployments_stay_live(
    r: StoreActivation,
    status: SnapshotView,
    rows: Seq<(Seq<char>, Seq<char>)>,
    active: Seq<PlanView>,
    draining: Seq<PlanView>,
)
    requires
        activation::reactivates(r, status, rows, active, draining),
    ensures
        r.live_ids@.len() == active.len() + draining.len(),
        forall|i: int|
            0 <= i < active.len() ==> (#[trigger] r.live_ids@[i])@ == active[i].dep,
        forall|i: int|
            active.len() <= i < active.len() + draining.len() ==> (#[trigger] r.live_ids@[i])@
                == draining[i - active.len()].dep,
        r.status@.draining == engine::ids(draining),
        r.status@.active == status::among(rows, engine::ids(active)),
        r.specs@ == deploy::api_surfaces(active + draining),
        r.node_indexes@ == deploy::indexes(active + draining),
{
    let t = text::texts(r.live_ids@);
    assert(t.len() == r.live_ids@.len());
    assert forall|i: int| 0 <= i < active.len() implies (#[trigger] r.live_ids@[i])@
        == active[i].dep by {
        assert(t[i] == r.live_ids@[i]@);
    }
    assert forall|i: int|
        active.len() <= i < active.len() + draining.len() implies (#[trigger] r.live_ids@[i])@
        == draining[i - active.len()].dep by {
        assert(t[i] == r.live_ids@[i]@);
    }
}

/// An engine binds the channels of its active deployments alone; every draining one stays known by
/// its id and keeps its redactors and its stores.
pub proof fn an_engine_still_serves_the_draining(
    e: EngineWiring,
    r: RuntimeWiring,
    a: Seq<PlanView>,
    d: Seq<PlanView>,
    capable: Seq<Seq<char>>,
)
    requires
        engine::wires(e, a, d),
        engine::runs(r, a, d, capable),
    ensures
        e.prior_deployments@.len() == d.len(),
        forall|i: int| 0 <= i < d.len() ==> (#[trigger] e.prior_deployments@[i])@ == d[i].dep,
        r.deployment_ids@.len() == a.len() + d.len(),
        forall|i: int| 0 <= i < a.len() ==> (#[trigger] r.deployment_ids@[i])@ == a[i].dep,
        forall|i: int|
            a.len() <= i < a.len() + d.len() ==> (#[trigger] r.deployment_ids@[i])@ == d[i
                - a.len()].dep,
        engine::borrowed(e.bindings@) == engine::all_channels(a),
        engine::borrowed(r.definitions@) == engine::all_channels(a),
        engine::borrowed(r.degraded@) == engine::degrading(engine::all_channels(a), capable),
        e.residual@.len() == d.len(),
        e.redactors@ == lanes::redactors_of(a + d),
        e.stores@ == lanes::stores_of(a + d),
        engine::metas(e.coverage.metas@) == engine::coverage_metas(a + d),
        engine::routed(e.coverage.routes@) == engine::routes(a + d),
        text::texts(e.coverage.unrecorded@) == engine::unrecorded(a + d),
{
    let p = text::texts(e.prior_deployments@);
    assert(p.len() == e.prior_deployments@.len());
    assert forall|i: int| 0 <= i < d.len() implies (#[trigger] e.prior_deployments@[i])@
        == d[i].dep by {
        assert(p[i] == e.prior_deployments@[i]@);
    }
    let t = text::texts(r.deployment_ids@);
    assert(t.len() == r.deployment_ids@.len());
    assert forall|i: int| 0 <= i < a.len() implies (#[trigger] r.deployment_ids@[i])@
        == a[i].dep by {
        assert(t[i] == r.deployment_ids@[i]@);
    }
    assert forall|i: int| a.len() <= i < a.len() + d.len() implies (
    #[trigger] r.deployment_ids@[i])@ == d[i - a.len()].dep by {
        assert(t[i] == r.deployment_ids@[i]@);
    }
    residuals_are_counted(d, engine::claims(a));
    assert(engine::rows(e.residual@).len() == e.residual@.len());
}

proof fn residuals_are_counted(d: Seq<PlanView>, claimed: Seq<(Seq<char>, Seq<char>)>)
    ensures
        engine::residuals(d, claimed).0.len() == d.len(),
    decreases d.len(),
{
    if d.len() > 0 {
        residuals_are_counted(d.drop_last(), claimed);
    }
}

/// A redactor that a deployment registers under a path is found by that deployment's reference to it
/// and by no other deployment's.
pub proof fn a_redactor_is_found_by_its_deployment(
    registry: Seq<(Seq<char>, Seq<char>)>,
    reference: Seq<char>,
    deployment: Seq<char>,
    source: Seq<char>,
    other: Seq<char>,
)
    ensures
        ({
            let name = "urn:sutra:"@ + "redactor"@ + ":"@ + reference + ":"@ + deployment;
            let after = keyed::put(registry, name, source);
            &&& lanes::named_redactor(after, reference, deployment) == Some(source)
            &&& other != reference ==> lanes::named_redactor(after, other, deployment)
                == lanes::named_redactor(registry, other, deployment)
        }),
{
    let name = "urn:sutra:"@ + "redactor"@ + ":"@ + reference + ":"@ + deployment;
    keyed::lookup_put(registry, name, source, name);
    let away = "urn:sutra:"@ + "redactor"@ + ":"@ + other + ":"@ + deployment;
    keyed::lookup_put(registry, name, source, away);
    plan_laws::names_tell_artifacts_apart("redactor"@, reference, other, deployment);
}

} // verus!
