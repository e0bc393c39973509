//! Activation: what a flip of the engine to another set of deployments carries with it.
//!
//! Everything that a flip needs is computed before the lanes are swapped. Only once every lane has
//! swapped do the live set, the timer schedules and the transports follow; a flip that fails leaves
//! them as they were.

use vstd::prelude::*;

use crate::assembly::{DeploymentPlan, PlanView};
use crate::deploy;
use crate::engine::{ProcessPaths, ProcessPathsView};
use crate::engine;
use crate::graph::DeploymentNodeIndex;
use crate::json::Json;
use crate::keyed::{TextMap, TextSet};
use crate::metrics::InitialCoverage;
use crate::metrics;
use crate::registries::SharedRegistries;
use crate::registries;
use crate::schedules::{ArmingView, TimerScheduleArming, TimerStart};
use crate::schedules;
use crate::status::{DeploymentStatusSnapshot, SnapshotView};
use crate::status;
use crate::text;
use crate::transports::{ChannelDefinition, ChannelView};

verus! {

/// A plan that becomes active, with the timers of its start events as they are at the moment of the
/// flip.
pub struct ActivePlan<'a> {
    pub plan: &'a DeploymentPlan,
    pub timers: Vec<TimerStart>,
}

/// What the plans that become active hold.
pub open spec fn becoming(v: Seq<ActivePlan>) -> Seq<PlanView> {
    v.map_values(|a: ActivePlan| a.plan@)
}

fn plans_of<'a>(v: &Vec<ActivePlan<'a>>) -> (r: Vec<&'a DeploymentPlan>)
    ensures
        registries::plans(r@) == becoming(v@),
{
    let mut out: Vec<&'a DeploymentPlan> = Vec::new();
    let mut i: usize = 0;
    while i < v.len()
        invariant
            i <= v.len(),
            out.len() == i,
            forall|k: int| 0 <= k < i ==> (*#[trigger] out@[k])@ == v@[k].plan@,
        decreases v.len() - i,
    {
        out.push(v[i].plan);
        i = i + 1;
    }
    assert(registries::plans(out@) =~= becoming(v@));
    out
}

// ---- schedules ---------------------------------------------------------------------------------

/// The schedules that a deployment arms.
pub struct ArmedSchedules {
    pub deployment: String,
    pub schedules: Vec<TimerScheduleArming>,
}

/// What a row of armed schedules holds: each deployment with its schedules.
pub open spec fn armed(v: Seq<ArmedSchedules>) -> Seq<(Seq<char>, Seq<ArmingView>)> {
    v.map_values(|a: ArmedSchedules| (a.deployment@, schedules::armings(a.schedules@)))
}

/// The schedules that each plan arms as it becomes active.
pub open spec fn arming(v: Seq<ActivePlan>) -> Seq<(Seq<char>, Seq<ArmingView>)> {
    v.map_values(
        |a: ActivePlan| (a.plan@.dep, schedules::scheduled(a.timers@, a.plan@.namespace)),
    )
}

fn arm<'a>(v: &Vec<ActivePlan<'a>>) -> (r: Vec<ArmedSchedules>)
    ensures
        armed(r@) == arming(v@),
{
    let mut out: Vec<ArmedSchedules> = Vec::new();
    let mut i: usize = 0;
    while i < v.len()
        invariant
            i <= v.len(),
            armed(out@) == arming(v@).take(i as int),
        decreases v.len() - i,
    {
        let a = &v[i];
        let ghost prior = armed(out@);
        let e = ArmedSchedules {
            deployment: a.plan.dep.clone(),
            schedules: a.plan.timer_schedules(&a.timers),
        };
        out.push(e);
        assert(armed(out@) =~= prior.push(arming(v@)[i as int]));
        assert(arming(v@).take(i + 1) =~= arming(v@).take(i as int).push(arming(v@)[i as int]));
        i = i + 1;
    }
    assert(arming(v@).take(v.len() as int) =~= arming(v@));
    out
}

// ---- coverage ----------------------------------------------------------------------------------

/// The coverage paths that a deployment seeds.
pub struct CoverageSeed {
    pub deployment: String,
    pub processes: Vec<ProcessPaths>,
}

/// What a row of seeds holds.
pub open spec fn seeded(v: Seq<CoverageSeed>) -> Seq<(Seq<char>, Seq<ProcessPathsView>)> {
    v.map_values(|s: CoverageSeed| (s.deployment@, engine::process_paths(s.processes@)))
}

/// What these deployments seed: the declared paths of those that have a coverage store.
pub open spec fn seeds(v: Seq<PlanView>) -> Seq<(Seq<char>, Seq<ProcessPathsView>)>
    decreases v.len(),
{
    if v.len() == 0 {
        Seq::empty()
    } else {
        let rest = seeds(v.drop_last());
        if v.last().coverage {
            rest.push((v.last().dep, engine::declared_by(v.last().modules)))
        } else {
            rest
        }
    }
}

/// What these deployments seed in their coverage stores.
pub fn seed_declared_coverage(plans: &Vec<&DeploymentPlan>) -> (r: Vec<CoverageSeed>)
    ensures
        seeded(r@) == seeds(registries::plans(plans@)),
{
    let ghost all = registries::plans(plans@);
    let mut out: Vec<CoverageSeed> = Vec::new();
    let mut i: usize = 0;
    assert(seeded(out@) =~= seeds(all.take(0)));
    while i < plans.len()
        invariant
            i <= plans.len(),
            all == registries::plans(plans@),
            seeded(out@) == seeds(all.take(i as int)),
        decreases plans.len() - i,
    {
        let plan: &DeploymentPlan = plans[i];
        let ghost prior = seeded(out@);
        assert(all.take(i + 1).drop_last() =~= all.take(i as int));
        assert(all.take(i + 1).last() == plan@);
        if plan.coverage {
            let s = CoverageSeed {
                deployment: plan.dep.clone(),
                processes: engine::coverage_seed(plan),
            };
            let ghost v = (s.deployment@, engine::process_paths(s.processes@));
            out.push(s);
            assert(seeded(out@) =~= prior.push(v));
        }
        i = i + 1;
    }
    assert(all.take(plans.len() as int) =~= all);
    out
}

/// What a store answered about the flags of a process; a store that failed flags nothing.
pub open spec fn flags(answer: Result<TextSet, String>) -> Seq<Seq<char>> {
    match answer {
        Ok(s) => s@,
        Err(_) => Seq::empty(),
    }
}

/// What a process of a deployment has covered already, from what its store answered. `flag_urn`
/// gives the flag that the store keeps for a declared path.
pub fn initial_coverage<F: Fn(&str) -> String>(
    deployment: &str,
    process: &ProcessPaths,
    flagged: &Result<TextSet, String>,
    flag_urn: &F,
) -> (r: InitialCoverage)
    requires
        forall|p: &str| call_requires(flag_urn, (p,)),
    ensures
        r.deployment_id@ == deployment@,
        r.process_id@ == process.process_id@,
        forall|urn: spec_fn(Seq<char>) -> Seq<char>|
            (forall|p: &str, u: String| #[trigger] call_ensures(flag_urn, (p,), u) ==> u@ == urn(p@))
                ==> r.covered@ == #[trigger] metrics::covered_among(
                text::texts(process.paths@),
                flags(*flagged),
                urn,
            ),
{
    let covered = match flagged {
        Ok(s) => metrics::covered_paths_of(&process.paths, s, flag_urn),
        Err(_) => metrics::covered_paths_of(&process.paths, &TextSet::new(), flag_urn),
    };
    InitialCoverage {
        deployment_id: deployment.to_owned(),
        process_id: process.process_id.clone(),
        covered,
    }
}

// ---- the flip ----------------------------------------------------------------------------------

/// What a flip carries with it.
pub struct Activation<'a> {
    /// The channels that every transport is rewired to.
    pub definitions: Vec<&'a ChannelDefinition>,
    /// The schedules that are armed.
    pub schedules: Vec<ArmedSchedules>,
    /// The deployments whose schedules are resolved.
    pub obsolete: Vec<String>,
    /// The coverage paths that are seeded and read back.
    pub seeds: Vec<CoverageSeed>,
    /// The registries that every lane shares.
    pub registries: SharedRegistries<'a>,
}

/// Whether an activation serves the channels of the active ones alone, arms them, and registers and
/// seeds the draining ones with them.
pub open spec fn activates(
    r: Activation,
    active: Seq<ActivePlan>,
    draining: Seq<PlanView>,
    served: Seq<Seq<char>>,
) -> bool {
    let a = becoming(active);
    &&& engine::borrowed(r.definitions@) == engine::all_channels(a)
    &&& armed(r.schedules@) == arming(active)
    &&& text::texts(r.obsolete@) == schedules::obsolete(
        served,
        engine::ids(draining),
        engine::ids(a),
    )
    &&& seeded(r.seeds@) == seeds(a + draining)
    &&& r.registries@ == registries::registries(a + draining)
}

/// Compute what a flip carries with it. `served` are the deployments that served until now.
pub fn activate_plans<'a>(
    active: &Vec<ActivePlan<'a>>,
    draining: &Vec<&'a DeploymentPlan>,
    served: &Vec<String>,
) -> (r: Activation<'a>)
    ensures
        ({
            let a = becoming(active@);
            let d = registries::plans(draining@);
            &&& engine::borrowed(r.definitions@) == engine::all_channels(a)
            &&& armed(r.schedules@) == arming(active@)
            &&& text::texts(r.obsolete@) == schedules::obsolete(
                text::texts(served@),
                engine::ids(d),
                engine::ids(a),
            )
            &&& seeded(r.seeds@) == seeds(a + d)
            &&& r.registries@ == registries::registries(a + d)
        }),
        activates(r, active@, registries::plans(draining@), text::texts(served@)),
{
    let plans = plans_of(active);
    Activation {
        definitions: engine::plan_channels(&plans),
        schedules: arm(active),
        obsolete: schedules::obsolete_schedules(
            served,
            &engine::plan_ids(draining),
            &engine::plan_ids(&plans),
        ),
        seeds: seed_declared_coverage(&registries::joined(&plans, draining)),
        registries: registries::build_shared_registries(&plans, draining),
    }
}

/// No deployment's schedules are armed and resolved by one flip.
pub proof fn armed_schedules_are_not_resolved(
    active: Seq<ActivePlan>,
    draining: Seq<PlanView>,
    served: Seq<Seq<char>>,
    i: int,
)
    requires
        0 <= i < active.len(),
    ensures
        !schedules::obsolete(served, engine::ids(draining), engine::ids(becoming(active))).contains(
            arming(active)[i].0,
        ),
{
    let id = arming(active)[i].0;
    assert(engine::ids(becoming(active))[i] == id);
    schedules::schedules_follow_the_active(
        served,
        engine::ids(draining),
        engine::ids(becoming(active)),
        id,
    );
}

/// What follows a flip that succeeded.
pub enum FlipStep<'a> {
    /// Arm the schedules of a deployment.
    Arm(ArmedSchedules),
    /// Resolve the schedules of a deployment.
    Resolve(String),
    /// Rewire every transport to these channels.
    Rewire(Vec<&'a ChannelDefinition>),
}

/// The contents of a [`FlipStep`].
pub enum FlipStepView {
    Arm(Seq<char>, Seq<ArmingView>),
    Resolve(Seq<char>),
    Rewire(Seq<ChannelView>),
}

impl<'a> View for FlipStep<'a> {
    type V = FlipStepView;

    open spec fn view(&self) -> FlipStepView {
        match self {
            FlipStep::Arm(a) => FlipStepView::Arm(
                a.deployment@,
                schedules::armings(a.schedules@),
            ),
            FlipStep::Resolve(id) => FlipStepView::Resolve(id@),
            FlipStep::Rewire(defs) => FlipStepView::Rewire(engine::borrowed(defs@)),
        }
    }
}

/// What a row of steps holds.
pub open spec fn steps(v: Seq<FlipStep>) -> Seq<FlipStepView> {
    v.map_values(|s: FlipStep| s@)
}

/// The steps that follow a flip that succeeded, in order: with a store of schedules, arm those of
/// the active deployments and resolve those of the obsolete ones; then rewire the transports.
pub open spec fn following(a: Activation, stored: bool) -> Seq<FlipStepView> {
    let reconciled = if stored {
        armed(a.schedules@).map_values(
            |e: (Seq<char>, Seq<ArmingView>)| FlipStepView::Arm(e.0, e.1),
        ) + text::texts(a.obsolete@).map_values(|id: Seq<char>| FlipStepView::Resolve(id))
    } else {
        Seq::empty()
    };
    reconciled.push(FlipStepView::Rewire(engine::borrowed(a.definitions@)))
}

fn follow<'a>(activation: Activation<'a>, stored: bool) -> (r: Vec<FlipStep<'a>>)
    ensures
        steps(r@) == following(activation, stored),
{
    let ghost arms = armed(activation.schedules@).map_values(
        |e: (Seq<char>, Seq<ArmingView>)| FlipStepView::Arm(e.0, e.1),
    );
    let ghost resolves = text::texts(activation.obsolete@).map_values(
        |id: Seq<char>| FlipStepView::Resolve(id),
    );
    let mut out: Vec<FlipStep<'a>> = Vec::new();
    assert(steps(out@) =~= Seq::empty());
    if stored {
        let mut schedules = activation.schedules;
        let ghost all = schedules@;
        let ghost mut n: int = 0;
        assert(all.skip(0) =~= all);
        while schedules.len() > 0
            invariant
                0 <= n <= all.len(),
                schedules@ == all.skip(n),
                arms == armed(all).map_values(
                    |e: (Seq<char>, Seq<ArmingView>)| FlipStepView::Arm(e.0, e.1),
                ),
                steps(out@) == arms.take(n),
            decreases schedules@.len(),
        {
            let ghost prior = steps(out@);
            assert(schedules@[0] == all[n]);
            let first = schedules.remove(0);
            out.push(FlipStep::Arm(first));
            assert(steps(out@) =~= prior.push(arms[n]));
            assert(arms.take(n + 1) =~= arms.take(n).push(arms[n]));
            assert(schedules@ =~= all.skip(n + 1));
            proof {
                n = n + 1;
            }
        }
        assert(arms.take(n) =~= arms);
        let obsolete = activation.obsolete;
        let mut j: usize = 0;
        assert(arms + resolves.take(0) =~= arms);
        while j < obsolete.len()
            invariant
                j <= obsolete.len(),
                resolves == text::texts(obsolete@).map_values(
                    |id: Seq<char>| FlipStepView::Resolve(id),
                ),
                steps(out@) == arms + resolves.take(j as int),
            decreases obsolete.len() - j,
        {
            let ghost prior = steps(out@);
            out.push(FlipStep::Resolve(obsolete[j].clone()));
            assert(steps(out@) =~= prior.push(resolves[j as int]));
            assert(arms + resolves.take(j + 1) =~= (arms + resolves.take(j as int)).push(
                resolves[j as int],
            ));
            j = j + 1;
        }
        assert(resolves.take(obsolete.len() as int) =~= resolves);
    }
    let ghost prior = steps(out@);
    let rewire = FlipStep::Rewire(activation.definitions);
    let ghost last = rewire@;
    out.push(rewire);
    assert(steps(out@) =~= prior.push(last));
    out
}

/// The deployments that the background loops cover.
pub struct LiveDeployments {
    ids: Vec<String>,
}

impl View for LiveDeployments {
    type V = Seq<Seq<char>>;

    closed spec fn view(&self) -> Seq<Seq<char>> {
        text::texts(self.ids@)
    }
}

impl LiveDeployments {
    /// These deployments.
    pub fn new(ids: Vec<String>) -> (r: LiveDeployments)
        ensures
            r@ == text::texts(ids@),
    {
        LiveDeployments { ids }
    }

    /// The deployments that are live now.
    pub fn snapshot(&self) -> (r: Vec<String>)
        ensures
            text::texts(r@) == self@,
    {
        text::copy_texts(&self.ids)
    }

    /// Settle a flip by what swapping the lanes answered, a code and a message where it failed. A
    /// flip that succeeded makes its deployments the live ones, and its steps follow; one that failed
    /// leaves the live ones as they were, and nothing follows. `stored` is whether there is a store
    /// of schedules.
    pub fn settle<'a>(
        &mut self,
        live: Vec<String>,
        swapped: &Result<(), (String, String)>,
        activation: Activation<'a>,
        stored: bool,
    ) -> (r: Result<Vec<FlipStep<'a>>, String>)
        ensures
            match *swapped {
                Ok(_) => {
                    &&& r matches Ok(v) && steps(v@) == following(activation, stored)
                    &&& final(self)@ == text::texts(live@)
                },
                Err(d) => {
                    &&& r matches Err(e) && e@ == "["@ + d.0@ + "] "@ + d.1@
                    &&& final(self)@ == old(self)@
                },
            },
    {
        match swapped {
            Ok(_) => {
                self.ids = live;
                Ok(follow(activation, stored))
            },
            Err(d) => Err(text::text4("[", &d.0, "] ", &d.1)),
        }
    }
}

// ---- from the archive store --------------------------------------------------------------------

/// What is served once the engine was flipped to what the archive store holds.
pub struct StoreActivation {
    /// The deployments that the background loops cover.
    pub live_ids: Vec<String>,
    pub specs: TextMap<Json>,
    pub node_indexes: TextMap<DeploymentNodeIndex>,
    pub status: DeploymentStatusSnapshot,
}

/// Whether what an engine serves from its store is made of these plans.
pub open spec fn reactivates(
    r: StoreActivation,
    status: SnapshotView,
    rows: Seq<(Seq<char>, Seq<char>)>,
    active: Seq<PlanView>,
    draining: Seq<PlanView>,
) -> bool {
    &&& text::texts(r.live_ids@) == engine::ids(active + draining)
    &&& r.specs@ == deploy::api_surfaces(active + draining)
    &&& r.node_indexes@ == deploy::indexes(active + draining)
    &&& r.status@ == status::reactivated(status, rows, engine::ids(active), engine::ids(draining))
}

/// What is served once the engine was flipped to what the archive store holds. `rows` are the
/// store's active rows with their slots; `active` and `draining` the plans that could be made of its
/// rows; `status` the snapshot until now. The draining tail is live: its pinned instances fire timers
/// and emit, and its surface and its graphs can be asked for.
pub fn reactivate_from_store(
    status: &DeploymentStatusSnapshot,
    rows: &Vec<(String, String)>,
    active: &Vec<&DeploymentPlan>,
    draining: &Vec<&DeploymentPlan>,
) -> (r: StoreActivation)
    ensures
        ({
            let a = registries::plans(active@);
            let d = registries::plans(draining@);
            &&& text::texts(r.live_ids@) == engine::ids(a + d)
            &&& r.specs@ == deploy::api_surfaces(a + d)
            &&& r.node_indexes@ == deploy::indexes(a + d)
            &&& r.status@ == status::reactivated(
                status@,
                text::pairs(rows@),
                engine::ids(a),
                engine::ids(d),
            )
        }),
        reactivates(
            r,
            status@,
            text::pairs(rows@),
            registries::plans(active@),
            registries::plans(draining@),
        ),
{
    let both = registries::joined(active, draining);
    StoreActivation {
        live_ids: engine::plan_ids(&both),
        specs: deploy::plan_specs(&both),
        node_indexes: deploy::plan_indexes(&both),
        status: status::reactivate(
            status,
            rows,
            &engine::plan_ids(active),
            &engine::plan_ids(draining),
        ),
    }
}

} // verus!
