//! What the lifecycle meters carry as dimensions, and the coverage gauge's state.
//!
//! Every meter carries the deployment; instance and coverage meters add the allowed labels, token
//! meters the node, task meters the task. None carries the instance.

use vstd::prelude::*;

use crate::keyed;
use crate::keyed::{TextMap, TextSet};
use crate::sources;
use crate::text;

verus! {

pub const METRIC_INSTANCE_STARTED: &'static str = "sutra.instance.started";

pub const METRIC_INSTANCE_COMPLETED: &'static str = "sutra.instance.completed";

pub const METRIC_INSTANCE_SUSPENDED: &'static str = "sutra.instance.suspended";

pub const METRIC_INSTANCE_RESUMED: &'static str = "sutra.instance.resumed";

pub const METRIC_TOKEN_ENTERED: &'static str = "sutra.token.entered";

pub const METRIC_TOKEN_LEFT: &'static str = "sutra.token.left";

pub const METRIC_TASK_INVOKED: &'static str = "sutra.task.invoked";

pub const METRIC_TASK_COMPLETED: &'static str = "sutra.task.completed";

pub const METRIC_TASK_FAILED: &'static str = "sutra.task.failed";

pub const METRIC_TASK_DURATION: &'static str = "sutra.task.duration";

pub const METRIC_COVERAGE_PATH_COVERED: &'static str = "sutra.coverage.path_covered";

pub const METRIC_COVERAGE_PERCENT: &'static str = "sutra.coverage.percent";

pub const ATTR_DEPLOYMENT_ID: &'static str = "deployment.id";

pub const ATTR_PROCESS_ID: &'static str = "process.id";

pub const ATTR_NODE_TYPE: &'static str = "node.type";

pub const ATTR_NODE_ID: &'static str = "node.id";

pub const ATTR_TASK_NAME: &'static str = "task.name";

pub const ATTR_TENANT: &'static str = "tenant";

pub const ATTR_MODULE: &'static str = "module";

pub const ATTR_VERSION: &'static str = "version";

/// The dimensions of a measurement: names with values, in order.
pub type Attrs = Seq<(Seq<char>, Seq<char>)>;

/// What a row of dimensions holds.
pub open spec fn attrs_view(v: Seq<(String, String)>) -> Attrs {
    v.map_values(|a: (String, String)| (a.0@, a.1@))
}

/// Something that happened to an instance.
pub struct InstanceEvent {
    pub deployment_id: String,
    pub labels: TextMap<String>,
    pub instance_id: String,
    pub process_id: String,
}

/// The contents of an [`InstanceEvent`].
pub struct InstanceEventView {
    pub deployment_id: Seq<char>,
    pub labels: Seq<(Seq<char>, Seq<char>)>,
    pub instance_id: Seq<char>,
    pub process_id: Seq<char>,
}

impl View for InstanceEvent {
    type V = InstanceEventView;

    open spec fn view(&self) -> InstanceEventView {
        InstanceEventView {
            deployment_id: self.deployment_id@,
            labels: self.labels@,
            instance_id: self.instance_id@,
            process_id: self.process_id@,
        }
    }
}

/// A token that came to a node or left it.
pub struct TokenEvent {
    pub deployment_id: String,
    pub instance_id: String,
    pub node_id: String,
    pub node_type: String,
}

/// A task that ran.
pub struct TaskEvent {
    pub deployment_id: String,
    pub instance_id: String,
    pub task_name: String,
    pub duration_nanos: u64,
}

/// The deployment, and those of the first `n` allowed labels that the event has.
pub open spec fn instance_dims(labels: Seq<Seq<char>>, n: int, e: InstanceEventView) -> Attrs
    decreases n,
{
    if n <= 0 {
        seq![(ATTR_DEPLOYMENT_ID@, e.deployment_id)]
    } else {
        let prior = instance_dims(labels, n - 1, e);
        match keyed::lookup(e.labels, labels[n - 1]) {
            Some(v) => prior.push((labels[n - 1], v)),
            None => prior,
        }
    }
}

/// A token meter's dimensions.
pub open spec fn token_dims(deployment: Seq<char>, node_type: Seq<char>, node: Seq<char>) -> Attrs {
    seq![
        (ATTR_DEPLOYMENT_ID@, deployment),
        (ATTR_NODE_TYPE@, node_type),
        (ATTR_NODE_ID@, node),
    ]
}

/// A task meter's dimensions.
pub open spec fn task_dims(deployment: Seq<char>, task: Seq<char>) -> Attrs {
    seq![(ATTR_DEPLOYMENT_ID@, deployment), (ATTR_TASK_NAME@, task)]
}

/// One dimension, where it has a value.
pub open spec fn dim(name: Seq<char>, v: Option<Seq<char>>) -> Attrs {
    match v {
        Some(s) => if s.len() > 0 {
            seq![(name, s)]
        } else {
            Seq::empty()
        },
        None => Seq::empty(),
    }
}

/// The coverage gauge's dimensions: the deployment and the process always, and the namespace as far
/// as it is known.
pub open spec fn coverage_dims(
    deployment: Seq<char>,
    process: Seq<char>,
    tenant: Option<Seq<char>>,
    module: Option<Seq<char>>,
    version: Option<Seq<char>>,
) -> Attrs {
    seq![(ATTR_DEPLOYMENT_ID@, deployment), (ATTR_PROCESS_ID@, process)] + dim(
        ATTR_TENANT@,
        tenant,
    ) + dim(ATTR_MODULE@, module) + dim(ATTR_VERSION@, version)
}

/// The instance never becomes a dimension: two events that differ in nothing but the instance carry
/// the same dimensions.
pub proof fn instance_is_no_dimension(
    labels: Seq<Seq<char>>,
    n: int,
    a: InstanceEventView,
    b: InstanceEventView,
)
    requires
        a.deployment_id == b.deployment_id,
        a.labels == b.labels,
    ensures
        instance_dims(labels, n, a) == instance_dims(labels, n, b),
    decreases n,
{
    if n > 0 {
        instance_is_no_dimension(labels, n - 1, a, b);
    }
}

/// The first dimension is the deployment, and every other one is an allowed label.
pub proof fn dimensions_are_allowed(labels: Seq<Seq<char>>, n: int, e: InstanceEventView)
    requires
        0 <= n <= labels.len(),
    ensures
        instance_dims(labels, n, e).len() >= 1,
        instance_dims(labels, n, e)[0] == (ATTR_DEPLOYMENT_ID@, e.deployment_id),
        forall|i: int|
            1 <= i < instance_dims(labels, n, e).len() ==> labels.contains(
                (#[trigger] instance_dims(labels, n, e)[i]).0,
            ),
    decreases n,
{
    if n > 0 {
        dimensions_are_allowed(labels, n - 1, e);
        assert(labels.contains(labels[n - 1]));
        let prior = instance_dims(labels, n - 1, e);
        assert forall|i: int| 1 <= i < instance_dims(labels, n, e).len() implies labels.contains(
            (#[trigger] instance_dims(labels, n, e)[i]).0,
        ) by {
            if i < prior.len() {
                assert(prior[i] == instance_dims(labels, n, e)[i]);
            }
        }
    }
}

// ---- coverage ----------------------------------------------------------------------------------

/// A process's coverage metadata.
pub struct CoverageMeta {
    pub deployment_id: String,
    pub process_id: String,
    /// The declared coverage path ids.
    pub declared_paths: Vec<String>,
    pub tenant: Option<String>,
    pub module: Option<String>,
    pub version: Option<String>,
}

/// The contents of a [`CoverageMeta`].
pub struct CoverageMetaView {
    pub deployment_id: Seq<char>,
    pub process_id: Seq<char>,
    pub declared_paths: Seq<Seq<char>>,
    pub tenant: Option<Seq<char>>,
    pub module: Option<Seq<char>>,
    pub version: Option<Seq<char>>,
}

impl View for CoverageMeta {
    type V = CoverageMetaView;

    open spec fn view(&self) -> CoverageMetaView {
        CoverageMetaView {
            deployment_id: self.deployment_id@,
            process_id: self.process_id@,
            declared_paths: text::texts(self.declared_paths@),
            tenant: sources::opt(self.tenant),
            module: sources::opt(self.module),
            version: sources::opt(self.version),
        }
    }
}

/// One process's gauge state.
pub struct CoverageState {
    pub deployment_id: String,
    pub process_id: String,
    pub declared_paths: Vec<String>,
    pub covered: TextSet,
    pub attrs: Vec<(String, String)>,
}

/// The contents of a [`CoverageState`].
pub struct CoverageStateView {
    pub deployment_id: Seq<char>,
    pub process_id: Seq<char>,
    pub declared_paths: Seq<Seq<char>>,
    pub covered: Seq<Seq<char>>,
    pub attrs: Attrs,
}

impl View for CoverageState {
    type V = CoverageStateView;

    open spec fn view(&self) -> CoverageStateView {
        CoverageStateView {
            deployment_id: self.deployment_id@,
            process_id: self.process_id@,
            declared_paths: text::texts(self.declared_paths@),
            covered: self.covered@,
            attrs: attrs_view(self.attrs@),
        }
    }
}

/// One gauge record: how many of how many paths are covered, on which series.
pub struct CoveragePoint {
    pub covered: usize,
    pub total: usize,
    pub attrs: Vec<(String, String)>,
}

/// The contents of a [`CoveragePoint`].
pub struct CoveragePointView {
    pub covered: nat,
    pub total: nat,
    pub attrs: Attrs,
}

impl View for CoveragePoint {
    type V = CoveragePointView;

    open spec fn view(&self) -> CoveragePointView {
        CoveragePointView {
            covered: self.covered as nat,
            total: self.total as nat,
            attrs: attrs_view(self.attrs@),
        }
    }
}

impl CoverageStateView {
    /// The record of this state; none where no path is declared.
    pub open spec fn point(self) -> Option<CoveragePointView> {
        if self.declared_paths.len() == 0 {
            None
        } else {
            Some(
                CoveragePointView {
                    covered: self.covered.len(),
                    total: self.declared_paths.len(),
                    attrs: self.attrs,
                },
            )
        }
    }

    /// This state with one more path covered.
    pub open spec fn cover(self, path: Seq<char>) -> CoverageStateView {
        CoverageStateView { covered: keyed::added(self.covered, path), ..self }
    }

    /// This state with those of its declared paths covered that `seen` holds.
    pub open spec fn seed(self, seen: Seq<Seq<char>>) -> CoverageStateView {
        CoverageStateView {
            covered: seed_covered(
                self.covered,
                self.declared_paths,
                seen,
                self.declared_paths.len() as int,
            ),
            ..self
        }
    }

    /// Whether this is the state of a process.
    pub open spec fn is_of(self, deployment: Seq<char>, process: Seq<char>) -> bool {
        self.deployment_id == deployment && self.process_id == process
    }
}

/// `covered` with those of the first `n` of `declared` added that `seen` holds.
pub open spec fn seed_covered(
    covered: Seq<Seq<char>>,
    declared: Seq<Seq<char>>,
    seen: Seq<Seq<char>>,
    n: int,
) -> Seq<Seq<char>>
    decreases n,
{
    if n <= 0 {
        covered
    } else {
        let prior = seed_covered(covered, declared, seen, n - 1);
        if seen.contains(declared[n - 1]) {
            keyed::added(prior, declared[n - 1])
        } else {
            prior
        }
    }
}

/// What a row of states holds.
pub open spec fn states_view(v: Seq<CoverageState>) -> Seq<CoverageStateView> {
    v.map_values(|s: CoverageState| s@)
}

/// The fresh state of a process: nothing covered.
pub open spec fn fresh(m: CoverageMetaView) -> CoverageStateView {
    CoverageStateView {
        deployment_id: m.deployment_id,
        process_id: m.process_id,
        declared_paths: m.declared_paths,
        covered: Seq::empty(),
        attrs: coverage_dims(m.deployment_id, m.process_id, m.tenant, m.module, m.version),
    }
}

/// The place of a process among states, or their number.
pub open spec fn place_of(
    states: Seq<CoverageStateView>,
    deployment: Seq<char>,
    process: Seq<char>,
) -> int
    decreases states.len(),
{
    if states.len() == 0 || states[0].is_of(deployment, process) {
        0
    } else {
        1 + place_of(states.drop_first(), deployment, process)
    }
}

/// The states of processes in the order they were first named; the last metadata of a process
/// stands.
pub open spec fn wired(metas: Seq<CoverageMetaView>) -> Seq<CoverageStateView>
    decreases metas.len(),
{
    if metas.len() == 0 {
        Seq::empty()
    } else {
        let prior = wired(metas.drop_last());
        let m = metas.last();
        let at = place_of(prior, m.deployment_id, m.process_id);
        if 0 <= at < prior.len() {
            prior.update(at, fresh(m))
        } else {
            prior.push(fresh(m))
        }
    }
}

/// What a covered set already known for a process looks like.
pub struct InitialCoverage {
    pub deployment_id: String,
    pub process_id: String,
    pub covered: TextSet,
}

/// The covered set known for a process, where one is.
pub open spec fn known(
    initial: Seq<InitialCoverage>,
    deployment: Seq<char>,
    process: Seq<char>,
) -> Option<Seq<Seq<char>>>
    decreases initial.len(),
{
    if initial.len() == 0 {
        None
    } else if initial[0].deployment_id@ == deployment && initial[0].process_id@ == process {
        Some(initial[0].covered@)
    } else {
        known(initial.drop_first(), deployment, process)
    }
}

/// A state with what is already known of it covered.
pub open spec fn seeded(s: CoverageStateView, initial: Seq<InitialCoverage>) -> CoverageStateView {
    match known(initial, s.deployment_id, s.process_id) {
        Some(seen) => s.seed(seen),
        None => s,
    }
}

/// The records of states, in their order; a state without declared paths has none.
pub open spec fn points(states: Seq<CoverageStateView>) -> Seq<CoveragePointView>
    decreases states.len(),
{
    if states.len() == 0 {
        Seq::empty()
    } else {
        let prior = points(states.drop_last());
        match states.last().point() {
            Some(p) => prior.push(p),
            None => prior,
        }
    }
}

/// What a row of records holds.
pub open spec fn points_view(v: Seq<CoveragePoint>) -> Seq<CoveragePointView> {
    v.map_values(|p: CoveragePoint| p@)
}

/// Covering a path keeps every path that was covered, adds no other, and covering it again changes
/// nothing.
pub proof fn coverage_only_grows(s: CoverageStateView, path: Seq<char>, other: Seq<char>)
    ensures
        s.cover(path).covered.contains(other) == (other == path || s.covered.contains(other)),
        s.covered.len() <= s.cover(path).covered.len() <= s.covered.len() + 1,
        s.cover(path).cover(path) == s.cover(path),
        s.cover(path).declared_paths == s.declared_paths,
        s.cover(path).attrs == s.attrs,
{
    keyed::added_contains(s.covered, path, other);
    keyed::added_grows(s.covered, path);
    keyed::added_twice(s.covered, path);
}

proof fn seed_covers(
    covered: Seq<Seq<char>>,
    declared: Seq<Seq<char>>,
    seen: Seq<Seq<char>>,
    n: int,
    path: Seq<char>,
)
    requires
        0 <= n <= declared.len(),
    ensures
        seed_covered(covered, declared, seen, n).contains(path) == (covered.contains(path) || (
        seen.contains(path) && exists|i: int| 0 <= i < n && (#[trigger] declared[i]) == path)),
    decreases n,
{
    if n > 0 {
        seed_covers(covered, declared, seen, n - 1, path);
        keyed::added_contains(
            seed_covered(covered, declared, seen, n - 1),
            declared[n - 1],
            path,
        );
    }
}

/// After the initial record exactly those paths are covered that were before, and the declared ones
/// that were already known as covered.
pub proof fn seeding_covers_the_known(
    s: CoverageStateView,
    initial: Seq<InitialCoverage>,
    path: Seq<char>,
)
    ensures
        seeded(s, initial).covered.contains(path) == (s.covered.contains(path) || match known(
            initial,
            s.deployment_id,
            s.process_id,
        ) {
            Some(seen) => seen.contains(path) && s.declared_paths.contains(path),
            None => false,
        }),
{
    match known(initial, s.deployment_id, s.process_id) {
        Some(seen) => {
            seed_covers(s.covered, s.declared_paths, seen, s.declared_paths.len() as int, path);
        },
        None => {},
    }
}

// ---- the listener ------------------------------------------------------------------------------

fn copy_attrs(v: &Vec<(String, String)>) -> (r: Vec<(String, String)>)
    ensures
        attrs_view(r@) == attrs_view(v@),
{
    let mut out: Vec<(String, String)> = Vec::new();
    let mut i: usize = 0;
    while i < v.len()
        invariant
            i <= v.len(),
            out.len() == i,
            forall|k: int|
                0 <= k < i ==> (#[trigger] out@[k]).0@ == v@[k].0@ && out@[k].1@ == v@[k].1@,
        decreases v.len() - i,
    {
        out.push((v[i].0.clone(), v[i].1.clone()));
        i = i + 1;
    }
    assert(attrs_view(out@) =~= attrs_view(v@));
    out
}

fn push_dim(out: &mut Vec<(String, String)>, name: &str, v: &Option<String>)
    ensures
        attrs_view(final(out)@) == attrs_view(old(out)@) + dim(name@, sources::opt(*v)),
{
    let ghost start = out@;
    match v {
        Some(s) => {
            if !s.as_str().is_empty() {
                out.push((name.to_owned(), s.clone()));
            }
        },
        None => {},
    }
    assert(attrs_view(out@) =~= attrs_view(start) + dim(name@, sources::opt(*v)));
}

fn point_of(state: &CoverageState) -> (r: Option<CoveragePoint>)
    ensures
        match r {
            Some(p) => state@.point() == Some(p@),
            None => state@.point() is None,
        },
{
    if state.declared_paths.len() == 0 {
        None
    } else {
        Some(
            CoveragePoint {
                covered: state.covered.len(),
                total: state.declared_paths.len(),
                attrs: copy_attrs(&state.attrs),
            },
        )
    }
}

fn find_known<'a>(initial: &'a Vec<InitialCoverage>, deployment: &str, process: &str) -> (r: Option<
    &'a TextSet,
>)
    ensures
        match r {
            Some(s) => known(initial@, deployment@, process@) == Some(s@),
            None => known(initial@, deployment@, process@) is None,
        },
{
    let mut i: usize = 0;
    assert(initial@.skip(0) =~= initial@);
    while i < initial.len()
        invariant
            i <= initial.len(),
            known(initial@, deployment@, process@) == known(
                initial@.skip(i as int),
                deployment@,
                process@,
            ),
        decreases initial.len() - i,
    {
        assert(initial@.skip(i as int)[0] == initial@[i as int]);
        if text::same(&initial[i].deployment_id, deployment) && text::same(
            &initial[i].process_id,
            process,
        ) {
            return Some(&initial[i].covered);
        }
        assert(initial@.skip(i as int).drop_first() =~= initial@.skip(i + 1));
        i = i + 1;
    }
    None
}

fn seed_set(declared: &Vec<String>, seen: &TextSet, covered: &mut TextSet)
    ensures
        final(covered)@ == seed_covered(
            old(covered)@,
            text::texts(declared@),
            seen@,
            declared@.len() as int,
        ),
{
    let ghost start = covered@;
    let ghost d = text::texts(declared@);
    let mut i: usize = 0;
    while i < declared.len()
        invariant
            i <= declared.len(),
            d == text::texts(declared@),
            covered@ == seed_covered(start, d, seen@, i as int),
        decreases declared.len() - i,
    {
        assert(d[i as int] == declared@[i as int]@);
        if seen.contains(&declared[i]) {
            covered.insert(declared[i].clone());
        }
        i = i + 1;
    }
}

/// The gauge's dimensions for one process.
pub fn coverage_attrs(
    deployment_id: &str,
    process_id: &str,
    tenant: &Option<String>,
    module: &Option<String>,
    version: &Option<String>,
) -> (r: Vec<(String, String)>)
    ensures
        attrs_view(r@) == coverage_dims(
            deployment_id@,
            process_id@,
            sources::opt(*tenant),
            sources::opt(*module),
            sources::opt(*version),
        ),
{
    let mut out: Vec<(String, String)> = Vec::new();
    out.push((ATTR_DEPLOYMENT_ID.to_owned(), deployment_id.to_owned()));
    out.push((ATTR_PROCESS_ID.to_owned(), process_id.to_owned()));
    assert(attrs_view(out@) =~= seq![
        (ATTR_DEPLOYMENT_ID@, deployment_id@),
        (ATTR_PROCESS_ID@, process_id@),
    ]);
    push_dim(&mut out, ATTR_TENANT, tenant);
    push_dim(&mut out, ATTR_MODULE, module);
    push_dim(&mut out, ATTR_VERSION, version);
    out
}

/// Those of `declared` whose flag is among `flagged`, in the order of their ids.
pub open spec fn covered_among(
    declared: Seq<Seq<char>>,
    flagged: Seq<Seq<char>>,
    urn: spec_fn(Seq<char>) -> Seq<char>,
) -> Seq<Seq<char>>
    decreases declared.len(),
{
    if declared.len() == 0 {
        Seq::empty()
    } else {
        let prior = covered_among(declared.drop_last(), flagged, urn);
        if flagged.contains(urn(declared.last())) {
            keyed::added(prior, declared.last())
        } else {
            prior
        }
    }
}

/// Map a process's declared paths and the store's flags back to the covered paths. `flag_urn` gives
/// the flag that the store keeps for a declared path.
pub fn covered_paths_of<F: Fn(&str) -> String>(
    declared_paths: &Vec<String>,
    flagged: &TextSet,
    flag_urn: &F,
) -> (r: TextSet)
    requires
        forall|p: &str| call_requires(flag_urn, (p,)),
    ensures
        forall|urn: spec_fn(Seq<char>) -> Seq<char>|
            (forall|p: &str, u: String| #[trigger] call_ensures(flag_urn, (p,), u) ==> u@ == urn(p@))
                ==> r@ == #[trigger] covered_among(text::texts(declared_paths@), flagged@, urn),
{
    let mut out = TextSet::new();
    let ghost d = text::texts(declared_paths@);
    let mut i: usize = 0;
    while i < declared_paths.len()
        invariant
            i <= declared_paths.len(),
            d == text::texts(declared_paths@),
            forall|p: &str| call_requires(flag_urn, (p,)),
            forall|urn: spec_fn(Seq<char>) -> Seq<char>|
                (forall|p: &str, u: String| #[trigger]
                    call_ensures(flag_urn, (p,), u) ==> u@ == urn(p@)) ==> out@
                    == #[trigger] covered_among(d.take(i as int), flagged@, urn),
        decreases declared_paths.len() - i,
    {
        let path = &declared_paths[i];
        let ghost prior = out@;
        let u = flag_urn(path.as_str());
        if flagged.contains(&u) {
            out.insert(path.clone());
        }
        proof {
            let next = d.take(i + 1);
            assert(next.drop_last() =~= d.take(i as int));
            assert(next.last() == path@);
            assert forall|urn: spec_fn(Seq<char>) -> Seq<char>|
                (forall|p: &str, u: String| #[trigger]
                    call_ensures(flag_urn, (p,), u) ==> u@ == urn(p@)) implies out@
                == #[trigger] covered_among(next, flagged@, urn) by {
                assert(prior == covered_among(d.take(i as int), flagged@, urn));
                assert(u@ == urn(path@));
            }
        }
        i = i + 1;
    }
    assert(d.take(d.len() as int) =~= d);
    out
}

/// The lifecycle listener's state: the label allowlist, and the coverage of each process once the
/// gauge is wired.
pub struct OtelMetricsListener {
    labels: Vec<String>,
    wired: bool,
    coverage: Vec<CoverageState>,
}

/// The contents of an [`OtelMetricsListener`].
pub struct ListenerView {
    pub labels: Seq<Seq<char>>,
    pub wired: bool,
    pub coverage: Seq<CoverageStateView>,
}

impl View for OtelMetricsListener {
    type V = ListenerView;

    closed spec fn view(&self) -> ListenerView {
        ListenerView {
            labels: text::texts(self.labels@),
            wired: self.wired,
            coverage: states_view(self.coverage@),
        }
    }
}

/// What is measured once a path of a process is covered.
pub open spec fn after_cover(
    l: ListenerView,
    deployment: Seq<char>,
    process: Seq<char>,
    path: Seq<char>,
) -> ListenerView {
    let at = place_of(l.coverage, deployment, process);
    if l.wired && at < l.coverage.len() {
        ListenerView { coverage: l.coverage.update(at, l.coverage[at].cover(path)), ..l }
    } else {
        l
    }
}

/// What is measured once the coverage that was known is applied.
pub open spec fn after_seed(l: ListenerView, initial: Seq<InitialCoverage>) -> ListenerView {
    if l.wired {
        ListenerView {
            coverage: l.coverage.map_values(|s: CoverageStateView| seeded(s, initial)),
            ..l
        }
    } else {
        l
    }
}

impl OtelMetricsListener {
    /// A listener with its label allowlist and no coverage gauge.
    pub fn new(labels: Vec<String>) -> (r: OtelMetricsListener)
        ensures
            r@ == (ListenerView {
                labels: text::texts(labels@),
                wired: false,
                coverage: Seq::empty(),
            }),
    {
        let r = OtelMetricsListener { labels, wired: false, coverage: Vec::new() };
        assert(r@.coverage =~= Seq::empty());
        r
    }

    /// The place of a process among the states.
    fn find(&self, deployment: &str, process: &str) -> (r: usize)
        ensures
            r == place_of(self@.coverage, deployment@, process@),
            r <= self.coverage@.len(),
            self@.coverage.len() == self.coverage@.len(),
    {
        let ghost s = states_view(self.coverage@);
        let mut i: usize = 0;
        assert(s.skip(0) =~= s);
        while i < self.coverage.len()
            invariant
                i <= self.coverage.len(),
                s == states_view(self.coverage@),
                s == self@.coverage,
                place_of(s, deployment@, process@) == i + place_of(
                    s.skip(i as int),
                    deployment@,
                    process@,
                ),
            decreases self.coverage.len() - i,
        {
            assert(s.skip(i as int)[0] == self.coverage@[i as int]@);
            if text::same(&self.coverage[i].deployment_id, deployment) && text::same(
                &self.coverage[i].process_id,
                process,
            ) {
                return i;
            }
            assert(s.skip(i as int).drop_first() =~= s.skip(i + 1));
            i = i + 1;
        }
        i
    }

    /// Wire the coverage gauge with the processes' metadata.
    pub fn with_coverage(self, metas: Vec<CoverageMeta>) -> (r: OtelMetricsListener)
        ensures
            r@ == (ListenerView {
                labels: self@.labels,
                wired: true,
                coverage: wired(metas@.map_values(|m: CoverageMeta| m@)),
            }),
    {
        let ghost all = metas@.map_values(|m: CoverageMeta| m@);
        let mut out = OtelMetricsListener {
            labels: self.labels,
            wired: true,
            coverage: Vec::new(),
        };
        let mut i: usize = 0;
        assert(out@.coverage =~= Seq::empty());
        while i < metas.len()
            invariant
                i <= metas.len(),
                all == metas@.map_values(|m: CoverageMeta| m@),
                out@.labels == self@.labels,
                out@.wired,
                out@.coverage == wired(all.take(i as int)),
            decreases metas.len() - i,
        {
            let meta = &metas[i];
            let ghost next = all.take(i + 1);
            assert(next.drop_last() =~= all.take(i as int));
            assert(next.last() == meta@);
            let ghost prior = out@.coverage;
            let at = out.find(&meta.deployment_id, &meta.process_id);
            let state = CoverageState {
                deployment_id: meta.deployment_id.clone(),
                process_id: meta.process_id.clone(),
                declared_paths: text::copy_texts(&meta.declared_paths),
                covered: TextSet::new(),
                attrs: coverage_attrs(
                    &meta.deployment_id,
                    &meta.process_id,
                    &meta.tenant,
                    &meta.module,
                    &meta.version,
                ),
            };
            assert(state@ == fresh(meta@));
            if at < out.coverage.len() {
                out.coverage.set(at, state);
                assert(out@.coverage =~= prior.update(at as int, fresh(meta@)));
            } else {
                out.coverage.push(state);
                assert(out@.coverage =~= prior.push(fresh(meta@)));
            }
            i = i + 1;
        }
        assert(all.take(all.len() as int) =~= all);
        out
    }

    /// Seed each process's covered set from what is already known, and give the gauge's records.
    /// Nothing happens where the gauge is not wired.
    pub fn apply_initial_coverage(&mut self, initial: &Vec<InitialCoverage>) -> (r: Vec<
        CoveragePoint,
    >)
        ensures
            final(self)@.labels == old(self)@.labels,
            final(self)@.wired == old(self)@.wired,
            final(self)@.coverage == if old(self)@.wired {
                old(self)@.coverage.map_values(|s: CoverageStateView| seeded(s, initial@))
            } else {
                old(self)@.coverage
            },
            points_view(r@) == if old(self)@.wired {
                points(final(self)@.coverage)
            } else {
                Seq::empty()
            },
            final(self)@ == after_seed(old(self)@, initial@),
    {
        let ghost start = self@.coverage;
        let ghost labels = self@.labels;
        let mut out: Vec<CoveragePoint> = Vec::new();
        assert(points_view(out@) =~= Seq::empty());
        if !self.wired {
            return out;
        }
        let mut i: usize = 0;
        while i < self.coverage.len()
            invariant
                i <= self.coverage.len(),
                self.coverage.len() == start.len(),
                self@.labels == labels,
                self@.wired,
                self@.coverage == states_view(self.coverage@),
                forall|k: int|
                    0 <= k < i ==> (#[trigger] self@.coverage[k]) == seeded(start[k], initial@),
                forall|k: int|
                    i <= k < start.len() ==> (#[trigger] self@.coverage[k]) == start[k],
                points_view(out@) == points(self@.coverage.take(i as int)),
            decreases self.coverage.len() - i,
        {
            let ghost before_step = self@.coverage;
            assert(self@.coverage[i as int] == start[i as int]);
            assert(self.coverage@[i as int]@ == start[i as int]);
            let deployment_id = self.coverage[i].deployment_id.clone();
            let process_id = self.coverage[i].process_id.clone();
            let declared_paths = text::copy_texts(&self.coverage[i].declared_paths);
            let attrs = copy_attrs(&self.coverage[i].attrs);
            let mut covered = self.coverage[i].covered.duplicate();
            let seen = find_known(initial, &deployment_id, &process_id);
            match seen {
                Some(known_set) => {
                    seed_set(&declared_paths, known_set, &mut covered);
                },
                None => {},
            }
            let state = CoverageState {
                deployment_id,
                process_id,
                declared_paths,
                covered,
                attrs,
            };
            assert(state@ == seeded(start[i as int], initial@));
            let point = point_of(&state);
            self.coverage.set(i, state);
            assert(self@.coverage =~= before_step.update(i as int, seeded(start[i as int], initial@)));
            proof {
                let next = self@.coverage.take(i + 1);
                assert(next.drop_last() =~= before_step.take(i as int));
                assert(next.last() == seeded(start[i as int], initial@));
            }
            match point {
                Some(p) => {
                    let ghost prior = out@;
                    out.push(p);
                    assert(points_view(out@) =~= points_view(prior).push(p@));
                },
                None => {},
            }
            i = i + 1;
        }
        assert(self@.coverage =~= start.map_values(|s: CoverageStateView| seeded(s, initial@)));
        assert(self@.coverage.take(start.len() as int) =~= self@.coverage);
        out
    }

    /// The deployment and the allowed labels of an instance event.
    pub fn instance_attrs(&self, event: &InstanceEvent) -> (r: Vec<(String, String)>)
        ensures
            attrs_view(r@) == instance_dims(self@.labels, self@.labels.len() as int, event@),
    {
        let ghost l = self@.labels;
        let mut out: Vec<(String, String)> = Vec::new();
        out.push((ATTR_DEPLOYMENT_ID.to_owned(), event.deployment_id.clone()));
        assert(attrs_view(out@) =~= seq![(ATTR_DEPLOYMENT_ID@, event.deployment_id@)]);
        let mut i: usize = 0;
        while i < self.labels.len()
            invariant
                i <= self.labels.len(),
                l == text::texts(self.labels@),
                attrs_view(out@) == instance_dims(l, i as int, event@),
            decreases self.labels.len() - i,
        {
            assert(l[i as int] == self.labels@[i as int]@);
            match event.labels.get(&self.labels[i]) {
                Some(v) => {
                    let ghost prior = out@;
                    let pair = (self.labels[i].clone(), v.clone());
                    out.push(pair);
                    assert(attrs_view(out@) =~= attrs_view(prior).push((l[i as int], v@)));
                },
                None => {},
            }
            i = i + 1;
        }
        out
    }

    /// A token meter's dimensions.
    pub fn token_attrs(&self, event: &TokenEvent) -> (r: Vec<(String, String)>)
        ensures
            attrs_view(r@) == token_dims(event.deployment_id@, event.node_type@, event.node_id@),
    {
        let mut out: Vec<(String, String)> = Vec::new();
        out.push((ATTR_DEPLOYMENT_ID.to_owned(), event.deployment_id.clone()));
        out.push((ATTR_NODE_TYPE.to_owned(), event.node_type.clone()));
        out.push((ATTR_NODE_ID.to_owned(), event.node_id.clone()));
        assert(attrs_view(out@) =~= token_dims(
            event.deployment_id@,
            event.node_type@,
            event.node_id@,
        ));
        out
    }

    /// A task meter's dimensions.
    pub fn task_attrs(&self, event: &TaskEvent) -> (r: Vec<(String, String)>)
        ensures
            attrs_view(r@) == task_dims(event.deployment_id@, event.task_name@),
    {
        let mut out: Vec<(String, String)> = Vec::new();
        out.push((ATTR_DEPLOYMENT_ID.to_owned(), event.deployment_id.clone()));
        out.push((ATTR_TASK_NAME.to_owned(), event.task_name.clone()));
        assert(attrs_view(out@) =~= task_dims(event.deployment_id@, event.task_name@));
        out
    }

    /// The dimensions of the path counter: those of the instance, then the path under the dimension
    /// `attribute`.
    pub fn path_attrs(&self, event: &InstanceEvent, attribute: &str, path_id: &str) -> (r: Vec<
        (String, String),
    >)
        ensures
            attrs_view(r@) == instance_dims(
                self@.labels,
                self@.labels.len() as int,
                event@,
            ).push((attribute@, path_id@)),
    {
        let mut out = self.instance_attrs(event);
        let ghost prior = attrs_view(out@);
        out.push((attribute.to_owned(), path_id.to_owned()));
        assert(attrs_view(out@) =~= prior.push((attribute@, path_id@)));
        out
    }

    /// A path was covered: grow the process's covered set and give the gauge's record, where the
    /// gauge is wired and the process is known.
    pub fn on_path_covered(&mut self, event: &InstanceEvent, path_id: &str) -> (r: Option<
        CoveragePoint,
    >)
        ensures
            ({
                let s = old(self)@.coverage;
                let at = place_of(s, event@.deployment_id, event@.process_id);
                &&& final(self)@.labels == old(self)@.labels
                &&& final(self)@.wired == old(self)@.wired
                &&& if old(self)@.wired && at < s.len() {
                    &&& final(self)@.coverage == s.update(at, s[at].cover(path_id@))
                    &&& match r {
                        Some(p) => s[at].cover(path_id@).point() == Some(p@),
                        None => s[at].cover(path_id@).point() is None,
                    }
                } else {
                    final(self)@.coverage == s && r is None
                }
            }),
            final(self)@ == after_cover(
                old(self)@,
                event@.deployment_id,
                event@.process_id,
                path_id@,
            ),
    {
        let ghost s = self@.coverage;
        if !self.wired {
            return None;
        }
        let at = self.find(&event.deployment_id, &event.process_id);
        if at >= self.coverage.len() {
            return None;
        }
        assert(self.coverage@[at as int]@ == s[at as int]);
        let mut covered = self.coverage[at].covered.duplicate();
        covered.insert(path_id.to_owned());
        let state = CoverageState {
            deployment_id: self.coverage[at].deployment_id.clone(),
            process_id: self.coverage[at].process_id.clone(),
            declared_paths: text::copy_texts(&self.coverage[at].declared_paths),
            covered,
            attrs: copy_attrs(&self.coverage[at].attrs),
        };
        assert(state@ == s[at as int].cover(path_id@));
        let point = point_of(&state);
        self.coverage.set(at, state);
        assert(self@.coverage =~= s.update(at as int, s[at as int].cover(path_id@)));
        point
    }
}

// ---- lanes -------------------------------------------------------------------------------------

/// The counters of one lane of the shard router.
#[derive(Debug, Clone, Copy, PartialEq, Eq, Structural)]
pub struct LaneCounts {
    pub queue_depth: i64,
    pub dispatches: u64,
    pub parks: u64,
    pub resumes: u64,
    pub handoffs: u64,
    pub claim_bounce_relay: u64,
    pub claim_bounce_timer: u64,
}

/// The counters that are reported lane by lane.
#[derive(Debug, Clone, Copy, PartialEq, Eq, Structural)]
pub enum LaneMeter {
    Dispatches,
    Parks,
    Resumes,
    Handoffs,
}

/// The value of a lane's counter.
pub open spec fn lane_value(meter: LaneMeter, lane: LaneCounts) -> u64 {
    match meter {
        LaneMeter::Dispatches => lane.dispatches,
        LaneMeter::Parks => lane.parks,
        LaneMeter::Resumes => lane.resumes,
        LaneMeter::Handoffs => lane.handoffs,
    }
}

/// The points of a counter: one for each lane, under its index.
pub fn lane_points(meter: LaneMeter, lanes: &Vec<LaneCounts>) -> (r: Vec<(usize, u64)>)
    ensures
        r@ == lanes@.map(|i: int, l: LaneCounts| (i as usize, lane_value(meter, l))),
{
    let mut out: Vec<(usize, u64)> = Vec::new();
    let mut i: usize = 0;
    while i < lanes.len()
        invariant
            i <= lanes.len(),
            out.len() == i,
            forall|k: int|
                0 <= k < i ==> (#[trigger] out@[k]) == (k as usize, lane_value(meter, lanes@[k])),
        decreases lanes.len() - i,
    {
        let value: u64 = match meter {
            LaneMeter::Dispatches => lanes[i].dispatches,
            LaneMeter::Parks => lanes[i].parks,
            LaneMeter::Resumes => lanes[i].resumes,
            LaneMeter::Handoffs => lanes[i].handoffs,
        };
        out.push((i, value));
        i = i + 1;
    }
    assert(out@ =~= lanes@.map(|i: int, l: LaneCounts| (i as usize, lane_value(meter, l))));
    out
}

/// The points of the queue gauge: one for each lane, under its index.
pub fn queue_depth_points(lanes: &Vec<LaneCounts>) -> (r: Vec<(usize, i64)>)
    ensures
        r@ == lanes@.map(|i: int, l: LaneCounts| (i as usize, l.queue_depth)),
{
    let mut out: Vec<(usize, i64)> = Vec::new();
    let mut i: usize = 0;
    while i < lanes.len()
        invariant
            i <= lanes.len(),
            out.len() == i,
            forall|k: int|
                0 <= k < i ==> (#[trigger] out@[k]) == (k as usize, lanes@[k].queue_depth),
        decreases lanes.len() - i,
    {
        out.push((i, lanes[i].queue_depth));
        i = i + 1;
    }
    assert(out@ =~= lanes@.map(|i: int, l: LaneCounts| (i as usize, l.queue_depth)));
    out
}

/// A point of the claim-bounce counter.
pub struct BouncePoint {
    pub shard: usize,
    pub path: &'static str,
    pub value: u64,
}

/// Whether the two points of a lane stand at their places.
pub open spec fn bounces_at(points: Seq<BouncePoint>, i: int, lane: LaneCounts) -> bool {
    let relay = points[2 * i];
    let timer = points[2 * i + 1];
    &&& relay.shard == i
    &&& relay.path@ == "relay"@
    &&& relay.value == lane.claim_bounce_relay
    &&& timer.shard == i
    &&& timer.path@ == "timer"@
    &&& timer.value == lane.claim_bounce_timer
}

/// The points of the claim-bounce counter: two for each lane, the relay's before the timer's.
pub fn bounce_points(lanes: &Vec<LaneCounts>) -> (r: Vec<BouncePoint>)
    ensures
        r@.len() == 2 * lanes@.len(),
        forall|i: int| 0 <= i < lanes@.len() ==> #[trigger] bounces_at(r@, i, lanes@[i]),
{
    let mut out: Vec<BouncePoint> = Vec::new();
    let mut i: usize = 0;
    while i < lanes.len()
        invariant
            i <= lanes.len(),
            out@.len() == 2 * i,
            forall|k: int| 0 <= k < i ==> #[trigger] bounces_at(out@, k, lanes@[k]),
        decreases lanes.len() - i,
    {
        let ghost prior = out@;
        out.push(BouncePoint { shard: i, path: "relay", value: lanes[i].claim_bounce_relay });
        out.push(BouncePoint { shard: i, path: "timer", value: lanes[i].claim_bounce_timer });
        assert forall|k: int| 0 <= k < i + 1 implies #[trigger] bounces_at(
            out@,
            k,
            lanes@[k],
        ) by {
            if k < i {
                assert(bounces_at(prior, k, lanes@[k]));
            }
        }
        i = i + 1;
    }
    out
}

} // verus!
