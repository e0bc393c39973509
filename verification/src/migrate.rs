//! Moving a live instance from the deployment it is pinned to onto another.
//!
//! The validator answers three questions: whether the instance is migratable at all, whether every
//! node id its durable state pins (a locus) is named as the request demands, and whether each locus
//! lands on a node that can do what a resume will ask of it. Every violation is reported, never just
//! the first.

use vstd::prelude::*;

use crate::graph::{NodeShape, NodeShapeView, ProcessNodeIndex, Shapes};
use crate::json::{Json, JsonView};
use crate::json;
use crate::keyed;
use crate::keyed::{TextMap, TextSet};
use crate::sources;
use crate::text;

verus! {

// ---- structured codes --------------------------------------------------------------------------

/// The named target is not an active deployment.
pub const MIGRATE_TARGET_NOT_ACTIVE: &'static str = "SUTRA.ADMIN.MIGRATE.TARGET_NOT_ACTIVE";

/// The named target is the deployment the instance is already pinned to.
pub const MIGRATE_TARGET_SAME_AS_SOURCE: &'static str = "SUTRA.ADMIN.MIGRATE.TARGET_SAME_AS_SOURCE";

/// The instance's own pin names a deployment whose graph cannot be loaded.
pub const MIGRATE_SOURCE_UNRESOLVABLE: &'static str = "SUTRA.ADMIN.MIGRATE.SOURCE_UNRESOLVABLE";

/// The instance's process has no counterpart in the target deployment.
pub const MIGRATE_PROCESS_ABSENT: &'static str = "SUTRA.ADMIN.MIGRATE.PROCESS_ABSENT";

/// A live locus maps to a node id that does not exist in the target process.
pub const MIGRATE_NODE_UNMAPPED: &'static str = "SUTRA.ADMIN.MIGRATE.NODE_UNMAPPED";

/// A live locus maps to a node that is the wrong construct for what a resume does there.
pub const MIGRATE_NODE_INCOMPATIBLE: &'static str = "SUTRA.ADMIN.MIGRATE.NODE_INCOMPATIBLE";

/// The supplied node mapping is itself unusable.
pub const MIGRATE_MAPPING_INVALID: &'static str = "SUTRA.ADMIN.MIGRATE.MAPPING_INVALID";

/// The instance already finished.
pub const MIGRATE_INSTANCE_TERMINAL: &'static str = "SUTRA.ADMIN.MIGRATE.INSTANCE_TERMINAL";

/// Something else holds the instance's ownership claim.
pub const MIGRATE_CLAIM_HELD: &'static str = "SUTRA.ADMIN.MIGRATE.CLAIM_HELD";

/// A unique alias of this instance is bound to a different live instance under the target.
pub const MIGRATE_ALIAS_CONFLICT: &'static str = "SUTRA.ADMIN.MIGRATE.ALIAS_CONFLICT";

/// The migration was validated but the durable move failed.
pub const MIGRATE_COMMIT_FAILED: &'static str = "SUTRA.ADMIN.MIGRATE.COMMIT_FAILED";

/// A live locus has no mapping entry on a cross-process migration.
pub const MIGRATE_CROSS_PROCESS_UNMAPPED: &'static str = "SUTRA.ADMIN.MIGRATE.CROSS_PROCESS_UNMAPPED";

/// A resume was asked for on an instance that has not failed.
pub const MIGRATE_RESUME_NOT_FAILED: &'static str = "SUTRA.ADMIN.MIGRATE.RESUME_NOT_FAILED";

/// Warning: a completed node is absent from the target graph.
pub const MIGRATE_COMPLETED_NODE_ABSENT: &'static str = "SUTRA.ADMIN.MIGRATE.COMPLETED_NODE_ABSENT";

/// Warning: the wait frontier names a node that no wait row stands behind.
pub const MIGRATE_FRONTIER_WITHOUT_WAIT_ROW: &'static str = "SUTRA.ADMIN.MIGRATE.FRONTIER_WITHOUT_WAIT_ROW";

/// Warning: the instance has pending outbox rows, which stay under the source pin.
pub const MIGRATE_OUTBOX_PENDING_ON_SOURCE: &'static str = "SUTRA.ADMIN.MIGRATE.OUTBOX_PENDING_ON_SOURCE";

/// The snapshot status of an instance that reached its end.
pub const STATUS_COMPLETED: &'static str = "COMPLETED";

/// The snapshot status of an instance that an operator ended.
pub const STATUS_TERMINATED: &'static str = "TERMINATED";

/// The snapshot status of an instance that died.
pub const STATUS_FAILED: &'static str = "FAILED";

/// The status of a wait row that is still waiting.
pub const STATUS_WAITING: &'static str = "WAITING";

/// The kind of a wait row that a timer backs.
pub const KIND_TIMER: &'static str = "TIMER";

// ---- loci and the compatibility matrix ---------------------------------------------------------

/// What kind of live locus a pinned node id is, and therefore what the target node must be able to
/// do. The order of the variants is the order in which reports list them.
#[derive(Debug, Clone, Copy, PartialEq, Eq, PartialOrd, Ord, Structural)]
pub enum LocusKind {
    /// A token parked awaiting a relay.
    MessageWait,
    /// A token parked on an armed timer.
    TimerWait,
    /// A retry backoff: the due timer's node is the failed task itself.
    RetryPark,
    /// A continue-reply marker: the due timer's node is the reply task.
    ContinueReplyPark,
    /// The snapshot's routed start event.
    RoutedStart,
    /// A retry counter with no live park behind it.
    RetryBudget,
}

impl LocusKind {
    /// The label that reports use.
    pub open spec fn label_view(self) -> Seq<char> {
        match self {
            LocusKind::MessageWait => "MESSAGE_WAIT"@,
            LocusKind::TimerWait => "TIMER_WAIT"@,
            LocusKind::RetryPark => "RETRY_PARK"@,
            LocusKind::ContinueReplyPark => "CONTINUE_REPLY_PARK"@,
            LocusKind::RoutedStart => "ROUTED_START"@,
            LocusKind::RetryBudget => "RETRY_BUDGET"@,
        }
    }

    /// The compatibility matrix: whether a node of this shape can host this locus.
    pub open spec fn fits(self, shape: NodeShapeView) -> bool {
        match self {
            LocusKind::MessageWait => shape.relay_resumable,
            LocusKind::TimerWait => shape.timer_capable,
            LocusKind::RetryPark => shape.retryable_task,
            LocusKind::RetryBudget => shape.retryable_task,
            LocusKind::ContinueReplyPark => shape.continue_reply,
            LocusKind::RoutedStart => shape.start_event,
        }
    }

    /// What the target node would have to be, in words.
    pub open spec fn requirement_view(self) -> Seq<char> {
        match self {
            LocusKind::MessageWait => "a relay-resumable wait construct (userTask, intermediate message catch event, or a channel-call serviceTask)"@,
            LocusKind::TimerWait => "a timer-capable construct (timer catch event, timer boundary event, or a <q:timeout>-synthesized #timeout boundary)"@,
            LocusKind::RetryPark => "a serviceTask carrying a <q:retry> policy (the park re-drives it)"@,
            LocusKind::ContinueReplyPark => "a node carrying <q:reply continue=\"true\"> (the park self-resumes its tail)"@,
            LocusKind::RoutedStart => "a start event"@,
            LocusKind::RetryBudget => "a node carrying a <q:retry> policy (it owns a burned attempt budget)"@,
        }
    }

    /// The stable label used in the report.
    pub fn label(self) -> (r: &'static str)
        ensures
            r@ == self.label_view(),
    {
        match self {
            LocusKind::MessageWait => "MESSAGE_WAIT",
            LocusKind::TimerWait => "TIMER_WAIT",
            LocusKind::RetryPark => "RETRY_PARK",
            LocusKind::ContinueReplyPark => "CONTINUE_REPLY_PARK",
            LocusKind::RoutedStart => "ROUTED_START",
            LocusKind::RetryBudget => "RETRY_BUDGET",
        }
    }

    /// Whether `shape` can host this locus.
    pub fn accepts(self, shape: &NodeShape) -> (r: bool)
        ensures
            r == self.fits(shape@),
    {
        match self {
            LocusKind::MessageWait => shape.relay_resumable,
            LocusKind::TimerWait => shape.timer_capable,
            LocusKind::RetryPark => shape.retryable_task,
            LocusKind::RetryBudget => shape.retryable_task,
            LocusKind::ContinueReplyPark => shape.continue_reply,
            LocusKind::RoutedStart => shape.start_event,
        }
    }

    /// What the target node would have to be, in words, for the refusal message.
    pub fn requirement(self) -> (r: &'static str)
        ensures
            r@ == self.requirement_view(),
    {
        match self {
            LocusKind::MessageWait => "a relay-resumable wait construct (userTask, intermediate message catch event, or a channel-call serviceTask)",
            LocusKind::TimerWait => "a timer-capable construct (timer catch event, timer boundary event, or a <q:timeout>-synthesized #timeout boundary)",
            LocusKind::RetryPark => "a serviceTask carrying a <q:retry> policy (the park re-drives it)",
            LocusKind::ContinueReplyPark => "a node carrying <q:reply continue=\"true\"> (the park self-resumes its tail)",
            LocusKind::RoutedStart => "a start event",
            LocusKind::RetryBudget => "a node carrying a <q:retry> policy (it owns a burned attempt budget)",
        }
    }
}

impl View for LocusKind {
    type V = LocusKind;

    open spec fn view(&self) -> LocusKind {
        *self
    }
}

/// One live locus of the instance under validation.
#[derive(Debug, PartialEq, Eq)]
pub struct Locus {
    pub kind: LocusKind,
    /// The node id as the source graph names it.
    pub source_node_id: String,
    /// The node id it maps to in the target.
    pub target_node_id: String,
}

/// The contents of a [`Locus`].
pub struct LocusView {
    pub kind: LocusKind,
    pub source: Seq<char>,
    pub target: Seq<char>,
}

impl View for Locus {
    type V = LocusView;

    open spec fn view(&self) -> LocusView {
        LocusView {
            kind: self.kind,
            source: self.source_node_id@,
            target: self.target_node_id@,
        }
    }
}

/// The durable facts a validation runs over.
pub struct InstanceFacts {
    pub process_id: String,
    pub status: String,
    /// The snapshot's wait frontier.
    pub waiting_nodes: Vec<String>,
    /// The snapshot's replay-as-done set.
    pub completed_nodes: Vec<String>,
    /// The routed start event, empty where there is none.
    pub start_node: String,
    /// The nodes that carry a retry counter.
    pub retry_nodes: TextSet,
    /// The live wait rows: node id, and whether a timer backs the row.
    pub wait_rows: Vec<(String, bool)>,
    /// Pending outbox rows.
    pub pending_outbox: u64,
}

/// The contents of an [`InstanceFacts`].
pub struct InstanceFactsView {
    pub process_id: Seq<char>,
    pub status: Seq<char>,
    pub waiting_nodes: Seq<Seq<char>>,
    pub completed_nodes: Seq<Seq<char>>,
    pub start_node: Seq<char>,
    pub retry_nodes: Seq<Seq<char>>,
    pub wait_rows: Seq<(Seq<char>, bool)>,
    pub pending_outbox: u64,
}

/// What a row of node ids with a flag each holds.
pub open spec fn rows_view(rows: Seq<(String, bool)>) -> Seq<(Seq<char>, bool)> {
    rows.map_values(|r: (String, bool)| (r.0@, r.1))
}

impl View for InstanceFacts {
    type V = InstanceFactsView;

    open spec fn view(&self) -> InstanceFactsView {
        InstanceFactsView {
            process_id: self.process_id@,
            status: self.status@,
            waiting_nodes: text::texts(self.waiting_nodes@),
            completed_nodes: text::texts(self.completed_nodes@),
            start_node: self.start_node@,
            retry_nodes: self.retry_nodes@,
            wait_rows: rows_view(self.wait_rows@),
            pending_outbox: self.pending_outbox,
        }
    }
}

impl Default for InstanceFacts {
    /// An instance of which nothing is known.
    fn default() -> (r: InstanceFacts)
        ensures
            r@.process_id == Seq::<char>::empty(),
            r@.status == Seq::<char>::empty(),
            r@.waiting_nodes == Seq::<Seq<char>>::empty(),
            r@.completed_nodes == Seq::<Seq<char>>::empty(),
            r@.start_node == Seq::<char>::empty(),
            r@.retry_nodes == Seq::<Seq<char>>::empty(),
            r@.wait_rows == Seq::<(Seq<char>, bool)>::empty(),
            r@.pending_outbox == 0,
    {
        InstanceFacts {
            process_id: String::new(),
            status: String::new(),
            waiting_nodes: Vec::new(),
            completed_nodes: Vec::new(),
            start_node: String::new(),
            retry_nodes: TextSet::new(),
            wait_rows: Vec::new(),
            pending_outbox: 0,
        }
    }
}

/// One migration request, applied alike to every instance it names.
pub struct MigrationPlan {
    /// The caller's explicit node mapping: source node id to target node id.
    pub mapping: TextMap<String>,
    /// The process the instance is re-homed into, where the caller named one.
    pub target_process_id: Option<String>,
    /// Validate only.
    pub dry_run: bool,
    /// Clear a failed instance's failure state after the move and re-arm its parks.
    pub resume: bool,
}

/// The contents of a [`MigrationPlan`].
pub struct MigrationPlanView {
    pub mapping: Seq<(Seq<char>, Seq<char>)>,
    pub target_process_id: Option<Seq<char>>,
    pub dry_run: bool,
    pub resume: bool,
}

impl View for MigrationPlan {
    type V = MigrationPlanView;

    open spec fn view(&self) -> MigrationPlanView {
        MigrationPlanView {
            mapping: self.mapping@,
            target_process_id: sources::opt(self.target_process_id),
            dry_run: self.dry_run,
            resume: self.resume,
        }
    }
}

impl MigrationPlanView {
    /// The process that an instance of `process_id` is validated against.
    pub open spec fn target_process(self, process_id: Seq<char>) -> Seq<char> {
        match self.target_process_id {
            Some(p) => if p.len() > 0 {
                p
            } else {
                process_id
            },
            None => process_id,
        }
    }

    /// Whether an instance of `process_id` changes its process.
    pub open spec fn crosses(self, process_id: Seq<char>) -> bool {
        self.target_process(process_id) != process_id
    }

    /// Where the mapping came from, as reports name it.
    pub open spec fn source(self) -> Seq<char> {
        if self.mapping.len() == 0 {
            "identity"@
        } else {
            "explicit"@
        }
    }
}

impl Default for MigrationPlan {
    /// The same-process identity migration, for real and without a resume.
    fn default() -> (r: MigrationPlan)
        ensures
            r@ == (MigrationPlanView {
                mapping: Seq::empty(),
                target_process_id: None,
                dry_run: false,
                resume: false,
            }),
    {
        MigrationPlan {
            mapping: TextMap::new(),
            target_process_id: None,
            dry_run: false,
            resume: false,
        }
    }
}

impl MigrationPlan {
    /// The process id that an instance currently in `process_id` is validated against.
    pub fn target_process_for(&self, process_id: &str) -> (r: String)
        ensures
            r@ == self@.target_process(process_id@),
    {
        match &self.target_process_id {
            Some(p) => {
                if !p.as_str().is_empty() {
                    p.clone()
                } else {
                    process_id.to_owned()
                }
            },
            None => process_id.to_owned(),
        }
    }

    /// Whether this plan re-homes an instance of `process_id` into a different process.
    pub fn is_cross_process(&self, process_id: &str) -> (r: bool)
        ensures
            r == self@.crosses(process_id@),
    {
        !text::same(&self.target_process_for(process_id), process_id)
    }

    /// The reported mapping source.
    pub fn mapping_source(&self) -> (r: &'static str)
        ensures
            r@ == self@.source(),
    {
        if self.mapping.len() == 0 {
            "identity"
        } else {
            "explicit"
        }
    }
}

// ---- which wait rows describe a park -----------------------------------------------------------

/// One stored wait row of an instance.
pub struct InstanceWait {
    pub node_id: String,
    pub kind: String,
    pub status: String,
    /// When the wait was resolved, in nanoseconds since the epoch.
    pub resolved_at: Option<i128>,
}

/// The latest instant at which one of `rows` was resolved.
pub open spec fn latest_resolution(rows: Seq<InstanceWait>) -> Option<i128>
    decreases rows.len(),
{
    if rows.len() == 0 {
        None
    } else {
        let prior = latest_resolution(rows.drop_last());
        match (prior, rows.last().resolved_at) {
            (None, r) => r,
            (p, None) => p,
            (Some(p), Some(r)) => Some(if r >= p {
                r
            } else {
                p
            }),
        }
    }
}

/// The instant at which a failure tore this instance's parks down: the latest resolution, where the
/// instance failed with a frontier.
pub open spec fn torn_down(status: Seq<char>, frontier: Seq<Seq<char>>, rows: Seq<InstanceWait>) -> Option<i128> {
    if status == STATUS_FAILED@ && frontier.len() > 0 {
        latest_resolution(rows)
    } else {
        None
    }
}

/// Whether a row describes a park: it still waits, or the failure resolved it.
pub open spec fn is_park(row: InstanceWait, torn: Option<i128>) -> bool {
    row.status@ == STATUS_WAITING@ || (torn is Some && row.resolved_at == torn)
}

/// The parks among `rows`, in their order.
pub open spec fn parks(rows: Seq<InstanceWait>, torn: Option<i128>) -> Seq<(Seq<char>, bool)>
    decreases rows.len(),
{
    if rows.len() == 0 {
        Seq::empty()
    } else {
        let prior = parks(rows.drop_last(), torn);
        if is_park(rows.last(), torn) {
            prior.push((rows.last().node_id@, rows.last().kind@ == KIND_TIMER@))
        } else {
            prior
        }
    }
}

/// Which of an instance's wait rows describe where it is parked.
///
/// For a live instance those are the waiting rows. The commit that records a failure resolves every
/// live park at one instant, which is then the instance's latest, so the rows of a failed instance
/// that carry it are the parks it had.
pub fn live_park_rows(status: &str, frontier: &Vec<String>, rows: &Vec<InstanceWait>) -> (r: Vec<
    (String, bool),
>)
    ensures
        rows_view(r@) == parks(rows@, torn_down(status@, text::texts(frontier@), rows@)),
{
    let mut torn: Option<i128> = None;
    if text::same(status, STATUS_FAILED) && frontier.len() > 0 {
        let mut i: usize = 0;
        while i < rows.len()
            invariant
                i <= rows.len(),
                torn == latest_resolution(rows@.take(i as int)),
            decreases rows.len() - i,
        {
            assert(rows@.take(i + 1).drop_last() =~= rows@.take(i as int));
            torn = match (torn, rows[i].resolved_at) {
                (None, r) => r,
                (p, None) => p,
                (Some(p), Some(r)) => Some(if r >= p {
                    r
                } else {
                    p
                }),
            };
            i = i + 1;
        }
        assert(rows@.take(rows.len() as int) =~= rows@);
    }
    assert(torn == torn_down(status@, text::texts(frontier@), rows@));
    let mut out: Vec<(String, bool)> = Vec::new();
    let mut i: usize = 0;
    assert(rows_view(out@) =~= Seq::empty());
    while i < rows.len()
        invariant
            i <= rows.len(),
            rows_view(out@) == parks(rows@.take(i as int), torn),
        decreases rows.len() - i,
    {
        let row = &rows[i];
        let at_failure = match (torn, row.resolved_at) {
            (Some(t), Some(r)) => t == r,
            _ => false,
        };
        assert(rows@.take(i + 1).drop_last() =~= rows@.take(i as int));
        let ghost prior = out@;
        if text::same(&row.status, STATUS_WAITING) || at_failure {
            out.push((row.node_id.clone(), text::same(&row.kind, KIND_TIMER)));
            assert(rows_view(out@) =~= rows_view(prior).push((row.node_id@, row.kind@ == KIND_TIMER@)));
        }
        i = i + 1;
    }
    assert(rows@.take(rows.len() as int) =~= rows@);
    out
}

// ---- findings and the report -------------------------------------------------------------------

/// One refusal or warning.
#[derive(Debug, PartialEq, Eq)]
pub struct Finding {
    pub code: &'static str,
    pub source_node_id: Option<String>,
    pub target_node_id: Option<String>,
    pub detail: String,
}

/// The contents of a [`Finding`].
pub struct FindingView {
    pub code: Seq<char>,
    pub source: Option<Seq<char>>,
    pub target: Option<Seq<char>>,
    pub detail: Seq<char>,
}

impl View for Finding {
    type V = FindingView;

    open spec fn view(&self) -> FindingView {
        FindingView {
            code: self.code@,
            source: sources::opt(self.source_node_id),
            target: sources::opt(self.target_node_id),
            detail: self.detail@,
        }
    }
}

impl FindingView {
    /// A finding about the whole request.
    pub open spec fn of(code: Seq<char>, detail: Seq<char>) -> FindingView {
        FindingView { code, source: None, target: None, detail }
    }

    /// A finding about one pair of nodes.
    pub open spec fn at(
        code: Seq<char>,
        source: Seq<char>,
        target: Seq<char>,
        detail: Seq<char>,
    ) -> FindingView {
        FindingView { code, source: Some(source), target: Some(target), detail }
    }

    /// The finding as a document.
    pub open spec fn json(self) -> JsonView {
        JsonView::empty().with("code"@, JsonView::Text(self.code)).with(
            "sourceNodeId"@,
            json::optional(self.source),
        ).with("targetNodeId"@, json::optional(self.target)).with(
            "detail"@,
            JsonView::Text(self.detail),
        )
    }
}

impl Finding {
    /// A finding about the whole request.
    pub fn of(code: &'static str, detail: String) -> (r: Finding)
        ensures
            r@ == FindingView::of(code@, detail@),
    {
        Finding { code, source_node_id: None, target_node_id: None, detail }
    }

    /// A finding about one pair of nodes.
    pub fn at(code: &'static str, source: &str, target: &str, detail: String) -> (r: Finding)
        ensures
            r@ == FindingView::at(code@, source@, target@, detail@),
    {
        Finding {
            code,
            source_node_id: Some(source.to_owned()),
            target_node_id: Some(target.to_owned()),
            detail,
        }
    }

    /// The finding as a document.
    pub fn to_json(&self) -> (r: Json)
        ensures
            r@ == self@.json(),
    {
        Json::object().with("code", Json::text(self.code)).with(
            "sourceNodeId",
            Json::optional(&self.source_node_id),
        ).with("targetNodeId", Json::optional(&self.target_node_id)).with(
            "detail",
            Json::text(&self.detail),
        )
    }
}

/// What a row of findings holds.
pub open spec fn findings(v: Seq<Finding>) -> Seq<FindingView> {
    v.map_values(|f: Finding| f@)
}

proof fn findings_push(v: Seq<Finding>, f: Finding)
    ensures
        findings(v.push(f)) == findings(v).push(f@),
{
    assert(findings(v.push(f)) =~= findings(v).push(f@));
}

/// What a row of loci holds.
pub open spec fn loci_view(v: Seq<Locus>) -> Seq<LocusView> {
    v.map_values(|l: Locus| l@)
}

/// The full validation report.
pub struct MigrationReport {
    /// Each locus with the construct it lands on, or `None` where it does not land.
    pub loci: Vec<(Locus, Option<&'static str>)>,
    pub violations: Vec<Finding>,
    pub warnings: Vec<Finding>,
    /// The mapping that is applied: the caller's entries, and identity for everything else.
    pub effective_mapping: TextMap<String>,
}

/// The contents of a [`MigrationReport`].
pub struct MigrationReportView {
    pub loci: Seq<(LocusView, Option<Seq<char>>)>,
    pub violations: Seq<FindingView>,
    pub warnings: Seq<FindingView>,
    pub effective_mapping: Seq<(Seq<char>, Seq<char>)>,
}

/// What a row of placed loci holds.
pub open spec fn placed_view(v: Seq<(Locus, Option<&'static str>)>) -> Seq<
    (LocusView, Option<Seq<char>>),
> {
    v.map_values(
        |p: (Locus, Option<&'static str>)|
            (
                p.0@,
                match p.1 {
                    Some(c) => Some(c@),
                    None => None,
                },
            ),
    )
}

impl View for MigrationReport {
    type V = MigrationReportView;

    open spec fn view(&self) -> MigrationReportView {
        MigrationReportView {
            loci: placed_view(self.loci@),
            violations: findings(self.violations@),
            warnings: findings(self.warnings@),
            effective_mapping: self.effective_mapping@,
        }
    }
}

/// One line of the report's list of loci.
pub open spec fn locus_json(p: (LocusView, Option<Seq<char>>)) -> JsonView {
    JsonView::empty().with("kind"@, JsonView::Text(p.0.kind.label_view())).with(
        "sourceNodeId"@,
        JsonView::Text(p.0.source),
    ).with("targetNodeId"@, JsonView::Text(p.0.target)).with(
        "targetConstruct"@,
        json::optional(p.1),
    ).with(
        "status"@,
        JsonView::Text(
            if p.1 is Some {
                "OK"@
            } else {
                "VIOLATION"@
            },
        ),
    )
}

impl MigrationReport {
    /// Whether nothing was refused.
    pub fn valid(&self) -> (r: bool)
        ensures
            r == (self@.violations.len() == 0),
    {
        self.violations.len() == 0
    }

    /// The loci as documents, in the report's order.
    pub fn loci_json(&self) -> (r: Vec<Json>)
        ensures
            r@.len() == self@.loci.len(),
            forall|i: int| 0 <= i < r@.len() ==> (#[trigger] r@[i])@ == locus_json(self@.loci[i]),
    {
        let mut out: Vec<Json> = Vec::new();
        let mut i: usize = 0;
        while i < self.loci.len()
            invariant
                i <= self.loci.len(),
                out.len() == i,
                forall|k: int| 0 <= k < i ==> (#[trigger] out@[k])@ == locus_json(self@.loci[k]),
            decreases self.loci.len() - i,
        {
            let locus = &self.loci[i].0;
            let construct = match self.loci[i].1 {
                Some(c) => Json::text(c),
                None => Json::Null,
            };
            let status = if self.loci[i].1.is_some() {
                "OK"
            } else {
                "VIOLATION"
            };
            let doc = Json::object().with("kind", Json::text(locus.kind.label())).with(
                "sourceNodeId",
                Json::text(&locus.source_node_id),
            ).with("targetNodeId", Json::text(&locus.target_node_id)).with(
                "targetConstruct",
                construct,
            ).with("status", Json::text(status));
            out.push(doc);
            i = i + 1;
        }
        out
    }
}

// ---- deriving the loci -------------------------------------------------------------------------

/// Where the mapping sends a node: its entry, or the node itself.
pub open spec fn mapped(mapping: Seq<(Seq<char>, Seq<char>)>, id: Seq<char>) -> Seq<char> {
    match keyed::lookup(mapping, id) {
        Some(to) => to,
        None => id,
    }
}

/// Whether the source graph has a continuing reply on node `id`.
pub open spec fn continues(source: Option<Shapes>, id: Seq<char>) -> bool {
    match source {
        Some(shapes) => match keyed::lookup(shapes, id) {
            Some(shape) => shape.continue_reply,
            None => false,
        },
        None => false,
    }
}

/// The kind of park a wait row stands for: a timer row is a retry park where its node carries a
/// retry counter and is not recorded as done, else a continue-reply park where the source graph says
/// so, else a timer wait; a message row is a message wait.
pub open spec fn row_kind(
    f: InstanceFactsView,
    source: Option<Shapes>,
    row: (Seq<char>, bool),
) -> LocusKind {
    if !row.1 {
        LocusKind::MessageWait
    } else if f.retry_nodes.contains(row.0) && !f.completed_nodes.contains(row.0) {
        LocusKind::RetryPark
    } else if continues(source, row.0) {
        LocusKind::ContinueReplyPark
    } else {
        LocusKind::TimerWait
    }
}

/// The kinds that the first `n` wait rows give their nodes. A timer row of a node takes precedence
/// over its message rows, wherever they stand.
pub open spec fn row_kinds(f: InstanceFactsView, source: Option<Shapes>, n: int) -> Seq<
    (Seq<char>, LocusKind),
>
    decreases n,
{
    if n <= 0 {
        Seq::empty()
    } else {
        let row = f.wait_rows[n - 1];
        let prior = row_kinds(f, source, n - 1);
        if !row.1 && keyed::has(prior, row.0) {
            prior
        } else {
            keyed::put(prior, row.0, row_kind(f, source, row))
        }
    }
}

/// The kinds once the first `n` frontier nodes are added: one that no row backs is a message wait.
pub open spec fn frontier_kinds(f: InstanceFactsView, source: Option<Shapes>, n: int) -> Seq<
    (Seq<char>, LocusKind),
>
    decreases n,
{
    if n <= 0 {
        row_kinds(f, source, f.wait_rows.len() as int)
    } else {
        let prior = frontier_kinds(f, source, n - 1);
        if keyed::has(prior, f.waiting_nodes[n - 1]) {
            prior
        } else {
            keyed::put(prior, f.waiting_nodes[n - 1], LocusKind::MessageWait)
        }
    }
}

/// The kinds once the first `n` retry counters are added: one without a park is a budget.
pub open spec fn budget_kinds(f: InstanceFactsView, source: Option<Shapes>, n: int) -> Seq<
    (Seq<char>, LocusKind),
>
    decreases n,
{
    if n <= 0 {
        frontier_kinds(f, source, f.waiting_nodes.len() as int)
    } else {
        let prior = budget_kinds(f, source, n - 1);
        if keyed::has(prior, f.retry_nodes[n - 1]) {
            prior
        } else {
            keyed::put(prior, f.retry_nodes[n - 1], LocusKind::RetryBudget)
        }
    }
}

/// Every pinned node with the kind of locus it is, in the order of the nodes' ids.
pub open spec fn kinds(f: InstanceFactsView, source: Option<Shapes>) -> Seq<(Seq<char>, LocusKind)> {
    budget_kinds(f, source, f.retry_nodes.len() as int)
}

/// The warning about a frontier node that no row backs.
pub open spec fn unbacked(mapping: Seq<(Seq<char>, Seq<char>)>, id: Seq<char>) -> FindingView {
    FindingView::at(
        MIGRATE_FRONTIER_WITHOUT_WAIT_ROW@,
        id,
        mapped(mapping, id),
        "the snapshot's wait frontier names '"@ + id
            + "' but no waiting_event row backs it; the locus is migrated and validated as a message wait"@,
    )
}

/// The warnings about the first `n` frontier nodes, in the frontier's order.
pub open spec fn frontier_warnings(
    f: InstanceFactsView,
    source: Option<Shapes>,
    mapping: Seq<(Seq<char>, Seq<char>)>,
    n: int,
) -> Seq<FindingView>
    decreases n,
{
    if n <= 0 {
        Seq::empty()
    } else {
        let prior = frontier_warnings(f, source, mapping, n - 1);
        if keyed::has(frontier_kinds(f, source, n - 1), f.waiting_nodes[n - 1]) {
            prior
        } else {
            prior.push(unbacked(mapping, f.waiting_nodes[n - 1]))
        }
    }
}

/// The loci of one kind, in the order of the nodes' ids.
pub open spec fn group(
    kinds: Seq<(Seq<char>, LocusKind)>,
    kind: LocusKind,
    mapping: Seq<(Seq<char>, Seq<char>)>,
) -> Seq<LocusView>
    decreases kinds.len(),
{
    if kinds.len() == 0 {
        Seq::empty()
    } else {
        let prior = group(kinds.drop_last(), kind, mapping);
        if kinds.last().1 == kind {
            prior.push(
                LocusView {
                    kind,
                    source: kinds.last().0,
                    target: mapped(mapping, kinds.last().0),
                },
            )
        } else {
            prior
        }
    }
}

/// The routed start as a locus, where there is one.
pub open spec fn start_locus(
    f: InstanceFactsView,
    mapping: Seq<(Seq<char>, Seq<char>)>,
) -> Seq<LocusView> {
    if f.start_node.len() == 0 {
        Seq::empty()
    } else {
        seq![
            LocusView {
                kind: LocusKind::RoutedStart,
                source: f.start_node,
                target: mapped(mapping, f.start_node),
            },
        ]
    }
}

/// Every live locus: by kind, and within a kind by node id.
pub open spec fn loci(
    f: InstanceFactsView,
    source: Option<Shapes>,
    mapping: Seq<(Seq<char>, Seq<char>)>,
) -> Seq<LocusView> {
    let k = kinds(f, source);
    group(k, LocusKind::MessageWait, mapping) + group(k, LocusKind::TimerWait, mapping) + group(
        k,
        LocusKind::RetryPark,
        mapping,
    ) + group(k, LocusKind::ContinueReplyPark, mapping) + start_locus(f, mapping) + group(
        k,
        LocusKind::RetryBudget,
        mapping,
    )
}

/// The model of an optional index.
pub open spec fn shapes_of(index: Option<&ProcessNodeIndex>) -> Option<Shapes> {
    match index {
        Some(i) => Some(i@),
        None => None,
    }
}

fn map_one(mapping: &TextMap<String>, id: &str) -> (r: String)
    ensures
        r@ == mapped(mapping@, id@),
{
    match mapping.get(id) {
        Some(to) => to.clone(),
        None => id.to_owned(),
    }
}

fn append_group(
    out: &mut Vec<Locus>,
    kinds: &TextMap<LocusKind>,
    kind: LocusKind,
    mapping: &TextMap<String>,
)
    ensures
        loci_view(final(out)@) == loci_view(old(out)@) + group(kinds@, kind, mapping@),
{
    let ghost start = loci_view(out@);
    let ghost k = kinds@;
    let mut i: usize = 0;
    assert(start + Seq::<LocusView>::empty() =~= start);
    while i < kinds.len()
        invariant
            i <= k.len(),
            k == kinds@,
            loci_view(out@) == start + group(k.take(i as int), kind, mapping@),
        decreases k.len() - i,
    {
        let ghost next = k.take(i + 1);
        assert(next.drop_last() =~= k.take(i as int));
        assert(next.last() == k[i as int]);
        if *kinds.value_at(i) == kind {
            let id = kinds.key_at(i);
            let ghost prior = out@;
            let locus = Locus {
                kind,
                source_node_id: id.clone(),
                target_node_id: map_one(mapping, id),
            };
            out.push(locus);
            assert(loci_view(out@) =~= loci_view(prior).push(locus@));
            assert(loci_view(out@) =~= start + group(next, kind, mapping@));
        }
        i = i + 1;
    }
    assert(k.take(k.len() as int) =~= k);
}

/// Derive every live locus from the instance's durable facts. A node that several rows name is what
/// the strongest of them says: a timer row decides over a message row. A frontier entry that no row backs is
/// taken as a message wait and warned about; it is never dropped.
pub fn derive_loci(
    facts: &InstanceFacts,
    source: Option<&ProcessNodeIndex>,
    mapping: &TextMap<String>,
    warnings: &mut Vec<Finding>,
) -> (r: Vec<Locus>)
    ensures
        loci_view(r@) == loci(facts@, shapes_of(source), mapping@),
        findings(final(warnings)@) == findings(old(warnings)@) + frontier_warnings(
            facts@,
            shapes_of(source),
            mapping@,
            facts@.waiting_nodes.len() as int,
        ),
{
    let ghost f = facts@;
    let ghost src = shapes_of(source);
    let ghost m = mapping@;
    let ghost start = findings(warnings@);
    let mut kinds: TextMap<LocusKind> = TextMap::new();
    let mut i: usize = 0;
    while i < facts.wait_rows.len()
        invariant
            i <= facts.wait_rows.len(),
            f == facts@,
            src == shapes_of(source),
            kinds@ == row_kinds(f, src, i as int),
        decreases facts.wait_rows.len() - i,
    {
        let node_id = &facts.wait_rows[i].0;
        assert(f.wait_rows[i as int] == (node_id@, facts.wait_rows@[i as int].1));
        let continue_reply = match source {
            Some(index) => match index.get(node_id) {
                Some(shape) => shape.continue_reply,
                None => false,
            },
            None => false,
        };
        let kind = if !facts.wait_rows[i].1 {
            LocusKind::MessageWait
        } else if facts.retry_nodes.contains(node_id) && !text::contains(
            &facts.completed_nodes,
            node_id,
        ) {
            LocusKind::RetryPark
        } else if continue_reply {
            LocusKind::ContinueReplyPark
        } else {
            LocusKind::TimerWait
        };
        if facts.wait_rows[i].1 || !kinds.contains_key(node_id) {
            kinds.insert(node_id.clone(), kind);
        }
        i = i + 1;
    }
    let mut j: usize = 0;
    assert(start + Seq::<FindingView>::empty() =~= start);
    while j < facts.waiting_nodes.len()
        invariant
            j <= facts.waiting_nodes.len(),
            f == facts@,
            m == mapping@,
            kinds@ == frontier_kinds(f, src, j as int),
            findings(warnings@) == start + frontier_warnings(f, src, m, j as int),
        decreases facts.waiting_nodes.len() - j,
    {
        let node_id = &facts.waiting_nodes[j];
        assert(f.waiting_nodes[j as int] == node_id@);
        if !kinds.contains_key(node_id) {
            let finding = Finding::at(
                MIGRATE_FRONTIER_WITHOUT_WAIT_ROW,
                node_id,
                &map_one(mapping, node_id),
                text::text3(
                    "the snapshot's wait frontier names '",
                    node_id,
                    "' but no waiting_event row backs it; the locus is migrated and validated as a message wait",
                ),
            );
            let ghost prior = warnings@;
            warnings.push(finding);
            proof {
                findings_push(prior, finding);
                assert(findings(warnings@) =~= start + frontier_warnings(f, src, m, j + 1));
            }
            kinds.insert(node_id.clone(), LocusKind::MessageWait);
        }
        j = j + 1;
    }
    let mut n: usize = 0;
    while n < facts.retry_nodes.len()
        invariant
            n <= f.retry_nodes.len(),
            f == facts@,
            kinds@ == budget_kinds(f, src, n as int),
        decreases f.retry_nodes.len() - n,
    {
        let node_id = facts.retry_nodes.at(n);
        if !kinds.contains_key(node_id) {
            kinds.insert(node_id.clone(), LocusKind::RetryBudget);
        }
        n = n + 1;
    }
    let mut out: Vec<Locus> = Vec::new();
    assert(loci_view(out@) =~= Seq::empty());
    append_group(&mut out, &kinds, LocusKind::MessageWait, mapping);
    append_group(&mut out, &kinds, LocusKind::TimerWait, mapping);
    append_group(&mut out, &kinds, LocusKind::RetryPark, mapping);
    append_group(&mut out, &kinds, LocusKind::ContinueReplyPark, mapping);
    let ghost parked = loci_view(out@);
    let ghost prior = out@;
    if !facts.start_node.as_str().is_empty() {
        let locus = Locus {
            kind: LocusKind::RoutedStart,
            source_node_id: facts.start_node.clone(),
            target_node_id: map_one(mapping, &facts.start_node),
        };
        out.push(locus);
        assert(loci_view(out@) =~= parked + seq![locus@]);
    }
    assert(loci_view(out@) =~= parked + start_locus(f, m));
    append_group(&mut out, &kinds, LocusKind::RetryBudget, mapping);
    assert(loci_view(out@) =~= loci(f, src, m));
    out
}

// ---- validation --------------------------------------------------------------------------------

/// Whether an instance in `status` is finished.
pub open spec fn finished(status: Seq<char>) -> bool {
    status == STATUS_COMPLETED@ || status == STATUS_TERMINATED@
}

/// The refusal of a finished instance.
pub open spec fn terminal_violations(f: InstanceFactsView) -> Seq<FindingView> {
    if finished(f.status) {
        seq![
            FindingView::of(
                MIGRATE_INSTANCE_TERMINAL@,
                "instance already reached "@ + f.status
                    + " — a finished instance is retained history, not live state, and migrating it would rewrite the record of where it ran"@,
            ),
        ]
    } else {
        Seq::empty()
    }
}

/// The refusal of a resume for an instance that has not failed.
pub open spec fn resume_violations(f: InstanceFactsView, plan: MigrationPlanView) -> Seq<
    FindingView,
> {
    if plan.resume && f.status != STATUS_FAILED@ {
        seq![
            FindingView::of(
                MIGRATE_RESUME_NOT_FAILED@,
                "'resume' was requested but the instance is "@ + f.status
                    + " — only a FAILED instance has failure state to clear and parks to re-arm; a suspended instance resumes by correlation or by its timers, with no operator action at all"@,
            ),
        ]
    } else {
        Seq::empty()
    }
}

/// The refusal of a locus that a cross-process mapping does not name.
pub open spec fn unnamed(f: InstanceFactsView, plan: MigrationPlanView, locus: LocusView) -> FindingView {
    FindingView::at(
        MIGRATE_CROSS_PROCESS_UNMAPPED@,
        locus.source,
        locus.target,
        "this is a CROSS-PROCESS migration ('"@ + f.process_id + "' → '"@ + plan.target_process(
            f.process_id,
        ) + "'), so the "@ + locus.kind.label_view() + " at '"@ + locus.source
            + "' needs an explicit nodeMapping entry — identity is never implicit across process ids, even when the target happens to declare the same id"@,
    )
}

/// The loci that a cross-process mapping does not name, in the loci's order.
pub open spec fn cross_violations(
    f: InstanceFactsView,
    plan: MigrationPlanView,
    loci: Seq<LocusView>,
) -> Seq<FindingView>
    decreases loci.len(),
{
    if loci.len() == 0 || !plan.crosses(f.process_id) {
        Seq::empty()
    } else {
        let prior = cross_violations(f, plan, loci.drop_last());
        if keyed::has(plan.mapping, loci.last().source) {
            prior
        } else {
            prior.push(unnamed(f, plan, loci.last()))
        }
    }
}

/// Whether one of `loci` stands at node `id` of the source.
pub open spec fn pins(loci: Seq<LocusView>, id: Seq<char>) -> bool {
    exists|i: int| 0 <= i < loci.len() && (#[trigger] loci[i]).source == id
}

/// The refusal of a mapping entry that does nothing.
pub open spec fn idle(from: Seq<char>, to: Seq<char>) -> FindingView {
    FindingView::at(
        MIGRATE_MAPPING_INVALID@,
        from,
        to,
        "nodeMapping names source node '"@ + from
            + "', which this instance neither parks at nor has completed — the entry would do nothing"@,
    )
}

/// The mapping entries that do nothing, in the order of their keys.
pub open spec fn mapping_violations(
    f: InstanceFactsView,
    loci: Seq<LocusView>,
    mapping: Seq<(Seq<char>, Seq<char>)>,
) -> Seq<FindingView>
    decreases mapping.len(),
{
    if mapping.len() == 0 {
        Seq::empty()
    } else {
        let prior = mapping_violations(f, loci, mapping.drop_last());
        let entry = mapping.last();
        if pins(loci, entry.0) || f.completed_nodes.contains(entry.0) {
            prior
        } else {
            prior.push(idle(entry.0, entry.1))
        }
    }
}

/// Whether a locus is the position of a parked token. A routed start and a retry budget are not.
pub open spec fn holds_token(kind: LocusKind) -> bool {
    kind != LocusKind::RoutedStart && kind != LocusKind::RetryBudget
}

/// The source node of the last token among `loci` that maps to `target`.
pub open spec fn last_onto(loci: Seq<LocusView>, target: Seq<char>) -> Option<Seq<char>>
    decreases loci.len(),
{
    if loci.len() == 0 {
        None
    } else if holds_token(loci.last().kind) && loci.last().target == target {
        Some(loci.last().source)
    } else {
        last_onto(loci.drop_last(), target)
    }
}

/// The refusal of two tokens on one node.
pub open spec fn folded(previous: Seq<char>, locus: LocusView) -> FindingView {
    FindingView::at(
        MIGRATE_MAPPING_INVALID@,
        locus.source,
        locus.target,
        "nodeMapping folds both '"@ + previous + "' and '"@ + locus.source + "' onto target node '"@
            + locus.target + "' — two parked wait points cannot share one node"@,
    )
}

/// The tokens that share their target with an earlier token, in the loci's order.
pub open spec fn fold_violations(loci: Seq<LocusView>) -> Seq<FindingView>
    decreases loci.len(),
{
    if loci.len() == 0 {
        Seq::empty()
    } else {
        let prior = fold_violations(loci.drop_last());
        let locus = loci.last();
        match last_onto(loci.drop_last(), locus.target) {
            Some(previous) => if holds_token(locus.kind) {
                prior.push(folded(previous, locus))
            } else {
                prior
            },
            None => prior,
        }
    }
}

/// The refusal of a target deployment that does not declare the process.
pub open spec fn process_absent(
    f: InstanceFactsView,
    plan: MigrationPlanView,
    ids: Seq<Seq<char>>,
) -> FindingView {
    FindingView::of(
        MIGRATE_PROCESS_ABSENT@,
        "the target deployment declares no process '"@ + plan.target_process(f.process_id)
            + "' (it declares: "@ + (if ids.len() == 0 {
            "none"@
        } else {
            text::joined(ids, ", "@)
        }) + ")"@,
    )
}

/// The refusal of a locus whose target node does not exist.
pub open spec fn node_unmapped(locus: LocusView) -> FindingView {
    FindingView::at(
        MIGRATE_NODE_UNMAPPED@,
        locus.source,
        locus.target,
        "the instance's "@ + locus.kind.label_view() + " at '"@ + locus.source + "' maps to '"@
            + locus.target
            + "', which does not exist in the target process — supply a nodeMapping entry for it"@,
    )
}

/// The refusal of a locus whose target node cannot host it.
pub open spec fn node_incompatible(locus: LocusView, shape: NodeShapeView) -> FindingView {
    FindingView::at(
        MIGRATE_NODE_INCOMPATIBLE@,
        locus.source,
        locus.target,
        "the instance's "@ + locus.kind.label_view() + " at '"@ + locus.source + "' maps to '"@
            + locus.target + "', which is a <"@ + shape.construct + "> — this locus needs "@
            + locus.kind.requirement_view(),
    )
}

/// The construct a locus lands on, where the target has its node and the node can host it.
pub open spec fn landing(locus: LocusView, target: Shapes) -> Option<Seq<char>> {
    match keyed::lookup(target, locus.target) {
        Some(shape) => if locus.kind.fits(shape) {
            Some(shape.construct)
        } else {
            None
        },
        None => None,
    }
}

/// The loci that do not land, in their order.
pub open spec fn landing_violations(loci: Seq<LocusView>, target: Shapes) -> Seq<FindingView>
    decreases loci.len(),
{
    if loci.len() == 0 {
        Seq::empty()
    } else {
        let prior = landing_violations(loci.drop_last(), target);
        let locus = loci.last();
        match keyed::lookup(target, locus.target) {
            None => prior.push(node_unmapped(locus)),
            Some(shape) => if locus.kind.fits(shape) {
                prior
            } else {
                prior.push(node_incompatible(locus, shape))
            },
        }
    }
}

/// Each locus with the construct it lands on.
pub open spec fn placed(loci: Seq<LocusView>, target: Option<Shapes>) -> Seq<
    (LocusView, Option<Seq<char>>),
> {
    loci.map_values(
        |l: LocusView|
            (
                l,
                match target {
                    Some(t) => landing(l, t),
                    None => None,
                },
            ),
    )
}

/// The warning about a completed node that the target does not declare.
pub open spec fn completed_absent(node: Seq<char>, to: Seq<char>) -> FindingView {
    FindingView::at(
        MIGRATE_COMPLETED_NODE_ABSENT@,
        node,
        to,
        "completed node '"@ + node + "' maps to '"@ + to
            + "', which the target process does not declare; replay-as-done matches by id, so if the target still reaches that node it will be EXECUTED again on the next resume"@,
    )
}

/// The completed nodes that the target does not declare, in their order.
pub open spec fn completed_warnings(
    completed: Seq<Seq<char>>,
    mapping: Seq<(Seq<char>, Seq<char>)>,
    target: Shapes,
) -> Seq<FindingView>
    decreases completed.len(),
{
    if completed.len() == 0 {
        Seq::empty()
    } else {
        let prior = completed_warnings(completed.drop_last(), mapping, target);
        let to = mapped(mapping, completed.last());
        if keyed::has(target, to) {
            prior
        } else {
            prior.push(completed_absent(completed.last(), to))
        }
    }
}

/// The warning about pending outbox rows.
pub open spec fn outbox_warnings(f: InstanceFactsView) -> Seq<FindingView> {
    if f.pending_outbox > 0 {
        seq![
            FindingView::of(
                MIGRATE_OUTBOX_PENDING_ON_SOURCE@,
                text::decimal(f.pending_outbox as nat)
                    + " pending outbox row(s) stay pinned to the SOURCE deployment — they were minted by its channel bindings and are dispatched against them (the dispatcher covers draining deployments), so they drain where they were made"@,
            ),
        ]
    } else {
        Seq::empty()
    }
}

/// The mapping entries for `loci`.
pub open spec fn locus_entries(loci: Seq<LocusView>) -> Seq<(Seq<char>, Seq<char>)>
    decreases loci.len(),
{
    if loci.len() == 0 {
        Seq::empty()
    } else {
        keyed::put(locus_entries(loci.drop_last()), loci.last().source, loci.last().target)
    }
}

/// `out` with each of `nodes` mapped to itself where it is not mapped yet.
pub open spec fn identity_entries(
    nodes: Seq<Seq<char>>,
    out: Seq<(Seq<char>, Seq<char>)>,
) -> Seq<(Seq<char>, Seq<char>)>
    decreases nodes.len(),
{
    if nodes.len() == 0 {
        out
    } else {
        let prior = identity_entries(nodes.drop_last(), out);
        if keyed::has(prior, nodes.last()) {
            prior
        } else {
            keyed::put(prior, nodes.last(), nodes.last())
        }
    }
}

/// `out` with every entry of `entries` in place of what was there.
pub open spec fn overlaid(
    entries: Seq<(Seq<char>, Seq<char>)>,
    out: Seq<(Seq<char>, Seq<char>)>,
) -> Seq<(Seq<char>, Seq<char>)>
    decreases entries.len(),
{
    if entries.len() == 0 {
        out
    } else {
        keyed::put(overlaid(entries.drop_last(), out), entries.last().0, entries.last().1)
    }
}

/// The mapping that is applied: every explicit entry, and identity for every locus and completed
/// node that the caller did not name.
pub open spec fn effective(
    loci: Seq<LocusView>,
    completed: Seq<Seq<char>>,
    explicit: Seq<(Seq<char>, Seq<char>)>,
) -> Seq<(Seq<char>, Seq<char>)> {
    overlaid(explicit, identity_entries(completed, locus_entries(loci)))
}

/// Every violation of a request, in the report's order.
pub open spec fn violations(
    f: InstanceFactsView,
    source: Option<Shapes>,
    target: Option<Shapes>,
    target_process_ids: Seq<Seq<char>>,
    plan: MigrationPlanView,
) -> Seq<FindingView> {
    let all = loci(f, source, plan.mapping);
    terminal_violations(f) + resume_violations(f, plan) + cross_violations(f, plan, all)
        + mapping_violations(f, all, plan.mapping) + fold_violations(all) + match target {
        None => seq![process_absent(f, plan, target_process_ids)],
        Some(t) => landing_violations(all, t),
    }
}

/// Every warning about a request, in the report's order. Without a target process only the frontier
/// is warned about.
pub open spec fn warnings(
    f: InstanceFactsView,
    source: Option<Shapes>,
    target: Option<Shapes>,
    plan: MigrationPlanView,
) -> Seq<FindingView> {
    frontier_warnings(f, source, plan.mapping, f.waiting_nodes.len() as int) + match target {
        None => Seq::empty(),
        Some(t) => completed_warnings(f.completed_nodes, plan.mapping, t) + outbox_warnings(f),
    }
}

/// The whole report on a request.
pub open spec fn report(
    f: InstanceFactsView,
    source: Option<Shapes>,
    target: Option<Shapes>,
    target_process_ids: Seq<Seq<char>>,
    plan: MigrationPlanView,
) -> MigrationReportView {
    let all = loci(f, source, plan.mapping);
    MigrationReportView {
        loci: placed(all, target),
        violations: violations(f, source, target, target_process_ids, plan),
        warnings: warnings(f, source, target, plan),
        effective_mapping: effective(all, f.completed_nodes, plan.mapping),
    }
}

fn check_cross_process(
    facts: &InstanceFacts,
    plan: &MigrationPlan,
    all: &Vec<Locus>,
    out: &mut Vec<Finding>,
)
    ensures
        findings(final(out)@) == findings(old(out)@) + cross_violations(
            facts@,
            plan@,
            loci_view(all@),
        ),
{
    let ghost start = findings(out@);
    let ghost l = loci_view(all@);
    assert(start + Seq::<FindingView>::empty() =~= start);
    if plan.is_cross_process(&facts.process_id) {
        let to = plan.target_process_for(&facts.process_id);
        let mut i: usize = 0;
        while i < all.len()
            invariant
                i <= all.len(),
                l == loci_view(all@),
                to@ == plan@.target_process(facts@.process_id),
                plan@.crosses(facts@.process_id),
                findings(out@) == start + cross_violations(facts@, plan@, l.take(i as int)),
            decreases all.len() - i,
        {
            let locus = &all[i];
            let ghost next = l.take(i + 1);
            assert(next.drop_last() =~= l.take(i as int));
            assert(next.last() == locus@);
            if !plan.mapping.contains_key(&locus.source_node_id) {
                let mut detail = text::text5(
                    "this is a CROSS-PROCESS migration ('",
                    &facts.process_id,
                    "' → '",
                    &to,
                    "'), so the ",
                );
                detail.append(locus.kind.label());
                detail.append(" at '");
                detail.append(&locus.source_node_id);
                detail.append(
                    "' needs an explicit nodeMapping entry — identity is never implicit across process ids, even when the target happens to declare the same id",
                );
                let finding = Finding::at(
                    MIGRATE_CROSS_PROCESS_UNMAPPED,
                    &locus.source_node_id,
                    &locus.target_node_id,
                    detail,
                );
                let ghost prior = out@;
                out.push(finding);
                proof {
                    findings_push(prior, finding);
                    assert(findings(out@) =~= start + cross_violations(facts@, plan@, next));
                }
            }
            i = i + 1;
        }
        assert(l.take(all.len() as int) =~= l);
    }
}

fn has_source(all: &Vec<Locus>, id: &str) -> (r: bool)
    ensures
        r == pins(loci_view(all@), id@),
{
    let ghost l = loci_view(all@);
    let mut i: usize = 0;
    while i < all.len()
        invariant
            i <= all.len(),
            l == loci_view(all@),
            forall|k: int| 0 <= k < i ==> (#[trigger] l[k]).source != id@,
        decreases all.len() - i,
    {
        assert(l[i as int] == all@[i as int]@);
        if text::same(&all[i].source_node_id, id) {
            return true;
        }
        i = i + 1;
    }
    false
}

fn check_mapping(facts: &InstanceFacts, mapping: &TextMap<String>, all: &Vec<Locus>, out: &mut Vec<Finding>)
    ensures
        findings(final(out)@) == findings(old(out)@) + mapping_violations(
            facts@,
            loci_view(all@),
            mapping@,
        ),
{
    let ghost start = findings(out@);
    let ghost l = loci_view(all@);
    let ghost m = mapping@;
    let mut i: usize = 0;
    assert(start + Seq::<FindingView>::empty() =~= start);
    while i < mapping.len()
        invariant
            i <= m.len(),
            m == mapping@,
            l == loci_view(all@),
            findings(out@) == start + mapping_violations(facts@, l, m.take(i as int)),
        decreases m.len() - i,
    {
        let from = mapping.key_at(i);
        let to = mapping.value_at(i);
        let ghost next = m.take(i + 1);
        assert(next.drop_last() =~= m.take(i as int));
        assert(next.last() == (from@, to@));
        if !has_source(all, from) && !text::contains(&facts.completed_nodes, from) {
            let finding = Finding::at(
                MIGRATE_MAPPING_INVALID,
                from,
                to,
                text::text3(
                    "nodeMapping names source node '",
                    from,
                    "', which this instance neither parks at nor has completed — the entry would do nothing",
                ),
            );
            let ghost prior = out@;
            out.push(finding);
            proof {
                findings_push(prior, finding);
                assert(findings(out@) =~= start + mapping_violations(facts@, l, next));
            }
        }
        i = i + 1;
    }
    assert(m.take(m.len() as int) =~= m);
}

fn token_kind(kind: LocusKind) -> (r: bool)
    ensures
        r == holds_token(kind),
{
    kind != LocusKind::RoutedStart && kind != LocusKind::RetryBudget
}

fn previous_onto<'a>(all: &'a Vec<Locus>, before: usize, target: &str) -> (r: Option<&'a String>)
    requires
        before <= all.len(),
    ensures
        match r {
            Some(s) => last_onto(loci_view(all@).take(before as int), target@) == Some(s@),
            None => last_onto(loci_view(all@).take(before as int), target@) is None,
        },
{
    let ghost l = loci_view(all@);
    let mut i: usize = before;
    while i > 0
        invariant
            i <= before <= all.len(),
            l == loci_view(all@),
            last_onto(l.take(before as int), target@) == last_onto(l.take(i as int), target@),
        decreases i,
    {
        let ghost part = l.take(i as int);
        assert(part.last() == all@[i - 1]@);
        assert(part.drop_last() =~= l.take(i - 1));
        if token_kind(all[i - 1].kind) && text::same(&all[i - 1].target_node_id, target) {
            return Some(&all[i - 1].source_node_id);
        }
        i = i - 1;
    }
    None
}

fn check_folds(all: &Vec<Locus>, out: &mut Vec<Finding>)
    ensures
        findings(final(out)@) == findings(old(out)@) + fold_violations(loci_view(all@)),
{
    let ghost start = findings(out@);
    let ghost l = loci_view(all@);
    let mut i: usize = 0;
    assert(start + Seq::<FindingView>::empty() =~= start);
    while i < all.len()
        invariant
            i <= all.len(),
            l == loci_view(all@),
            findings(out@) == start + fold_violations(l.take(i as int)),
        decreases all.len() - i,
    {
        let locus = &all[i];
        let ghost next = l.take(i + 1);
        assert(next.drop_last() =~= l.take(i as int));
        assert(next.last() == locus@);
        if token_kind(locus.kind) {
            match previous_onto(all, i, &locus.target_node_id) {
                Some(previous) => {
                    let mut detail = text::text5(
                        "nodeMapping folds both '",
                        previous,
                        "' and '",
                        &locus.source_node_id,
                        "' onto target node '",
                    );
                    detail.append(&locus.target_node_id);
                    detail.append("' — two parked wait points cannot share one node");
                    let finding = Finding::at(
                        MIGRATE_MAPPING_INVALID,
                        &locus.source_node_id,
                        &locus.target_node_id,
                        detail,
                    );
                    let ghost prior = out@;
                    out.push(finding);
                    proof {
                        findings_push(prior, finding);
                        assert(findings(out@) =~= start + fold_violations(next));
                    }
                },
                None => {},
            }
        }
        i = i + 1;
    }
    assert(l.take(all.len() as int) =~= l);
}

/// Place one locus on the target process: the construct it lands on, or the refusal.
fn place(locus: &Locus, target: &ProcessNodeIndex) -> (r: Result<&'static str, Finding>)
    ensures
        match r {
            Ok(c) => landing(locus@, target@) == Some(c@) && landing_violations(
                seq![locus@],
                target@,
            ) == Seq::<FindingView>::empty(),
            Err(v) => landing(locus@, target@) is None && landing_violations(seq![locus@], target@)
                == seq![v@],
        },
{
    proof {
        reveal_with_fuel(landing_violations, 2);
        let one = seq![locus@];
        assert(one.drop_last() =~= Seq::empty());
        assert(one.last() == locus@);
    }
    let found = target.get(&locus.target_node_id);
    match found {
        None => {
            let mut detail = text::text5(
                "the instance's ",
                locus.kind.label(),
                " at '",
                &locus.source_node_id,
                "' maps to '",
            );
            detail.append(&locus.target_node_id);
            detail.append(
                "', which does not exist in the target process — supply a nodeMapping entry for it",
            );
            let v = Finding::at(
                MIGRATE_NODE_UNMAPPED,
                &locus.source_node_id,
                &locus.target_node_id,
                detail,
            );
            assert(landing_violations(seq![locus@], target@) =~= seq![v@]);
            Err(v)
        },
        Some(shape) => {
            if locus.kind.accepts(shape) {
                Ok(shape.construct)
            } else {
                let mut detail = text::text5(
                    "the instance's ",
                    locus.kind.label(),
                    " at '",
                    &locus.source_node_id,
                    "' maps to '",
                );
                detail.append(&locus.target_node_id);
                detail.append("', which is a <");
                detail.append(shape.construct);
                detail.append("> — this locus needs ");
                detail.append(locus.kind.requirement());
                let v = Finding::at(
                    MIGRATE_NODE_INCOMPATIBLE,
                    &locus.source_node_id,
                    &locus.target_node_id,
                    detail,
                );
                assert(landing_violations(seq![locus@], target@) =~= seq![v@]);
                Err(v)
            }
        },
    }
}

proof fn landing_step(l: Seq<LocusView>, target: Shapes)
    requires
        l.len() > 0,
    ensures
        landing_violations(l, target) == landing_violations(l.drop_last(), target)
            + landing_violations(seq![l.last()], target),
{
    reveal_with_fuel(landing_violations, 2);
    let one = seq![l.last()];
    assert(one.drop_last() =~= Seq::empty());
    assert(one.last() == l.last());
    assert(landing_violations(l, target) =~= landing_violations(l.drop_last(), target)
        + landing_violations(one, target));
}

fn check_completed(
    facts: &InstanceFacts,
    mapping: &TextMap<String>,
    target: &ProcessNodeIndex,
    out: &mut Vec<Finding>,
)
    ensures
        findings(final(out)@) == findings(old(out)@) + completed_warnings(
            facts@.completed_nodes,
            mapping@,
            target@,
        ),
{
    let ghost start = findings(out@);
    let ghost c = facts@.completed_nodes;
    let mut i: usize = 0;
    assert(start + Seq::<FindingView>::empty() =~= start);
    while i < facts.completed_nodes.len()
        invariant
            i <= facts.completed_nodes.len(),
            c == text::texts(facts.completed_nodes@),
            findings(out@) == start + completed_warnings(c.take(i as int), mapping@, target@),
        decreases facts.completed_nodes.len() - i,
    {
        let node = &facts.completed_nodes[i];
        let to = map_one(mapping, node);
        let ghost next = c.take(i + 1);
        assert(next.drop_last() =~= c.take(i as int));
        assert(next.last() == node@);
        if !target.contains_key(&to) {
            let detail = text::text5(
                "completed node '",
                node,
                "' maps to '",
                &to,
                "', which the target process does not declare; replay-as-done matches by id, so if the target still reaches that node it will be EXECUTED again on the next resume",
            );
            let finding = Finding::at(MIGRATE_COMPLETED_NODE_ABSENT, node, &to, detail);
            let ghost prior = out@;
            out.push(finding);
            proof {
                findings_push(prior, finding);
                assert(findings(out@) =~= start + completed_warnings(next, mapping@, target@));
            }
        }
        i = i + 1;
    }
    assert(c.take(c.len() as int) =~= c);
}

/// The mapping that is applied.
pub fn effective_mapping(
    all: &Vec<(Locus, Option<&'static str>)>,
    facts: &InstanceFacts,
    explicit: &TextMap<String>,
) -> (r: TextMap<String>)
    ensures
        r@ == effective(
            placed_view(all@).map_values(|p: (LocusView, Option<Seq<char>>)| p.0),
            facts@.completed_nodes,
            explicit@,
        ),
{
    let ghost l = placed_view(all@).map_values(|p: (LocusView, Option<Seq<char>>)| p.0);
    let mut out: TextMap<String> = TextMap::new();
    let mut i: usize = 0;
    while i < all.len()
        invariant
            i <= all.len(),
            l == placed_view(all@).map_values(|p: (LocusView, Option<Seq<char>>)| p.0),
            out@ == locus_entries(l.take(i as int)),
        decreases all.len() - i,
    {
        let ghost next = l.take(i + 1);
        assert(next.drop_last() =~= l.take(i as int));
        assert(next.last() == all@[i as int].0@);
        out.insert(all[i].0.source_node_id.clone(), all[i].0.target_node_id.clone());
        i = i + 1;
    }
    assert(l.take(all.len() as int) =~= l);
    let ghost base = out@;
    let ghost c = facts@.completed_nodes;
    let mut j: usize = 0;
    while j < facts.completed_nodes.len()
        invariant
            j <= facts.completed_nodes.len(),
            c == text::texts(facts.completed_nodes@),
            out@ == identity_entries(c.take(j as int), base),
        decreases facts.completed_nodes.len() - j,
    {
        let node = &facts.completed_nodes[j];
        let ghost next = c.take(j + 1);
        assert(next.drop_last() =~= c.take(j as int));
        assert(next.last() == node@);
        if !out.contains_key(node) {
            out.insert(node.clone(), node.clone());
        }
        j = j + 1;
    }
    assert(c.take(c.len() as int) =~= c);
    let ghost filled = out@;
    let ghost e = explicit@;
    let mut k: usize = 0;
    while k < explicit.len()
        invariant
            k <= e.len(),
            e == explicit@,
            out@ == overlaid(e.take(k as int), filled),
        decreases e.len() - k,
    {
        let ghost next = e.take(k + 1);
        assert(next.drop_last() =~= e.take(k as int));
        out.insert(explicit.key_at(k).clone(), explicit.value_at(k).clone());
        k = k + 1;
    }
    assert(e.take(e.len() as int) =~= e);
    out
}

/// Validate one migration: every violation, never just the first.
///
/// `target` is the node index of the process the instance is validated against, `None` where the
/// target deployment does not declare that process at all.
pub fn validate(
    facts: &InstanceFacts,
    source: Option<&ProcessNodeIndex>,
    target: Option<&ProcessNodeIndex>,
    target_process_ids: &Vec<String>,
    plan: &MigrationPlan,
) -> (r: MigrationReport)
    ensures
        r@ == report(
            facts@,
            shapes_of(source),
            shapes_of(target),
            text::texts(target_process_ids@),
            plan@,
        ),
{
    let ghost f = facts@;
    let ghost p = plan@;
    let ghost src = shapes_of(source);
    let mut refused: Vec<Finding> = Vec::new();
    let mut noted: Vec<Finding> = Vec::new();
    if text::same(&facts.status, STATUS_COMPLETED) || text::same(&facts.status, STATUS_TERMINATED) {
        refused.push(
            Finding::of(
                MIGRATE_INSTANCE_TERMINAL,
                text::text3(
                    "instance already reached ",
                    &facts.status,
                    " — a finished instance is retained history, not live state, and migrating it would rewrite the record of where it ran",
                ),
            ),
        );
    }
    assert(findings(refused@) =~= terminal_violations(f));
    if plan.resume && !text::same(&facts.status, STATUS_FAILED) {
        refused.push(
            Finding::of(
                MIGRATE_RESUME_NOT_FAILED,
                text::text3(
                    "'resume' was requested but the instance is ",
                    &facts.status,
                    " — only a FAILED instance has failure state to clear and parks to re-arm; a suspended instance resumes by correlation or by its timers, with no operator action at all",
                ),
            ),
        );
    }
    assert(findings(refused@) =~= terminal_violations(f) + resume_violations(f, p));
    let all = derive_loci(facts, source, &plan.mapping, &mut noted);
    let ghost l = loci(f, src, p.mapping);
    check_cross_process(facts, plan, &all, &mut refused);
    check_mapping(facts, &plan.mapping, &all, &mut refused);
    check_folds(&all, &mut refused);
    let ghost general = findings(refused@);
    let ghost frontier = findings(noted@);
    assert(frontier =~= frontier_warnings(f, src, p.mapping, f.waiting_nodes.len() as int));
    let mut loci_out: Vec<(Locus, Option<&'static str>)> = Vec::new();
    let rest = all;
    match target {
        None => {
            let declared = if target_process_ids.len() == 0 {
                "none".to_owned()
            } else {
                text::join(target_process_ids, ", ")
            };
            refused.push(
                Finding::of(
                    MIGRATE_PROCESS_ABSENT,
                    text::text5(
                        "the target deployment declares no process '",
                        &plan.target_process_for(&facts.process_id),
                        "' (it declares: ",
                        &declared,
                        ")",
                    ),
                ),
            );
            assert(findings(refused@) =~= general + seq![
                process_absent(f, p, text::texts(target_process_ids@)),
            ]);
            let mut i: usize = 0;
            while i < rest.len()
                invariant
                    i <= rest.len(),
                    loci_view(rest@) == l,
                    loci_out.len() == i,
                    forall|k: int|
                        0 <= k < i ==> (#[trigger] placed_view(loci_out@)[k]) == (l[k], None::<
                            Seq<char>,
                        >),
                decreases rest.len() - i,
            {
                let ghost prior = placed_view(loci_out@);
                assert(l[i as int] == rest@[i as int]@);
                let locus = Locus {
                    kind: rest[i].kind,
                    source_node_id: rest[i].source_node_id.clone(),
                    target_node_id: rest[i].target_node_id.clone(),
                };
                loci_out.push((locus, None));
                assert(placed_view(loci_out@) =~= prior.push((l[i as int], None)));
                i = i + 1;
            }
        },
        Some(index) => {
            let mut i: usize = 0;
            assert(general + Seq::<FindingView>::empty() =~= general);
            while i < rest.len()
                invariant
                    i <= rest.len(),
                    loci_view(rest@) == l,
                    loci_out.len() == i,
                    forall|k: int|
                        0 <= k < i ==> (#[trigger] placed_view(loci_out@)[k]) == (
                            l[k],
                            landing(l[k], index@),
                        ),
                    findings(refused@) == general + landing_violations(
                        l.take(i as int),
                        index@,
                    ),
                decreases rest.len() - i,
            {
                let ghost prior = placed_view(loci_out@);
                let ghost found = refused@;
                assert(l[i as int] == rest@[i as int]@);
                let locus = Locus {
                    kind: rest[i].kind,
                    source_node_id: rest[i].source_node_id.clone(),
                    target_node_id: rest[i].target_node_id.clone(),
                };
                proof {
                    let next = l.take(i + 1);
                    assert(next.drop_last() =~= l.take(i as int));
                    assert(next.last() == locus@);
                    landing_step(next, index@);
                }
                let construct = match place(&locus, index) {
                    Ok(c) => {
                        assert(landing_violations(l.take(i + 1), index@) =~= landing_violations(
                            l.take(i as int),
                            index@,
                        ));
                        Some(c)
                    },
                    Err(v) => {
                        refused.push(v);
                        proof {
                            findings_push(found, v);
                            assert(findings(refused@) =~= general + landing_violations(
                                l.take(i + 1),
                                index@,
                            ));
                        }
                        None
                    },
                };
                loci_out.push((locus, construct));
                assert(placed_view(loci_out@) =~= prior.push((l[i as int], landing(l[i as int], index@))));
                i = i + 1;
            }
            assert(l.take(l.len() as int) =~= l);
            check_completed(facts, &plan.mapping, index, &mut noted);
            let ghost replayed = findings(noted@);
            if facts.pending_outbox > 0 {
                let finding = Finding::of(
                    MIGRATE_OUTBOX_PENDING_ON_SOURCE,
                    text::text2(
                        &text::decimal_text(facts.pending_outbox),
                        " pending outbox row(s) stay pinned to the SOURCE deployment — they were minted by its channel bindings and are dispatched against them (the dispatcher covers draining deployments), so they drain where they were made",
                    ),
                );
                let ghost prior = noted@;
                noted.push(finding);
                proof {
                    findings_push(prior, finding);
                    assert(outbox_warnings(f) =~= seq![finding@]);
                }
            }
            assert(findings(noted@) =~= replayed + outbox_warnings(f));
            assert(findings(noted@) =~= frontier + (completed_warnings(
                f.completed_nodes,
                p.mapping,
                index@,
            ) + outbox_warnings(f)));
        },
    }
    assert(placed_view(loci_out@) =~= placed(l, shapes_of(target)));
    assert(placed_view(loci_out@).map_values(|q: (LocusView, Option<Seq<char>>)| q.0) =~= l);
    let effective_map = effective_mapping(&loci_out, facts, &plan.mapping);
    let r = MigrationReport {
        loci: loci_out,
        violations: refused,
        warnings: noted,
        effective_mapping: effective_map,
    };
    assert(r@.violations =~= violations(
        f,
        src,
        shapes_of(target),
        text::texts(target_process_ids@),
        p,
    ));
    assert(r@.warnings =~= warnings(f, src, shapes_of(target), p));
    r
}

} // verus!
