//! Migrating a filtered population: the selector, the vocabulary of outcomes, and the report.
//!
//! Each instance of a batch validates, claims and commits on its own and gets its own entry; one
//! instance's fate never becomes the call's.

use vstd::prelude::*;

use crate::json::{Json, JsonView};
use crate::json;
use crate::migrate::{MigrationPlan, MigrationPlanView};
use crate::sources;
use crate::text;

verus! {

/// The number of instances one batch call touches where the caller names no limit.
pub const BATCH_LIMIT_DEFAULT: i64 = 100;

/// The ceiling of an explicit limit.
pub const BATCH_LIMIT_MAX: i64 = 1000;

/// Which instances a batch migration acts on.
pub struct BatchFilter {
    /// The pin to migrate off.
    pub source_deployment_id: String,
    /// Narrow to one process id.
    pub process_id: Option<String>,
    /// Narrow to one snapshot status.
    pub status: Option<String>,
    /// Consider retained finished rows too.
    pub include_terminal: bool,
    pub limit: i64,
}

/// The contents of a [`BatchFilter`].
pub struct BatchFilterView {
    pub source_deployment_id: Seq<char>,
    pub process_id: Option<Seq<char>>,
    pub status: Option<Seq<char>>,
    pub include_terminal: bool,
    pub limit: i64,
}

impl View for BatchFilter {
    type V = BatchFilterView;

    open spec fn view(&self) -> BatchFilterView {
        BatchFilterView {
            source_deployment_id: self.source_deployment_id@,
            process_id: sources::opt(self.process_id),
            status: sources::opt(self.status),
            include_terminal: self.include_terminal,
            limit: self.limit,
        }
    }
}

impl BatchFilterView {
    /// The filter as a document.
    pub open spec fn json(self) -> JsonView {
        JsonView::empty().with(
            "sourceDeploymentId"@,
            JsonView::Text(self.source_deployment_id),
        ).with("processId"@, json::optional(self.process_id)).with(
            "status"@,
            json::optional(self.status),
        ).with("includeTerminal"@, JsonView::Bool(self.include_terminal)).with(
            "limit"@,
            JsonView::Int(self.limit as int),
        )
    }
}

impl BatchFilter {
    /// The filter as a document, echoed back in the report.
    pub fn to_json(&self) -> (r: Json)
        ensures
            r@ == self@.json(),
    {
        Json::object().with("sourceDeploymentId", Json::text(&self.source_deployment_id)).with(
            "processId",
            Json::optional(&self.process_id),
        ).with("status", Json::optional(&self.status)).with(
            "includeTerminal",
            Json::truth(self.include_terminal),
        ).with("limit", Json::Int(self.limit as i128))
    }
}

/// What happened to one instance.
#[derive(Debug, Clone, Copy, PartialEq, Eq, PartialOrd, Ord, Structural)]
pub enum MigrationOutcome {
    /// The move committed.
    Migrated,
    /// A dry run that validated.
    DryRunValid,
    /// Validation refused it.
    Refused,
    /// Something else holds the claim, or the validated move lost a race.
    Bounced,
    /// The id resolved to no instance under the source pin.
    NotFound,
    /// The engine failed while handling this instance.
    Error,
}

impl MigrationOutcome {
    /// The label that reports use.
    pub open spec fn label_view(self) -> Seq<char> {
        match self {
            MigrationOutcome::Migrated => "MIGRATED"@,
            MigrationOutcome::DryRunValid => "VALID"@,
            MigrationOutcome::Refused => "REFUSED"@,
            MigrationOutcome::Bounced => "BOUNCED"@,
            MigrationOutcome::NotFound => "NOT_FOUND"@,
            MigrationOutcome::Error => "ERROR"@,
        }
    }

    /// Whether asking again is safe.
    pub open spec fn safe_view(self) -> bool {
        self == MigrationOutcome::Bounced
    }

    /// The HTTP status of the outcome.
    pub open spec fn status_view(self) -> u16 {
        match self {
            MigrationOutcome::Migrated => 200,
            MigrationOutcome::DryRunValid => 200,
            MigrationOutcome::Refused => 422,
            MigrationOutcome::Bounced => 409,
            MigrationOutcome::NotFound => 404,
            MigrationOutcome::Error => 500,
        }
    }

    /// The stable label in the report.
    pub fn label(self) -> (r: &'static str)
        ensures
            r@ == self.label_view(),
    {
        match self {
            MigrationOutcome::Migrated => "MIGRATED",
            MigrationOutcome::DryRunValid => "VALID",
            MigrationOutcome::Refused => "REFUSED",
            MigrationOutcome::Bounced => "BOUNCED",
            MigrationOutcome::NotFound => "NOT_FOUND",
            MigrationOutcome::Error => "ERROR",
        }
    }

    /// Whether re-running the same call is the sanctioned response: only contention is.
    pub fn retry_safe(self) -> (r: bool)
        ensures
            r == (self == MigrationOutcome::Bounced),
            r == self.safe_view(),
    {
        matches!(self, MigrationOutcome::Bounced)
    }

    /// The HTTP status the single-instance endpoint answers with.
    pub fn http_status(self) -> (r: u16)
        ensures
            r == match self {
                MigrationOutcome::Migrated => 200u16,
                MigrationOutcome::DryRunValid => 200u16,
                MigrationOutcome::Refused => 422u16,
                MigrationOutcome::Bounced => 409u16,
                MigrationOutcome::NotFound => 404u16,
                MigrationOutcome::Error => 500u16,
            },
            r == self.status_view(),
    {
        match self {
            MigrationOutcome::Migrated => 200,
            MigrationOutcome::DryRunValid => 200,
            MigrationOutcome::Refused => 422,
            MigrationOutcome::Bounced => 409,
            MigrationOutcome::NotFound => 404,
            MigrationOutcome::Error => 500,
        }
    }
}

/// One instance's attempt: the outcome, and the full report on that instance.
pub struct InstanceAttempt {
    pub instance_id: String,
    pub outcome: MigrationOutcome,
    /// Whether this instance was brought back live.
    pub resumed: bool,
    /// The document the single-instance endpoint returns.
    pub report: Json,
}

/// The contents of an [`InstanceAttempt`].
pub struct InstanceAttemptView {
    pub instance_id: Seq<char>,
    pub outcome: MigrationOutcome,
    pub resumed: bool,
    pub report: JsonView,
}

impl View for InstanceAttempt {
    type V = InstanceAttemptView;

    open spec fn view(&self) -> InstanceAttemptView {
        InstanceAttemptView {
            instance_id: self.instance_id@,
            outcome: self.outcome,
            resumed: self.resumed,
            report: self.report@,
        }
    }
}

/// What a row of attempts holds.
pub open spec fn attempts_view(v: Seq<InstanceAttempt>) -> Seq<InstanceAttemptView> {
    v.map_values(|a: InstanceAttempt| a@)
}

impl InstanceAttemptView {
    /// The entry for this attempt: its report, where that is an object, with the entry's own
    /// members.
    pub open spec fn entry(self) -> JsonView {
        self.report.with("instanceId"@, JsonView::Text(self.instance_id)).with(
            "outcome"@,
            JsonView::Text(self.outcome.label_view()),
        ).with("retrySafe"@, JsonView::Bool(self.outcome == MigrationOutcome::Bounced))
    }
}

impl InstanceAttempt {
    /// The report with the members of a batch entry.
    pub fn to_entry_json(&self) -> (r: Json)
        ensures
            r@ == self@.entry(),
    {
        self.report.duplicate().with("instanceId", Json::text(&self.instance_id)).with(
            "outcome",
            Json::text(self.outcome.label()),
        ).with("retrySafe", Json::truth(self.outcome.retry_safe()))
    }
}

/// How many attempts came out as `want`.
pub open spec fn count(attempts: Seq<InstanceAttemptView>, want: MigrationOutcome) -> nat
    decreases attempts.len(),
{
    if attempts.len() == 0 {
        0
    } else {
        count(attempts.drop_last(), want) + if attempts.last().outcome == want {
            1nat
        } else {
            0nat
        }
    }
}

/// How many attempts brought their instance back live.
pub open spec fn count_resumed(attempts: Seq<InstanceAttemptView>) -> nat
    decreases attempts.len(),
{
    if attempts.len() == 0 {
        0
    } else {
        count_resumed(attempts.drop_last()) + if attempts.last().resumed {
            1nat
        } else {
            0nat
        }
    }
}

/// Every attempt is counted under exactly one outcome: the totals of a report add up to the number
/// of instances it selected, and no more of them came back live than were selected.
pub proof fn totals_add_up(attempts: Seq<InstanceAttemptView>)
    ensures
        count(attempts, MigrationOutcome::Migrated) + count(attempts, MigrationOutcome::DryRunValid)
            + count(attempts, MigrationOutcome::Refused) + count(
            attempts,
            MigrationOutcome::Bounced,
        ) + count(attempts, MigrationOutcome::NotFound) + count(attempts, MigrationOutcome::Error)
            == attempts.len(),
        count_resumed(attempts) <= attempts.len(),
    decreases attempts.len(),
{
    if attempts.len() > 0 {
        totals_add_up(attempts.drop_last());
    }
}

/// The totals of a report.
pub open spec fn totals(attempts: Seq<InstanceAttemptView>) -> JsonView {
    JsonView::empty().with(
        "migrated"@,
        JsonView::Int(count(attempts, MigrationOutcome::Migrated) as int),
    ).with("valid"@, JsonView::Int(count(attempts, MigrationOutcome::DryRunValid) as int)).with(
        "refused"@,
        JsonView::Int(count(attempts, MigrationOutcome::Refused) as int),
    ).with("bounced"@, JsonView::Int(count(attempts, MigrationOutcome::Bounced) as int)).with(
        "notFound"@,
        JsonView::Int(count(attempts, MigrationOutcome::NotFound) as int),
    ).with("errors"@, JsonView::Int(count(attempts, MigrationOutcome::Error) as int)).with(
        "resumed"@,
        JsonView::Int(count_resumed(attempts) as int),
    )
}

/// The one-line reading of the totals.
pub open spec fn note(attempts: Seq<InstanceAttemptView>) -> Seq<char> {
    let base = "each instance was validated, claimed and committed on its own — a refusal or a bounce moves nothing and leaves that instance exactly as it was."@;
    let bounced = count(attempts, MigrationOutcome::Bounced);
    if bounced > 0 {
        base + " "@ + text::decimal(bounced)
            + " instance(s) BOUNCED — a live ownership claim, or a validated move that lost a race at commit time; nothing moved for them either way. They are not retried inside this call: a hidden retry loop on an admin surface would make the runtime unbounded and the report a lie about when it was taken. Re-run the same request once the claims clear (sutra.instance.claim-timeout bounds them)."@
    } else {
        base
    }
}

/// The batch response: the plan that was applied, one entry for each attempt, and the totals.
pub open spec fn batch(
    filter: BatchFilterView,
    target: Seq<char>,
    plan: MigrationPlanView,
    attempts: Seq<InstanceAttemptView>,
) -> JsonView {
    JsonView::empty().with("fromDeploymentId"@, JsonView::Text(filter.source_deployment_id)).with(
        "toDeploymentId"@,
        JsonView::Text(target),
    ).with("toProcessId"@, json::optional(plan.target_process_id)).with(
        "dryRun"@,
        JsonView::Bool(plan.dry_run),
    ).with("resume"@, JsonView::Bool(plan.resume)).with(
        "mappingSource"@,
        JsonView::Text(plan.source()),
    ).with("filter"@, filter.json()).with("selected"@, JsonView::Int(attempts.len() as int)).with(
        "totals"@,
        totals(attempts),
    ).with(
        "instances"@,
        JsonView::List(attempts.map_values(|a: InstanceAttemptView| a.entry())),
    ).with("note"@, JsonView::Text(note(attempts)))
}

fn count_outcome(attempts: &Vec<InstanceAttempt>, want: MigrationOutcome) -> (r: u64)
    ensures
        r == count(attempts_view(attempts@), want),
        r <= attempts.len(),
{
    let ghost a = attempts_view(attempts@);
    let mut n: u64 = 0;
    let mut i: usize = 0;
    while i < attempts.len()
        invariant
            i <= attempts.len(),
            a == attempts_view(attempts@),
            n == count(a.take(i as int), want),
            n <= i,
        decreases attempts.len() - i,
    {
        assert(a.take(i + 1).drop_last() =~= a.take(i as int));
        assert(a.take(i + 1).last() == attempts@[i as int]@);
        if attempts[i].outcome == want {
            n = n + 1;
        }
        i = i + 1;
    }
    assert(a.take(a.len() as int) =~= a);
    n
}

fn count_live(attempts: &Vec<InstanceAttempt>) -> (r: u64)
    ensures
        r == count_resumed(attempts_view(attempts@)),
{
    let ghost a = attempts_view(attempts@);
    let mut n: u64 = 0;
    let mut i: usize = 0;
    while i < attempts.len()
        invariant
            i <= attempts.len(),
            a == attempts_view(attempts@),
            n == count_resumed(a.take(i as int)),
            n <= i,
        decreases attempts.len() - i,
    {
        assert(a.take(i + 1).drop_last() =~= a.take(i as int));
        assert(a.take(i + 1).last() == attempts@[i as int]@);
        if attempts[i].resumed {
            n = n + 1;
        }
        i = i + 1;
    }
    assert(a.take(a.len() as int) =~= a);
    n
}

/// The one-line reading of the totals.
pub fn batch_note(attempts: &Vec<InstanceAttempt>) -> (r: String)
    ensures
        r@ == note(attempts_view(attempts@)),
{
    let bounced = count_outcome(attempts, MigrationOutcome::Bounced);
    let base = "each instance was validated, claimed and committed on its own — a refusal or a bounce moves nothing and leaves that instance exactly as it was.";
    if bounced > 0 {
        text::text4(
            base,
            " ",
            &text::decimal_text(bounced),
            " instance(s) BOUNCED — a live ownership claim, or a validated move that lost a race at commit time; nothing moved for them either way. They are not retried inside this call: a hidden retry loop on an admin surface would make the runtime unbounded and the report a lie about when it was taken. Re-run the same request once the claims clear (sutra.instance.claim-timeout bounds them).",
        )
    } else {
        base.to_owned()
    }
}

/// Shape the batch response. Its status describes the batch, never its instances: scripts key on
/// the totals.
pub fn batch_report(
    filter: &BatchFilter,
    target_deployment_id: &str,
    plan: &MigrationPlan,
    attempts: &Vec<InstanceAttempt>,
) -> (r: Json)
    ensures
        r@ == batch(filter@, target_deployment_id@, plan@, attempts_view(attempts@)),
{
    let ghost a = attempts_view(attempts@);
    let mut entries: Vec<Json> = Vec::new();
    let mut i: usize = 0;
    while i < attempts.len()
        invariant
            i <= attempts.len(),
            entries.len() == i,
            a == attempts_view(attempts@),
            forall|k: int| 0 <= k < i ==> json::contents(#[trigger] entries@[k]) == a[k].entry(),
        decreases attempts.len() - i,
    {
        let entry = attempts[i].to_entry_json();
        entries.push(entry);
        i = i + 1;
    }
    let totals_doc = Json::object().with(
        "migrated",
        Json::count(count_outcome(attempts, MigrationOutcome::Migrated)),
    ).with("valid", Json::count(count_outcome(attempts, MigrationOutcome::DryRunValid))).with(
        "refused",
        Json::count(count_outcome(attempts, MigrationOutcome::Refused)),
    ).with("bounced", Json::count(count_outcome(attempts, MigrationOutcome::Bounced))).with(
        "notFound",
        Json::count(count_outcome(attempts, MigrationOutcome::NotFound)),
    ).with("errors", Json::count(count_outcome(attempts, MigrationOutcome::Error))).with(
        "resumed",
        Json::count(count_live(attempts)),
    );
    let instances = Json::List(entries);
    assert(instances@->List_0 =~= a.map_values(|x: InstanceAttemptView| x.entry()));
    Json::object().with("fromDeploymentId", Json::text(&filter.source_deployment_id)).with(
        "toDeploymentId",
        Json::text(target_deployment_id),
    ).with("toProcessId", Json::optional(&plan.target_process_id)).with(
        "dryRun",
        Json::truth(plan.dry_run),
    ).with("resume", Json::truth(plan.resume)).with(
        "mappingSource",
        Json::text(plan.mapping_source()),
    ).with("filter", filter.to_json()).with(
        "selected",
        Json::count(attempts.len() as u64),
    ).with("totals", totals_doc).with("instances", instances).with(
        "note",
        Json::text(&batch_note(attempts)),
    )
}

} // verus!
