//! The engine's own audit sinks: what an audit event becomes as a log record and as a table row, and
//! the dedicated pipeline that log records leave by.

use vstd::prelude::*;

use crate::diag::{Code, Diagnostic, DiagnosticView};
use crate::outside;
use crate::sources;
use crate::text;

verus! {

/// The instrumentation scope of audit records.
pub const AUDIT_SCOPE: &'static str = "sutra.audit";

/// An audit event.
pub struct AuditEvent {
    pub deployment_id: String,
    pub tenant: String,
    pub instance_id: String,
    pub seq: u32,
    /// When it happened, as RFC 3339 text.
    pub at: String,
    pub event_type: String,
    pub node_id: Option<String>,
    pub diagnostic_code: Option<String>,
    pub diagnostic_json: Option<String>,
    pub payload_json: String,
}

// ---- the pipeline ------------------------------------------------------------------------------

/// The dedicated audit pipeline: whether building it was tried, and whether it is live.
#[derive(Debug, Clone, Copy, PartialEq, Eq, Structural)]
pub struct AuditPipeline {
    pub tried: Option<bool>,
}

/// Whether the pipeline has to be built: only where that was never tried.
pub fn must_build(pipeline: &AuditPipeline) -> (r: bool)
    ensures
        r == (pipeline.tried is None),
{
    pipeline.tried.is_none()
}

/// What is known of the pipeline after a building.
pub open spec fn tried_next(tried: Option<bool>, built: bool) -> Option<bool> {
    match tried {
        Some(live) => Some(live),
        None => Some(built),
    }
}

/// Note that the pipeline was built, or could not be. The first outcome stays for the life of the
/// process. Whether the pipeline is live.
pub fn init_audit_otel(pipeline: &mut AuditPipeline, built: bool) -> (r: bool)
    ensures
        final(pipeline).tried == match old(pipeline).tried {
            Some(live) => Some(live),
            None => Some(built),
        },
        final(pipeline).tried == Some(r),
        final(pipeline).tried == tried_next(old(pipeline).tried, built),
{
    match pipeline.tried {
        Some(live) => live,
        None => {
            pipeline.tried = Some(built);
            built
        },
    }
}

/// What a pipeline that nobody tried yet has come to after initialisations; `built` says of each
/// whether a build would have come off.
pub open spec fn tried_after(built: Seq<bool>) -> Option<bool>
    decreases built.len(),
{
    if built.len() == 0 {
        None
    } else {
        match tried_after(built.drop_last()) {
            Some(live) => Some(live),
            None => Some(built.last()),
        }
    }
}

/// How many of the initialisations build the pipeline.
pub open spec fn builds(built: Seq<bool>) -> nat
    decreases built.len(),
{
    if built.len() == 0 {
        0
    } else {
        builds(built.drop_last()) + if tried_after(built.drop_last()) is None {
            1nat
        } else {
            0nat
        }
    }
}

/// However often the pipeline is initialised, it is built once, and the first outcome is answered
/// ever after, also where it was a failure.
pub proof fn the_pipeline_is_built_once(built: Seq<bool>)
    requires
        built.len() > 0,
    ensures
        builds(built) == 1,
        tried_after(built) == Some(built[0]),
    decreases built.len(),
{
    let prior = built.drop_last();
    if prior.len() > 0 {
        the_pipeline_is_built_once(prior);
    } else {
        assert(tried_after(prior) is None && builds(prior) == 0);
    }
}

/// Whether there is a live pipeline to flush.
pub fn flush_audit(pipeline: &AuditPipeline) -> (r: bool)
    ensures
        r == (pipeline.tried == Some(true)),
{
    match pipeline.tried {
        Some(live) => live,
        None => false,
    }
}

// ---- the log sink ------------------------------------------------------------------------------

/// The sink that exports audit events as log records.
#[derive(Debug, Clone, Copy, PartialEq, Eq, Structural)]
pub struct OtelAuditSink;

impl OtelAuditSink {
    /// The sink's name.
    pub fn name(&self) -> (r: &'static str)
        ensures
            r@ == "otel"@,
    {
        "otel"
    }
}

/// The value of a log record's attribute.
#[derive(Debug, PartialEq, Eq)]
pub enum AttributeValue {
    Text(String),
    Number(i64),
}

/// The contents of an [`AttributeValue`].
pub enum AttributeView {
    Text(Seq<char>),
    Number(i64),
}

impl View for AttributeValue {
    type V = AttributeView;

    open spec fn view(&self) -> AttributeView {
        match self {
            AttributeValue::Text(s) => AttributeView::Text(s@),
            AttributeValue::Number(n) => AttributeView::Number(*n),
        }
    }
}

/// The attributes that a collector selects audit records by.
pub open spec fn log_attributes(e: AuditEvent) -> Seq<(Seq<char>, AttributeView)> {
    seq![
        ("deployment_id"@, AttributeView::Text(e.deployment_id@)),
        ("tenant"@, AttributeView::Text(e.tenant@)),
        ("instance_id"@, AttributeView::Text(e.instance_id@)),
        ("seq"@, AttributeView::Number(e.seq as i64)),
        ("event_type"@, AttributeView::Text(e.event_type@)),
        (
            "node_id"@,
            AttributeView::Text(
                match e.node_id {
                    Some(n) => n@,
                    None => "-"@,
                },
            ),
        ),
    ]
}

/// What a row of attributes holds.
pub open spec fn attributes(v: Seq<(&'static str, AttributeValue)>) -> Seq<
    (Seq<char>, AttributeView),
> {
    v.map_values(|a: (&'static str, AttributeValue)| (a.0@, a.1@))
}

/// The attributes of an event's log record.
pub fn audit_attributes(e: &AuditEvent) -> (r: Vec<(&'static str, AttributeValue)>)
    ensures
        attributes(r@) == log_attributes(*e),
{
    let node = match &e.node_id {
        Some(n) => n.clone(),
        None => "-".to_owned(),
    };
    let mut out: Vec<(&'static str, AttributeValue)> = Vec::new();
    out.push(("deployment_id", AttributeValue::Text(e.deployment_id.clone())));
    out.push(("tenant", AttributeValue::Text(e.tenant.clone())));
    out.push(("instance_id", AttributeValue::Text(e.instance_id.clone())));
    out.push(("seq", AttributeValue::Number(e.seq as i64)));
    out.push(("event_type", AttributeValue::Text(e.event_type.clone())));
    out.push(("node_id", AttributeValue::Text(node)));
    assert(attributes(out@) =~= log_attributes(*e));
    out
}

// ---- the table sink ----------------------------------------------------------------------------

/// The sink that writes audit events to the audit table.
#[derive(Debug, Clone, Copy, PartialEq, Eq, Structural)]
pub struct SqlAuditSink;

impl SqlAuditSink {
    /// The sink's name.
    pub fn name(&self) -> (r: &'static str)
        ensures
            r@ == "sql"@,
    {
        "sql"
    }
}

/// A row of the audit table.
pub struct AuditEventRow {
    pub deployment: String,
    /// The instance, where its id is a UUID.
    pub instance_id: Option<u128>,
    pub seq: i32,
    /// When it happened, in nanoseconds since the epoch.
    pub at: i128,
    pub event_type: String,
    pub node_id: Option<String>,
    pub diagnostic_code: Option<String>,
    pub diagnostic_json: Option<String>,
    pub payload_json: String,
}

/// A sequence number as the table holds it: the largest that fits where it is too large.
pub open spec fn table_seq(seq: u32) -> int {
    if seq > i32::MAX {
        i32::MAX as int
    } else {
        seq as int
    }
}

/// Whether `row` is the row of an event, `now` standing in for a time that cannot be read.
pub open spec fn row_of(row: AuditEventRow, e: AuditEvent, now: i128) -> bool {
    &&& row.deployment@ == e.deployment_id@
    &&& row.instance_id == match outside::uuid_value(e.instance_id@) {
        Ok(v) => Some(v),
        Err(_) => None,
    }
    &&& row.seq == table_seq(e.seq)
    &&& row.at == outside::instant_or(e.at@, now)
    &&& row.event_type@ == e.event_type@
    &&& sources::opt(row.node_id) == sources::opt(e.node_id)
    &&& sources::opt(row.diagnostic_code) == sources::opt(e.diagnostic_code)
    &&& sources::opt(row.diagnostic_json) == sources::opt(e.diagnostic_json)
    &&& row.payload_json@ == e.payload_json@
}

/// The diagnostic of an event whose deployment the table cannot hold rows of.
pub open spec fn unusable(id: Seq<char>, error: Seq<char>) -> DiagnosticView {
    DiagnosticView::error(
        Code::AuditSinkWriteFailed,
        "audit event has an unusable deployment id '"@ + id + "': "@ + error,
    )
}

/// The row of an event, `now` standing in for a time that cannot be read. `deployment` is whether
/// the table can hold rows of its deployment.
pub fn row_at(e: &AuditEvent, deployment: &Result<(), String>, now: i128) -> (r: Result<
    AuditEventRow,
    Diagnostic,
>)
    ensures
        match *deployment {
            Ok(_) => r is Ok && row_of(r->Ok_0, *e, now),
            Err(error) => r is Err && r->Err_0@ == unusable(e.deployment_id@, error@),
        },
{
    match deployment {
        Err(error) => {
            return Err(
                Diagnostic::error(
                    Code::AuditSinkWriteFailed,
                    text::text4(
                        "audit event has an unusable deployment id '",
                        &e.deployment_id,
                        "': ",
                        error,
                    ),
                ),
            );
        },
        Ok(_) => {},
    }
    Ok(
        AuditEventRow {
            deployment: e.deployment_id.clone(),
            instance_id: match outside::parse_uuid(&e.instance_id) {
                Ok(v) => Some(v),
                Err(_) => None,
            },
            seq: if e.seq > 2147483647 {
                2147483647
            } else {
                e.seq as i32
            },
            at: outside::received_or(&e.at, now),
            event_type: e.event_type.clone(),
            node_id: sources::copy_opt(&e.node_id),
            diagnostic_code: sources::copy_opt(&e.diagnostic_code),
            diagnostic_json: sources::copy_opt(&e.diagnostic_json),
            payload_json: e.payload_json.clone(),
        },
    )
}

impl SqlAuditSink {
    /// The row of an event; the clock's time stands in for one that cannot be read.
    pub fn to_row(e: &AuditEvent, deployment: &Result<(), String>) -> (r: Result<
        AuditEventRow,
        Diagnostic,
    >)
        ensures
            match *deployment {
                Ok(_) => r is Ok && exists|now: i128| #[trigger] row_of(r->Ok_0, *e, now),
                Err(error) => r is Err && r->Err_0@ == unusable(e.deployment_id@, error@),
            },
    {
        let now: i128 = outside::now_nanos();
        let r = row_at(e, deployment, now);
        assert(*deployment is Ok ==> row_of(r->Ok_0, *e, now));
        r
    }

    /// The diagnostic of a row that could not be written.
    pub fn write_failure(error: &str) -> (r: Diagnostic)
        ensures
            r@ == DiagnosticView::error(
                Code::AuditSinkWriteFailed,
                "audit_event insert failed: "@ + error@,
            ),
    {
        Diagnostic::error(
            Code::AuditSinkWriteFailed,
            text::text2("audit_event insert failed: ", error),
        )
    }
}

} // verus!
