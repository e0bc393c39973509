//! The worker-facing pull surface: what a request says, what a locked task looks like to a worker,
//! and how a problem is answered. Every answer fails closed: a lock problem is a conflict that the
//! worker must react to, never a success.

use vstd::prelude::*;

use crate::base64;
use crate::bridge;
use crate::diag::{Code, Diagnostic, DiagnosticView};
use crate::diag;
use crate::duration::Duration;
use crate::json::{Json, JsonView};
use crate::json;
use crate::keyed::TextMap;
use crate::outside;
use crate::sources;
use crate::text;

verus! {

// ---- reading a request -------------------------------------------------------------------------

/// The texts among a document's items.
pub open spec fn texts_among(items: Seq<JsonView>) -> Seq<Seq<char>>
    decreases items.len(),
{
    if items.len() == 0 {
        Seq::empty()
    } else {
        let prior = texts_among(items.drop_last());
        match items.last() {
            JsonView::Text(s) => prior.push(s),
            _ => prior,
        }
    }
}

/// The texts of the list under `key`; nothing where there is no list.
pub open spec fn strings(body: JsonView, key: Seq<char>) -> Seq<Seq<char>> {
    match body.member(key) {
        Some(JsonView::List(items)) => texts_among(items),
        _ => Seq::empty(),
    }
}

/// The texts of the list under `key`.
pub fn string_list(body: &Json, key: &str) -> (r: Vec<String>)
    ensures
        text::texts(r@) == strings(body@, key@),
{
    let mut out: Vec<String> = Vec::new();
    assert(text::texts(out@) =~= Seq::empty());
    match body.get(key) {
        Some(found) => {
            match found {
                Json::List(items) => {
                    let ghost all = found@->List_0;
                    let mut i: usize = 0;
                    while i < items.len()
                        invariant
                            i <= items.len(),
                            all.len() == items.len(),
                            forall|k: int|
                                0 <= k < all.len() ==> (#[trigger] all[k]) == json::contents(
                                    items@[k],
                                ),
                            text::texts(out@) == texts_among(all.take(i as int)),
                        decreases items.len() - i,
                    {
                        let ghost next = all.take(i + 1);
                        assert(next.drop_last() =~= all.take(i as int));
                        assert(next.last() == json::contents(items@[i as int]));
                        match &items[i] {
                            Json::Text(s) => {
                                let ghost prior = out@;
                                out.push(s.clone());
                                assert(text::texts(out@) =~= text::texts(prior).push(s@));
                            },
                            _ => {},
                        }
                        i = i + 1;
                    }
                    assert(all.take(all.len() as int) =~= all);
                },
                _ => {},
            }
        },
        None => {},
    }
    out
}

/// The text under `key`, empty where there is none.
pub open spec fn text_or_empty(body: JsonView, key: Seq<char>) -> Seq<char> {
    match body.text_member(key) {
        Some(s) => s,
        None => Seq::empty(),
    }
}

fn text_or_blank(body: &Json, key: &str) -> (r: String)
    ensures
        r@ == text_or_empty(body@, key@),
{
    match body.get_text(key) {
        Some(s) => s.clone(),
        None => String::new(),
    }
}

fn optional_text(body: &Json, key: &str) -> (r: Option<String>)
    ensures
        sources::opt(r) == body@.text_member(key@),
{
    match body.get_text(key) {
        Some(s) => Some(s.clone()),
        None => None,
    }
}

/// The whole number under `key` within a range.
pub open spec fn whole(body: JsonView, key: Seq<char>, min: int, max: int) -> Option<int> {
    match body.member(key) {
        Some(JsonView::Int(n)) => if min <= n <= max {
            Some(n)
        } else {
            None
        },
        _ => None,
    }
}

fn whole_number(body: &Json, key: &str, min: i128, max: i128) -> (r: Option<i128>)
    ensures
        match r {
            Some(n) => whole(body@, key@, min as int, max as int) == Some(n as int),
            None => whole(body@, key@, min as int, max as int) is None,
        },
        r matches Some(n) ==> min <= n <= max,
{
    match body.get(key) {
        Some(found) => match found {
            Json::Int(n) => if min <= *n && *n <= max {
                Some(*n)
            } else {
                None
            },
            _ => None,
        },
        None => None,
    }
}

/// A claim request as a worker states it.
pub struct FetchRequest {
    pub worker_id: String,
    pub channels: Vec<String>,
    pub lock_duration: Option<String>,
    pub max_tasks: Option<u32>,
    pub async_response_timeout: Option<String>,
}

/// The contents of a [`FetchRequest`].
pub struct FetchRequestView {
    pub worker_id: Seq<char>,
    pub channels: Seq<Seq<char>>,
    pub lock_duration: Option<Seq<char>>,
    pub max_tasks: Option<u32>,
    pub async_response_timeout: Option<Seq<char>>,
}

impl View for FetchRequest {
    type V = FetchRequestView;

    open spec fn view(&self) -> FetchRequestView {
        FetchRequestView {
            worker_id: self.worker_id@,
            channels: text::texts(self.channels@),
            lock_duration: sources::opt(self.lock_duration),
            max_tasks: self.max_tasks,
            async_response_timeout: sources::opt(self.async_response_timeout),
        }
    }
}

/// What a claim request's body says. A task count keeps its low thirty-two bits.
pub open spec fn fetch_request(body: JsonView) -> FetchRequestView {
    FetchRequestView {
        worker_id: text_or_empty(body, "workerId"@),
        channels: strings(body, "channels"@),
        lock_duration: body.text_member("lockDuration"@),
        max_tasks: match whole(body, "maxTasks"@, 0, u64::MAX as int) {
            Some(n) => Some((n % 4_294_967_296) as u32),
            None => None,
        },
        async_response_timeout: body.text_member("asyncResponseTimeout"@),
    }
}

/// Read a claim request's body.
pub fn read_fetch_request(body: &Json) -> (r: FetchRequest)
    ensures
        r@ == fetch_request(body@),
{
    let max_tasks: Option<u32> = match whole_number(
        body,
        "maxTasks",
        0,
        18_446_744_073_709_551_615,
    ) {
        Some(n) => Some((n % 4_294_967_296) as u32),
        None => None,
    };
    FetchRequest {
        worker_id: text_or_blank(body, "workerId"),
        channels: string_list(body, "channels"),
        lock_duration: optional_text(body, "lockDuration"),
        max_tasks,
        async_response_timeout: optional_text(body, "asyncResponseTimeout"),
    }
}

/// The result payload of a completion: the bytes, where there are any, and their content type.
pub open spec fn payload(body: JsonView) -> Result<
    (Option<Seq<u8>>, Option<Seq<char>>),
    DiagnosticView,
> {
    let plain = body.text_member("result"@);
    let coded = body.text_member("resultBase64"@);
    let kind = body.text_member("contentType"@);
    match (plain, coded) {
        (Some(_), Some(_)) => Err(
            DiagnosticView::error(
                Code::ExternalTaskRequestInvalid,
                "a completion carries 'result' OR 'resultBase64', never both"@,
            ),
        ),
        (Some(s), None) => Ok((Some(vstd::utf8::encode_utf8(s)), kind)),
        (None, Some(s)) => match base64::decoded(s) {
            Some(b) => Ok((Some(b), kind)),
            None => Err(
                DiagnosticView::error(
                    Code::ExternalTaskRequestInvalid,
                    "resultBase64 is not valid base64"@,
                ),
            ),
        },
        (None, None) => Ok((None, kind)),
    }
}

/// Read a completion's result payload: `result` as text or `resultBase64` as bytes, never both.
/// Neither is legal too.
pub fn result_payload(body: &Json) -> (r: Result<(Option<Vec<u8>>, Option<String>), Diagnostic>)
    ensures
        match r {
            Ok(p) => payload(body@) == Ok::<
                (Option<Seq<u8>>, Option<Seq<char>>),
                DiagnosticView,
            >(
                (
                    match p.0 {
                        Some(b) => Some(b@),
                        None => None,
                    },
                    sources::opt(p.1),
                ),
            ),
            Err(e) => payload(body@) == Err::<
                (Option<Seq<u8>>, Option<Seq<char>>),
                DiagnosticView,
            >(e@),
        },
{
    let plain = body.get_text("result");
    let coded = body.get_text("resultBase64");
    if plain.is_some() && coded.is_some() {
        return Err(
            Diagnostic::error(
                Code::ExternalTaskRequestInvalid,
                "a completion carries 'result' OR 'resultBase64', never both".to_owned(),
            ),
        );
    }
    let content_type = optional_text(body, "contentType");
    match plain {
        Some(s) => {
            let b = s.as_str().as_bytes_vec();
            Ok((Some(b), content_type))
        },
        None => match coded {
            Some(s) => match base64::decode_base64(s) {
                Some(b) => Ok((Some(b), content_type)),
                None => Err(
                    Diagnostic::error(
                        Code::ExternalTaskRequestInvalid,
                        "resultBase64 is not valid base64".to_owned(),
                    ),
                ),
            },
            None => Ok((None, content_type)),
        },
    }
}

/// Read a completion: the worker, and the result payload. The worker is empty where none is named.
pub fn read_completion(body: &Json) -> (r: Result<
    (String, Option<Vec<u8>>, Option<String>),
    Diagnostic,
>)
    ensures
        match r {
            Ok(p) => {
                &&& p.0@ == text_or_empty(body@, "workerId"@)
                &&& payload(body@) == Ok::<(Option<Seq<u8>>, Option<Seq<char>>), DiagnosticView>(
                    (
                        match p.1 {
                            Some(b) => Some(b@),
                            None => None,
                        },
                        sources::opt(p.2),
                    ),
                )
            },
            Err(e) => payload(body@) == Err::<
                (Option<Seq<u8>>, Option<Seq<char>>),
                DiagnosticView,
            >(e@),
        },
{
    match result_payload(body) {
        Ok((result, content_type)) => Ok(
            (text_or_blank(body, "workerId"), result, content_type),
        ),
        Err(d) => Err(d),
    }
}

/// A failure report as a worker states it.
pub struct FailureReport {
    pub worker_id: String,
    pub error_message: String,
    /// The retry budget that the worker sets, where it sets one.
    pub retries: Option<i32>,
    pub retry_timeout: Option<Duration>,
}

/// The contents of a [`FailureReport`].
pub struct FailureReportView {
    pub worker_id: Seq<char>,
    pub error_message: Seq<char>,
    pub retries: Option<i32>,
    pub retry_timeout: Option<Duration>,
}

impl View for FailureReport {
    type V = FailureReportView;

    open spec fn view(&self) -> FailureReportView {
        FailureReportView {
            worker_id: self.worker_id@,
            error_message: self.error_message@,
            retries: self.retries,
            retry_timeout: self.retry_timeout,
        }
    }
}

/// How durations are read: the duration, or what is wrong with the text.
pub type Durations = spec_fn(Seq<char>) -> Result<Duration, Seq<char>>;

/// A number brought into the range of `i32`.
pub open spec fn clamped(n: int) -> i32 {
    if n < i32::MIN {
        i32::MIN
    } else if n > i32::MAX {
        i32::MAX
    } else {
        n as i32
    }
}

/// What a failure report's body says.
pub open spec fn failure_report(body: JsonView, read: Durations) -> Result<
    FailureReportView,
    DiagnosticView,
> {
    let retries = match whole(body, "retries"@, i64::MIN as int, i64::MAX as int) {
        Some(n) => Some(clamped(n)),
        None => None,
    };
    let worker_id = text_or_empty(body, "workerId"@);
    let error_message = text_or_empty(body, "errorMessage"@);
    match body.text_member("retryTimeout"@) {
        None => Ok(FailureReportView { worker_id, error_message, retries, retry_timeout: None }),
        Some(raw) => match read(text::trimmed(raw)) {
            Ok(d) => Ok(
                FailureReportView { worker_id, error_message, retries, retry_timeout: Some(d) },
            ),
            Err(reason) => Err(
                DiagnosticView::error(
                    Code::ExternalTaskRequestInvalid,
                    "retryTimeout: '"@ + raw + "' is not an ISO-8601 duration — "@ + reason,
                ),
            ),
        },
    }
}

/// Whether every answer of `parse` is the one that `read` gives.
pub open spec fn parses<P: Fn(&str) -> Result<Duration, String>>(parse: P, read: Durations) -> bool {
    forall|s: &str, r: Result<Duration, String>| #[trigger]
        call_ensures(parse, (s,), r) ==> match r {
            Ok(d) => read(s@) == Ok::<Duration, Seq<char>>(d),
            Err(e) => read(s@) == Err::<Duration, Seq<char>>(e@),
        }
}

/// Read a failure report's body; `parse` reads an ISO-8601 duration.
pub fn read_failure_report<P: Fn(&str) -> Result<Duration, String>>(body: &Json, parse: &P) -> (r:
    Result<FailureReport, Diagnostic>)
    requires
        forall|s: &str| call_requires(parse, (s,)),
    ensures
        forall|read: Durations| #[trigger]
            parses(*parse, read) ==> match r {
                Ok(f) => failure_report(body@, read) == Ok::<FailureReportView, DiagnosticView>(
                    f@,
                ),
                Err(e) => failure_report(body@, read) == Err::<FailureReportView, DiagnosticView>(
                    e@,
                ),
            },
{
    let worker_id = text_or_blank(body, "workerId");
    let error_message = text_or_blank(body, "errorMessage");
    let retries: Option<i32> = match whole_number(
        body,
        "retries",
        -9_223_372_036_854_775_808,
        9_223_372_036_854_775_807,
    ) {
        Some(n) => Some(
            if n < i32::MIN as i128 {
                i32::MIN
            } else if n > i32::MAX as i128 {
                i32::MAX
            } else {
                n as i32
            },
        ),
        None => None,
    };
    match body.get_text("retryTimeout") {
        None => Ok(FailureReport { worker_id, error_message, retries, retry_timeout: None }),
        Some(raw) => {
            let trimmed = text::trim(raw);
            match parse(trimmed.as_str()) {
                Ok(d) => Ok(
                    FailureReport { worker_id, error_message, retries, retry_timeout: Some(d) },
                ),
                Err(reason) => Err(
                    Diagnostic::error(
                        Code::ExternalTaskRequestInvalid,
                        text::text4(
                            "retryTimeout: '",
                            raw,
                            "' is not an ISO-8601 duration — ",
                            &reason,
                        ),
                    ),
                ),
            }
        },
    }
}

// ---- answers -----------------------------------------------------------------------------------

/// A task as the store hands it over.
pub struct ExternalTask {
    pub task_id: String,
    pub deployment_id: String,
    pub instance_id: String,
    pub channel: String,
    pub tenant: String,
    pub module_key: String,
    pub headers: TextMap<String>,
    pub body: Vec<u8>,
    pub content_type: Option<String>,
    pub outbox_key: String,
    pub traceparent: Option<String>,
    /// When it was parked, in nanoseconds since the epoch.
    pub created_at: i128,
    /// When the lock runs out, in nanoseconds since the epoch.
    pub lock_expires_at: Option<i128>,
    pub attempt_count: i32,
    pub retries_left: i32,
}

/// The contents of an [`ExternalTask`].
pub struct ExternalTaskView {
    pub task_id: Seq<char>,
    pub deployment_id: Seq<char>,
    pub instance_id: Seq<char>,
    pub channel: Seq<char>,
    pub tenant: Seq<char>,
    pub module_key: Seq<char>,
    pub headers: Seq<(Seq<char>, Seq<char>)>,
    pub body: Seq<u8>,
    pub content_type: Option<Seq<char>>,
    pub outbox_key: Seq<char>,
    pub traceparent: Option<Seq<char>>,
    pub created_at: i128,
    pub lock_expires_at: Option<i128>,
    pub attempt_count: i32,
    pub retries_left: i32,
}

impl View for ExternalTask {
    type V = ExternalTaskView;

    open spec fn view(&self) -> ExternalTaskView {
        ExternalTaskView {
            task_id: self.task_id@,
            deployment_id: self.deployment_id@,
            instance_id: self.instance_id@,
            channel: self.channel@,
            tenant: self.tenant@,
            module_key: self.module_key@,
            headers: self.headers@,
            body: self.body@,
            content_type: sources::opt(self.content_type),
            outbox_key: self.outbox_key@,
            traceparent: sources::opt(self.traceparent),
            created_at: self.created_at,
            lock_expires_at: self.lock_expires_at,
            attempt_count: self.attempt_count,
            retries_left: self.retries_left,
        }
    }
}

/// Text entries as an object.
pub open spec fn text_object(m: Seq<(Seq<char>, Seq<char>)>) -> JsonView
    decreases m.len(),
{
    if m.len() == 0 {
        JsonView::empty()
    } else {
        text_object(m.drop_last()).with(m.last().0, JsonView::Text(m.last().1))
    }
}

/// `j` with a text member, where there is a text.
pub open spec fn with_text(j: JsonView, name: Seq<char>, v: Option<Seq<char>>) -> JsonView {
    match v {
        Some(s) => j.with(name, JsonView::Text(s)),
        None => j,
    }
}

/// The members that every task has.
pub open spec fn task_base(t: ExternalTaskView) -> JsonView {
    JsonView::empty().with("id"@, JsonView::Text(t.task_id)).with(
        "channel"@,
        JsonView::Text(t.channel),
    ).with("tenant"@, JsonView::Text(t.tenant)).with(
        "moduleKey"@,
        JsonView::Text(t.module_key),
    ).with("deploymentId"@, JsonView::Text(t.deployment_id)).with(
        "instanceId"@,
        JsonView::Text(t.instance_id),
    ).with("idempotencyKey"@, JsonView::Text(t.outbox_key)).with(
        "headers"@,
        text_object(t.headers),
    ).with("retries"@, JsonView::Int(t.retries_left as int)).with(
        "attempts"@,
        JsonView::Int(t.attempt_count as int),
    )
}

/// A locked task as a worker sees it. The payload is text where the body is UTF-8, and base64
/// otherwise.
pub open spec fn task_document(t: ExternalTaskView) -> JsonView {
    let typed = with_text(task_base(t), "contentType"@, t.content_type);
    let timed = with_text(
        typed,
        "lockExpiresAt"@,
        match t.lock_expires_at {
            Some(at) => Some(outside::rfc3339_or_empty(at)),
            None => None,
        },
    );
    if vstd::utf8::valid_utf8(t.body) {
        timed.with("payload"@, JsonView::Text(vstd::utf8::decode_utf8(t.body)))
    } else {
        timed.with("payloadBase64"@, JsonView::Text(base64::encoded(t.body)))
    }
}

fn text_members(m: &TextMap<String>) -> (r: Json)
    ensures
        r@ == text_object(m@),
{
    let ghost all = m@;
    let mut out = Json::object();
    let mut i: usize = 0;
    while i < m.len()
        invariant
            i <= all.len(),
            all == m@,
            out@ == text_object(all.take(i as int)),
        decreases all.len() - i,
    {
        let ghost next = all.take(i + 1);
        assert(next.drop_last() =~= all.take(i as int));
        out = out.with(m.key_at(i), Json::text(m.value_at(i)));
        i = i + 1;
    }
    assert(all.take(all.len() as int) =~= all);
    out
}

/// The worker-visible projection of a locked task.
pub fn task_json(task: &ExternalTask) -> (r: Json)
    ensures
        r@ == task_document(task@),
{
    let mut out = Json::object().with("id", Json::text(&task.task_id)).with(
        "channel",
        Json::text(&task.channel),
    ).with("tenant", Json::text(&task.tenant)).with(
        "moduleKey",
        Json::text(&task.module_key),
    ).with("deploymentId", Json::text(&task.deployment_id)).with(
        "instanceId",
        Json::text(&task.instance_id),
    ).with("idempotencyKey", Json::text(&task.outbox_key)).with(
        "headers",
        text_members(&task.headers),
    ).with("retries", Json::Int(task.retries_left as i128)).with(
        "attempts",
        Json::Int(task.attempt_count as i128),
    );
    assert(out@ == task_base(task@));
    match &task.content_type {
        Some(kind) => {
            out = out.with("contentType", Json::text(kind));
        },
        None => {},
    }
    match task.lock_expires_at {
        Some(at) => {
            out = out.with("lockExpiresAt", Json::text(&outside::rfc3339(at)));
        },
        None => {},
    }
    match outside::utf8_text(&task.body) {
        Some(s) => {
            proof {
                vstd::utf8::encode_utf8_valid_utf8(s@);
                vstd::utf8::encode_utf8_decode_utf8(s@);
            }
            out.with("payload", Json::text(&s))
        },
        None => out.with("payloadBase64", Json::text(&base64::base64(&task.body))),
    }
}

/// The document of the tasks that a fetch hands over.
pub open spec fn tasks_document(tasks: Seq<ExternalTask>) -> JsonView {
    JsonView::empty().with(
        "tasks"@,
        JsonView::List(tasks.map_values(|t: ExternalTask| task_document(t@))),
    )
}

/// The answer to a claim: the tasks as the worker sees them, in their order.
pub fn tasks_json(tasks: &Vec<ExternalTask>) -> (r: Json)
    ensures
        r@ == JsonView::empty().with(
            "tasks"@,
            JsonView::List(tasks@.map_values(|t: ExternalTask| task_document(t@))),
        ),
        r@ == tasks_document(tasks@),
{
    let mut rendered: Vec<Json> = Vec::new();
    let mut i: usize = 0;
    while i < tasks.len()
        invariant
            i <= tasks.len(),
            rendered.len() == i,
            forall|k: int|
                0 <= k < i ==> json::contents(#[trigger] rendered@[k]) == task_document(tasks@[k]@),
        decreases tasks.len() - i,
    {
        let doc = task_json(&tasks[i]);
        rendered.push(doc);
        i = i + 1;
    }
    let list = Json::List(rendered);
    assert(list@->List_0 =~= tasks@.map_values(|t: ExternalTask| task_document(t@)));
    Json::object().with("tasks", list)
}

/// The document that answers an accepted completion.
pub open spec fn completed_document(
    task_id: Seq<char>,
    channel: Seq<char>,
    instance_id: Seq<char>,
) -> JsonView {
    JsonView::empty().with("taskId"@, JsonView::Text(task_id)).with(
        "channel"@,
        JsonView::Text(channel),
    ).with("instanceId"@, JsonView::Text(instance_id)).with("status"@, JsonView::Text("COMPLETED"@))
}

/// The answer to an accepted completion.
pub fn completed_json(task_id: &str, channel: &str, instance_id: &str) -> (r: Json)
    ensures
        r@ == JsonView::empty().with("taskId"@, JsonView::Text(task_id@)).with(
            "channel"@,
            JsonView::Text(channel@),
        ).with("instanceId"@, JsonView::Text(instance_id@)).with(
            "status"@,
            JsonView::Text("COMPLETED"@),
        ),
        r@ == completed_document(task_id@, channel@, instance_id@),
{
    Json::object().with("taskId", Json::text(task_id)).with("channel", Json::text(channel)).with(
        "instanceId",
        Json::text(instance_id),
    ).with("status", Json::text("COMPLETED"))
}

/// The document that answers a failure report.
pub open spec fn failed_document(
    task_id: Seq<char>,
    channel: Seq<char>,
    instance_id: Seq<char>,
    retries_left: i32,
    terminal: bool,
) -> JsonView {
    let word = if terminal {
        "TERMINAL"@
    } else {
        "PENDING"@
    };
    JsonView::empty().with("taskId"@, JsonView::Text(task_id)).with(
        "channel"@,
        JsonView::Text(channel),
    ).with("instanceId"@, JsonView::Text(instance_id)).with(
        "retries"@,
        JsonView::Int(retries_left as int),
    ).with("status"@, JsonView::Text(word))
}

/// The answer to a failure report: `TERMINAL` where the budget is spent, else `PENDING`.
pub fn failed_json(task_id: &str, channel: &str, instance_id: &str, retries_left: i32, terminal: bool) -> (r:
    Json)
    ensures
        r@ == JsonView::empty().with("taskId"@, JsonView::Text(task_id@)).with(
            "channel"@,
            JsonView::Text(channel@),
        ).with("instanceId"@, JsonView::Text(instance_id@)).with(
            "retries"@,
            JsonView::Int(retries_left as int),
        ).with(
            "status"@,
            JsonView::Text(
                if terminal {
                    "TERMINAL"@
                } else {
                    "PENDING"@
                },
            ),
        ),
        r@ == failed_document(task_id@, channel@, instance_id@, retries_left, terminal),
{
    let status = if terminal {
        "TERMINAL"
    } else {
        "PENDING"
    };
    Json::object().with("taskId", Json::text(task_id)).with("channel", Json::text(channel)).with(
        "instanceId",
        Json::text(instance_id),
    ).with("retries", Json::Int(retries_left as i128)).with("status", Json::text(status))
}

/// The HTTP status of a code.
pub open spec fn status(code: Code) -> u16 {
    match code {
        Code::ExternalTaskRequestInvalid => 400,
        Code::ExternalTaskNotFound => 404,
        Code::ExternalTaskLockHeld => 409,
        Code::ExternalTaskLockLost => 409,
        Code::ExternalTaskTerminal => 409,
        Code::ExternalTaskCompletionRejected => 422,
        Code::InboundPersistenceRequired => 503,
        _ => 500,
    }
}

/// No diagnostic is answered with a success.
pub proof fn problems_are_never_successes(code: Code)
    ensures
        400 <= status(code) < 600,
{
}

/// The HTTP status of a code.
pub fn status_for(code: Code) -> (r: u16)
    ensures
        r == status(code),
{
    match code {
        Code::ExternalTaskRequestInvalid => 400,
        Code::ExternalTaskNotFound => 404,
        Code::ExternalTaskLockHeld => 409,
        Code::ExternalTaskLockLost => 409,
        Code::ExternalTaskTerminal => 409,
        Code::ExternalTaskCompletionRejected => 422,
        Code::InboundPersistenceRequired => 503,
        _ => 500,
    }
}

/// The problem document of a diagnostic whose code is written `code_text`.
pub open spec fn problem_document(d: DiagnosticView, code_text: Seq<char>) -> JsonView {
    let base = JsonView::empty().with("type"@, JsonView::Text("about:blank"@)).with(
        "title"@,
        JsonView::Text(code_text),
    ).with("status"@, JsonView::Int(status(d.code) as int)).with(
        "detail"@,
        JsonView::Text(d.message),
    ).with("code"@, JsonView::Text(code_text));
    if d.attributes.len() == 0 {
        base
    } else {
        base.with("attributes"@, text_object(d.attributes))
    }
}

/// The RFC 7807 problem document of a diagnostic, with its status; `code_text` is how its code is
/// written.
pub fn problem(diagnostic: &Diagnostic, code_text: &str) -> (r: (u16, Json))
    ensures
        r.0 == status(diagnostic.code),
        r.1@ == problem_document(diagnostic@, code_text@),
{
    let status_code = status_for(diagnostic.code);
    let base = Json::object().with("type", Json::text("about:blank")).with(
        "title",
        Json::text(code_text),
    ).with("status", Json::count(status_code as u64)).with(
        "detail",
        Json::text(&diagnostic.message),
    ).with("code", Json::text(code_text));
    if diagnostic.attributes.len() == 0 {
        return (status_code, base);
    }
    let ghost all = diagnostic@.attributes;
    let mut attributes = Json::object();
    let mut i: usize = 0;
    while i < diagnostic.attributes.len()
        invariant
            i <= diagnostic.attributes.len(),
            all == diagnostic@.attributes,
            attributes@ == text_object(all.take(i as int)),
        decreases diagnostic.attributes.len() - i,
    {
        let ghost next = all.take(i + 1);
        assert(next.drop_last() =~= all.take(i as int));
        assert(next.last() == (
            diagnostic.attributes@[i as int].0@,
            diagnostic.attributes@[i as int].1@,
        ));
        attributes = attributes.with(
            &diagnostic.attributes[i].0,
            Json::text(&diagnostic.attributes[i].1),
        );
        i = i + 1;
    }
    assert(all.take(all.len() as int) =~= all);
    (status_code, base.with("attributes", attributes))
}

/// The diagnostic of a pull surface without persistence, answered as unavailable rather than as not
/// found: the engine has the feature, and the feature needs a database.
pub fn unavailable() -> (r: Diagnostic)
    ensures
        r@ == DiagnosticView::error(
            Code::InboundPersistenceRequired,
            "the external-task pull surface needs the engine datasource (sutra.datasource.url); this engine is running without persistence"@,
        ),
{
    Diagnostic::error(
        Code::InboundPersistenceRequired,
        "the external-task pull surface needs the engine datasource (sutra.datasource.url); this engine is running without persistence".to_owned(),
    )
}

/// The diagnostic of a task id that is no UUID.
pub open spec fn task_id_outcome(s: Seq<char>) -> Result<u128, DiagnosticView> {
    match outside::uuid_value(s) {
        Ok(v) => Ok(v),
        Err(e) => Err(
            DiagnosticView::error(
                Code::ExternalTaskRequestInvalid,
                "external task id '"@ + s + "' is not a UUID: "@ + e,
            ),
        ),
    }
}

/// The value of a task id.
pub fn parse_task_id(task_id: &str) -> (r: Result<u128, Diagnostic>)
    ensures
        diag::diagnosed(r) == task_id_outcome(task_id@),
{
    match outside::parse_uuid(task_id) {
        Ok(v) => Ok(v),
        Err(e) => Err(
            Diagnostic::error(
                Code::ExternalTaskRequestInvalid,
                text::text4("external task id '", task_id, "' is not a UUID: ", &e),
            ),
        ),
    }
}

/// The diagnostic of a failed store call.
pub open spec fn store_failure(context: Seq<char>, error: Seq<char>) -> DiagnosticView {
    DiagnosticView::error(Code::RuntimeUnexpected, context + ": "@ + error)
}

/// The diagnostic of a failed store call.
pub fn store_diag(context: &str, error: &str) -> (r: Diagnostic)
    ensures
        r@ == store_failure(context@, error@),
{
    Diagnostic::error(Code::RuntimeUnexpected, text::text3(context, ": ", error))
}

// ---- rows --------------------------------------------------------------------------------------

/// A task that a call parks for workers.
pub struct TaskRequest {
    pub deployment_id: String,
    pub instance_id: String,
    pub channel: String,
    pub tenant: String,
    pub module_key: String,
    pub body: Vec<u8>,
    pub content_type: Option<String>,
    pub headers: TextMap<String>,
    pub outbox_key: String,
    pub traceparent: Option<String>,
    /// How often the task may be tried again.
    pub retries: i32,
}

/// The row of a parked task: the request, carried unchanged, with its identity, the instance it
/// belongs to, its schedule, its lock and its failure.
pub struct TaskRow<'a> {
    pub task_id: u128,
    pub instance_id: u128,
    pub request: &'a TaskRequest,
    /// When it is created and can be fetched, in nanoseconds since the epoch.
    pub at: i128,
    /// The worker that holds it.
    pub lock_owner: Option<String>,
    pub lock_expires_at: Option<i128>,
    pub attempt_count: i32,
    pub retries_left: i32,
    /// Whether its last try has failed, and why.
    pub failed: bool,
    pub last_error: Option<String>,
}

/// The instance that a parked task belongs to: the nil UUID where its id is none.
pub open spec fn parked_instance(instance_id: Seq<char>) -> u128 {
    match outside::uuid_value(instance_id) {
        Ok(v) => v,
        Err(_) => 0,
    }
}

/// Whether `row` is the row of a request that is parked at `now`: nobody holds it, and nobody tried
/// it.
pub open spec fn parked(row: TaskRow, q: TaskRequest, task_id: u128, now: i128) -> bool {
    &&& row.task_id == task_id
    &&& row.instance_id == parked_instance(q.instance_id@)
    &&& *row.request == q
    &&& row.at == now
    &&& row.lock_owner is None
    &&& row.lock_expires_at is None
    &&& row.attempt_count == 0
    &&& row.retries_left == q.retries
    &&& !row.failed
    &&& row.last_error is None
}

/// The task rows of the database.
#[derive(Debug, Clone, Copy, PartialEq, Eq, Structural)]
pub struct PgExternalTaskRows;

impl PgExternalTaskRows {
    /// The row of a request under this identity, parked at `now`.
    pub fn park_at<'a>(
        &self,
        deployment: &Result<(), String>,
        request: &'a TaskRequest,
        task_id: u128,
        now: i128,
    ) -> (r: Result<TaskRow<'a>, Diagnostic>)
        ensures
            match r {
                Ok(row) => *deployment is Ok && parked(row, *request, task_id, now),
                Err(d) => *deployment matches Err(e) && d@ == bridge::deployment_failure(e@),
            },
    {
        match deployment {
            Ok(_) => {},
            Err(e) => {
                return Err(bridge::deployment_diag(e));
            },
        }
        let instance_id: u128 = match outside::parse_uuid(&request.instance_id) {
            Ok(v) => v,
            Err(_) => 0,
        };
        Ok(
            TaskRow {
                task_id,
                instance_id,
                request,
                at: now,
                lock_owner: None,
                lock_expires_at: None,
                attempt_count: 0,
                retries_left: request.retries,
                failed: false,
                last_error: None,
            },
        )
    }

    /// The row of a request: a fresh identity, parked at the clock's time.
    pub fn park<'a>(&self, deployment: &Result<(), String>, request: &'a TaskRequest) -> (r: Result<
        TaskRow<'a>,
        Diagnostic,
    >)
        ensures
            match r {
                Ok(row) => *deployment is Ok && parked(row, *request, row.task_id, row.at),
                Err(d) => *deployment matches Err(e) && d@ == bridge::deployment_failure(e@),
            },
    {
        let task_id: u128 = outside::random_uuid();
        let now: i128 = outside::now_nanos();
        self.park_at(deployment, request, task_id, now)
    }

    /// The identity of the row that a worker names, for a lookup, an extension of its lock, a
    /// failure or its deletion.
    pub fn row_key(&self, deployment: &Result<(), String>, task_id: &str) -> (r: Result<
        u128,
        Diagnostic,
    >)
        ensures
            match *deployment {
                Ok(_) => diag::diagnosed(r) == task_id_outcome(task_id@),
                Err(e) => r matches Err(d) && d@ == bridge::deployment_failure(e@),
            },
    {
        match deployment {
            Ok(_) => parse_task_id(task_id),
            Err(e) => Err(bridge::deployment_diag(e)),
        }
    }
}

/// A task as the store keeps it.
pub struct ExternalTaskRow {
    pub task_id: u128,
    pub deployment_id: String,
    /// Whether the executor knows deployments by such an id.
    pub resolvable: bool,
    pub instance_id: u128,
    pub channel: String,
    pub tenant: String,
    pub module_key: String,
    pub headers: TextMap<String>,
    pub body: Vec<u8>,
    pub content_type: Option<String>,
    pub outbox_key: String,
    pub traceparent: Option<String>,
    pub created_at: i128,
    /// The worker that holds it.
    pub lock_owner: Option<String>,
    pub lock_expires_at: Option<i128>,
    pub attempt_count: i32,
    pub retries_left: i32,
    /// Whether its last try has failed.
    pub failed: bool,
}

/// The deployment that a task belongs to: the row's own where the executor knows it, else the
/// executor's id for one that was not resolved.
pub open spec fn deployment_of(row: ExternalTaskRow, unresolved: Seq<char>) -> Seq<char> {
    if row.resolvable {
        row.deployment_id@
    } else {
        unresolved
    }
}

/// What a row is to a worker: itself, with its identities in words and without its lock's owner.
pub open spec fn task_of(row: ExternalTaskRow, unresolved: Seq<char>) -> ExternalTaskView {
    ExternalTaskView {
        task_id: outside::uuid_text(row.task_id),
        deployment_id: deployment_of(row, unresolved),
        instance_id: outside::uuid_text(row.instance_id),
        channel: row.channel@,
        tenant: row.tenant@,
        module_key: row.module_key@,
        headers: row.headers@,
        body: row.body@,
        content_type: sources::opt(row.content_type),
        outbox_key: row.outbox_key@,
        traceparent: sources::opt(row.traceparent),
        created_at: row.created_at,
        lock_expires_at: row.lock_expires_at,
        attempt_count: row.attempt_count,
        retries_left: row.retries_left,
    }
}

/// Hand a row over to a worker. The id that the worker gets is one that finds the row again.
/// `unresolved` is the executor's id for a deployment that was not resolved.
pub fn to_task(row: ExternalTaskRow, unresolved: &str) -> (r: ExternalTask)
    ensures
        r@ == task_of(row, unresolved@),
        task_id_outcome(r.task_id@) == Ok::<u128, DiagnosticView>(row.task_id),
{
    ExternalTask {
        task_id: outside::format_uuid(row.task_id),
        deployment_id: if row.resolvable {
            row.deployment_id
        } else {
            unresolved.to_owned()
        },
        instance_id: outside::format_uuid(row.instance_id),
        channel: row.channel,
        tenant: row.tenant,
        module_key: row.module_key,
        headers: row.headers,
        body: row.body,
        content_type: row.content_type,
        outbox_key: row.outbox_key,
        traceparent: row.traceparent,
        created_at: row.created_at,
        lock_expires_at: row.lock_expires_at,
        attempt_count: row.attempt_count,
        retries_left: row.retries_left,
    }
}

/// Who holds a task, and until when.
#[derive(Debug, PartialEq, Eq)]
pub struct TaskLockView {
    pub lock_owner: Option<String>,
    pub lock_expires_at: Option<i128>,
    pub failed: bool,
}

/// Whether this is what a look at a row shows of its lock.
pub open spec fn shows(l: TaskLockView, t: ExternalTaskRow) -> bool {
    l.lock_owner == t.lock_owner && l.lock_expires_at == t.lock_expires_at && l.failed == t.failed
}

/// Whether the tasks are the rows, each handed over, in their order.
pub open spec fn handed_over(
    tasks: Seq<ExternalTask>,
    rows: Seq<ExternalTaskRow>,
    unresolved: Seq<char>,
) -> bool {
    tasks.len() == rows.len() && forall|i: int|
        0 <= i < rows.len() ==> (#[trigger] tasks[i])@ == task_of(rows[i], unresolved)
            && task_id_outcome(tasks[i].task_id@) == Ok::<u128, DiagnosticView>(rows[i].task_id)
}

/// Why a request about a row fails: its deployment, its id, and the store's own failure, which is
/// looked at only where the store was asked.
pub open spec fn row_failure<T>(
    deployment: Result<(), String>,
    task_id: Seq<char>,
    context: Seq<char>,
    answer: Result<T, String>,
) -> Option<DiagnosticView> {
    match deployment {
        Err(e) => Some(bridge::deployment_failure(e@)),
        Ok(_) => match task_id_outcome(task_id) {
            Err(d) => Some(d),
            Ok(_) => match answer {
                Err(e) => Some(store_failure(context, e@)),
                Ok(_) => None,
            },
        },
    }
}

impl PgExternalTaskRows {
    fn answer<T>(
        &self,
        deployment: &Result<(), String>,
        task_id: &str,
        context: &str,
        answer: Result<T, String>,
    ) -> (r: Result<T, Diagnostic>)
        ensures
            match r {
                Ok(v) => row_failure(*deployment, task_id@, context@, answer) is None && answer
                    == Ok::<T, String>(v),
                Err(d) => row_failure(*deployment, task_id@, context@, answer) == Some(d@),
            },
    {
        match self.row_key(deployment, task_id) {
            Ok(_) => match answer {
                Ok(v) => Ok(v),
                Err(e) => Err(store_diag(context, &e)),
            },
            Err(d) => Err(d),
        }
    }

    /// Whether a row was parked; `stored` is what the store answered to it.
    pub fn parked_answer(&self, stored: &Result<bool, String>) -> (r: Result<bool, Diagnostic>)
        ensures
            diag::diagnosed(r) == match *stored {
                Ok(b) => Ok(b),
                Err(e) => Err(store_failure("external task park failed"@, e@)),
            },
    {
        match stored {
            Ok(b) => Ok(*b),
            Err(e) => Err(store_diag("external task park failed", e)),
        }
    }

    /// The tasks that a worker has locked, in the store's order.
    pub fn fetch_and_lock(
        &self,
        deployment: &Result<(), String>,
        rows: Result<Vec<ExternalTaskRow>, String>,
        unresolved: &str,
    ) -> (r: Result<Vec<ExternalTask>, Diagnostic>)
        ensures
            match r {
                Ok(tasks) => *deployment is Ok && (rows matches Ok(v) && v@.len() == tasks@.len()
                    && forall|i: int|
                    0 <= i < v@.len() ==> (#[trigger] tasks@[i])@ == task_of(v@[i], unresolved@)
                        && task_id_outcome(tasks@[i].task_id@) == Ok::<u128, DiagnosticView>(
                        v@[i].task_id,
                    ) && handed_over(tasks@, v@, unresolved@)),
                Err(d) => match *deployment {
                    Err(e) => d@ == bridge::deployment_failure(e@),
                    Ok(_) => rows matches Err(e) && d@ == store_failure(
                        "external task fetchAndLock failed"@,
                        e@,
                    ),
                },
            },
    {
        match deployment {
            Ok(_) => {},
            Err(e) => {
                return Err(bridge::deployment_diag(e));
            },
        }
        let mut left = match rows {
            Ok(v) => v,
            Err(e) => {
                return Err(store_diag("external task fetchAndLock failed", &e));
            },
        };
        let ghost all = left@;
        let mut reversed: Vec<ExternalTask> = Vec::new();
        while left.len() > 0
            invariant
                left@ == all.take(left@.len() as int),
                left@.len() + reversed@.len() == all.len(),
                forall|k: int|
                    0 <= k < reversed@.len() ==> (#[trigger] reversed@[k])@ == task_of(
                        all[all.len() - 1 - k],
                        unresolved@,
                    ) && task_id_outcome(reversed@[k].task_id@) == Ok::<u128, DiagnosticView>(
                        all[all.len() - 1 - k].task_id,
                    ),
            decreases left@.len(),
        {
            let ghost n = left@.len();
            match left.pop() {
                Some(row) => {
                    assert(row == all[n - 1]);
                    reversed.push(to_task(row, unresolved));
                },
                None => {},
            }
        }
        let mut tasks: Vec<ExternalTask> = Vec::new();
        while reversed.len() > 0
            invariant
                tasks@.len() + reversed@.len() == all.len(),
                forall|k: int|
                    0 <= k < reversed@.len() ==> (#[trigger] reversed@[k])@ == task_of(
                        all[all.len() - 1 - k],
                        unresolved@,
                    ) && task_id_outcome(reversed@[k].task_id@) == Ok::<u128, DiagnosticView>(
                        all[all.len() - 1 - k].task_id,
                    ),
                forall|k: int|
                    0 <= k < tasks@.len() ==> (#[trigger] tasks@[k])@ == task_of(all[k], unresolved@)
                        && task_id_outcome(tasks@[k].task_id@) == Ok::<u128, DiagnosticView>(
                        all[k].task_id,
                    ),
            decreases reversed@.len(),
        {
            match reversed.pop() {
                Some(t) => {
                    tasks.push(t);
                },
                None => {},
            }
        }
        Ok(tasks)
    }

    /// Who holds a task; none where there is no such task.
    pub fn peek(
        &self,
        deployment: &Result<(), String>,
        task_id: &str,
        row: Result<Option<ExternalTaskRow>, String>,
    ) -> (r: Result<Option<TaskLockView>, Diagnostic>)
        ensures
            match r {
                Ok(lock) => {
                    &&& row_failure(*deployment, task_id@, "external task peek failed"@, row) is None
                    &&& row matches Ok(found) && match (found, lock) {
                        (None, None) => true,
                        (Some(t), Some(l)) => l.lock_owner == t.lock_owner && l.lock_expires_at
                            == t.lock_expires_at && l.failed == t.failed && shows(l, t),
                        _ => false,
                    }
                },
                Err(d) => row_failure(*deployment, task_id@, "external task peek failed"@, row)
                    == Some(d@),
            },
    {
        match self.answer(deployment, task_id, "external task peek failed", row) {
            Ok(Some(t)) => Ok(
                Some(
                    TaskLockView {
                        lock_owner: t.lock_owner,
                        lock_expires_at: t.lock_expires_at,
                        failed: t.failed,
                    },
                ),
            ),
            Ok(None) => Ok(None),
            Err(d) => Err(d),
        }
    }

    /// The task whose lock a worker has extended; none where the worker does not hold it.
    pub fn hold(
        &self,
        deployment: &Result<(), String>,
        task_id: &str,
        row: Result<Option<ExternalTaskRow>, String>,
        unresolved: &str,
    ) -> (r: Result<Option<ExternalTask>, Diagnostic>)
        ensures
            match r {
                Ok(task) => {
                    &&& row_failure(*deployment, task_id@, "external task hold failed"@, row) is None
                    &&& row matches Ok(found) && match (found, task) {
                        (None, None) => true,
                        (Some(t), Some(held)) => held@ == task_of(t, unresolved@)
                            && task_id_outcome(held.task_id@) == Ok::<u128, DiagnosticView>(
                            t.task_id,
                        ),
                        _ => false,
                    }
                },
                Err(d) => row_failure(*deployment, task_id@, "external task hold failed"@, row)
                    == Some(d@),
            },
    {
        match self.answer(deployment, task_id, "external task hold failed", row) {
            Ok(Some(t)) => Ok(Some(to_task(t, unresolved))),
            Ok(None) => Ok(None),
            Err(d) => Err(d),
        }
    }

    /// Whether a task was deleted.
    pub fn delete(
        &self,
        deployment: &Result<(), String>,
        task_id: &str,
        deleted: Result<(), String>,
    ) -> (r: Result<(), Diagnostic>)
        ensures
            match r {
                Ok(_) => row_failure(
                    *deployment,
                    task_id@,
                    "external task delete failed"@,
                    deleted,
                ) is None,
                Err(d) => row_failure(
                    *deployment,
                    task_id@,
                    "external task delete failed"@,
                    deleted,
                ) == Some(d@),
            },
    {
        self.answer(deployment, task_id, "external task delete failed", deleted)
    }

    /// Whether a failure was recorded; not where the worker does not hold the task.
    pub fn fail(
        &self,
        deployment: &Result<(), String>,
        task_id: &str,
        recorded: Result<bool, String>,
    ) -> (r: Result<bool, Diagnostic>)
        ensures
            match r {
                Ok(b) => row_failure(
                    *deployment,
                    task_id@,
                    "external task fail failed"@,
                    recorded,
                ) is None && recorded == Ok::<bool, String>(b),
                Err(d) => row_failure(
                    *deployment,
                    task_id@,
                    "external task fail failed"@,
                    recorded,
                ) == Some(d@),
            },
    {
        self.answer(deployment, task_id, "external task fail failed", recorded)
    }
}

} // verus!
