//! What workers are told of tasks, and what becomes of what they answer.

use vstd::prelude::*;

use crate::base64;
use crate::diag::{Code, Diagnostic, DiagnosticView};
use crate::external_task;
use crate::external_task::{
    Durations, ExternalTask, ExternalTaskRow, FailureReport, FetchRequest, TaskLockView,
    TaskRequest, TaskRow,
};
use crate::json;
use crate::json::JsonView;
use crate::keyed;
use crate::outside;
use crate::sources;
use crate::text;

verus! {

// ---- documents ---------------------------------------------------------------------------------

proof fn task_members(task: ExternalTask)
    ensures
        ({
            let d = external_task::task_document(task@);
            &&& d is Object
            &&& d.member("id"@) == Some(JsonView::Text(task@.task_id))
            &&& d.member("channel"@) == Some(JsonView::Text(task@.channel))
            &&& d.member("tenant"@) == Some(JsonView::Text(task@.tenant))
            &&& d.member("moduleKey"@) == Some(JsonView::Text(task@.module_key))
            &&& d.member("deploymentId"@) == Some(JsonView::Text(task@.deployment_id))
            &&& d.member("instanceId"@) == Some(JsonView::Text(task@.instance_id))
            &&& d.member("idempotencyKey"@) == Some(JsonView::Text(task@.outbox_key))
            &&& d.member("headers"@) == Some(external_task::text_object(task@.headers))
            &&& d.member("retries"@) == Some(JsonView::Int(task@.retries_left as int))
            &&& d.member("attempts"@) == Some(JsonView::Int(task@.attempt_count as int))
            &&& d.member("contentType"@) == match task@.content_type {
                Some(s) => Some(JsonView::Text(s)),
                None => None,
            }
            &&& d.member("lockExpiresAt"@) == match task@.lock_expires_at {
                Some(at) => Some(JsonView::Text(outside::rfc3339_or_empty(at))),
                None => None,
            }
            &&& d.member("payload"@) == if vstd::utf8::valid_utf8(task@.body) {
                Some(JsonView::Text(vstd::utf8::decode_utf8(task@.body)))
            } else {
                None
            }
            &&& d.member("payloadBase64"@) == if vstd::utf8::valid_utf8(task@.body) {
                None
            } else {
                Some(JsonView::Text(base64::encoded(task@.body)))
            }
        }),
{
    reveal_strlit("id");
    reveal_strlit("channel");
    reveal_strlit("tenant");
    reveal_strlit("moduleKey");
    reveal_strlit("deploymentId");
    reveal_strlit("instanceId");
    reveal_strlit("idempotencyKey");
    reveal_strlit("headers");
    reveal_strlit("retries");
    reveal_strlit("attempts");
    reveal_strlit("contentType");
    reveal_strlit("lockExpiresAt");
    reveal_strlit("payload");
    reveal_strlit("payloadBase64");
    let t = task@;
    let e = JsonView::empty();
    json::members_with(e, "id"@, JsonView::Text(t.task_id));
    let j1 = e.with("id"@, JsonView::Text(t.task_id));
    json::members_with(j1, "channel"@, JsonView::Text(t.channel));
    let j2 = j1.with("channel"@, JsonView::Text(t.channel));
    json::members_with(j2, "tenant"@, JsonView::Text(t.tenant));
    let j3 = j2.with("tenant"@, JsonView::Text(t.tenant));
    json::members_with(j3, "moduleKey"@, JsonView::Text(t.module_key));
    let j4 = j3.with("moduleKey"@, JsonView::Text(t.module_key));
    json::members_with(j4, "deploymentId"@, JsonView::Text(t.deployment_id));
    let j5 = j4.with("deploymentId"@, JsonView::Text(t.deployment_id));
    json::members_with(j5, "instanceId"@, JsonView::Text(t.instance_id));
    let j6 = j5.with("instanceId"@, JsonView::Text(t.instance_id));
    json::members_with(j6, "idempotencyKey"@, JsonView::Text(t.outbox_key));
    let j7 = j6.with("idempotencyKey"@, JsonView::Text(t.outbox_key));
    json::members_with(j7, "headers"@, external_task::text_object(t.headers));
    let j8 = j7.with("headers"@, external_task::text_object(t.headers));
    json::members_with(j8, "retries"@, JsonView::Int(t.retries_left as int));
    let j9 = j8.with("retries"@, JsonView::Int(t.retries_left as int));
    json::members_with(j9, "attempts"@, JsonView::Int(t.attempt_count as int));
    let j10 = j9.with("attempts"@, JsonView::Int(t.attempt_count as int));
    assert(j10 == external_task::task_base(t));
    match t.content_type {
        Some(s) => {
            json::members_with(j10, "contentType"@, JsonView::Text(s));
        },
        None => {},
    }
    let typed = external_task::with_text(j10, "contentType"@, t.content_type);
    match t.lock_expires_at {
        Some(at) => {
            json::members_with(
                typed,
                "lockExpiresAt"@,
                JsonView::Text(outside::rfc3339_or_empty(at)),
            );
        },
        None => {},
    }
    let timed = external_task::with_text(
        typed,
        "lockExpiresAt"@,
        match t.lock_expires_at {
            Some(at) => Some(outside::rfc3339_or_empty(at)),
            None => None,
        },
    );
    json::members_with(
        timed,
        "payload"@,
        JsonView::Text(vstd::utf8::decode_utf8(t.body)),
    );
    json::members_with(timed, "payloadBase64"@, JsonView::Text(base64::encoded(t.body)));
}

/// A worker reads in the document of a task the task's own id, its channel, tenant, module,
/// deployment and instance, the key under which its effect counts once, and its two counters.
pub proof fn a_worker_is_told_the_task(task: ExternalTask)
    ensures
        ({
            let d = external_task::task_document(task@);
            &&& d.text_member("id"@) == Some(task.task_id@)
            &&& d.text_member("channel"@) == Some(task.channel@)
            &&& d.text_member("tenant"@) == Some(task.tenant@)
            &&& d.text_member("moduleKey"@) == Some(task.module_key@)
            &&& d.text_member("deploymentId"@) == Some(task.deployment_id@)
            &&& d.text_member("instanceId"@) == Some(task.instance_id@)
            &&& d.text_member("idempotencyKey"@) == Some(task.outbox_key@)
            &&& d.member("retries"@) == Some(JsonView::Int(task.retries_left as int))
            &&& d.member("attempts"@) == Some(JsonView::Int(task.attempt_count as int))
            &&& d.text_member("contentType"@) == match task.content_type {
                Some(s) => Some(s@),
                None => None,
            }
            &&& d.text_member("lockExpiresAt"@) == match task.lock_expires_at {
                Some(at) => match outside::rfc3339_text(at) {
                    Some(s) => Some(s),
                    None => Some(Seq::empty()),
                },
                None => None,
            }
        }),
{
    task_members(task);
}

proof fn object_holds_its_texts(m: Seq<(Seq<char>, Seq<char>)>, name: Seq<char>)
    requires
        keyed::ascending(m),
    ensures
        external_task::text_object(m) is Object,
        external_task::text_object(m).member(name) == match keyed::lookup(m, name) {
            Some(v) => Some(JsonView::Text(v)),
            None => None,
        },
    decreases m.len(),
{
    if m.len() > 0 {
        let rest = m.drop_last();
        assert forall|i: int, j: int| 0 <= i < j < rest.len() implies text::before(
            (#[trigger] rest[i]).0,
            (#[trigger] rest[j]).0,
        ) by {
            assert(rest[i] == m[i] && rest[j] == m[j]);
        }
        object_holds_its_texts(rest, name);
        json::members_with(
            external_task::text_object(rest),
            m.last().0,
            JsonView::Text(m.last().1),
        );
        keyed::lookup_at(m, m.len() - 1);
        if name != m.last().0 {
            if keyed::has(m, name) {
                let i = keyed::lookup_some(m, name);
                assert(rest[i] == m[i]);
                keyed::lookup_at(rest, i);
            }
            if keyed::has(rest, name) {
                let i = keyed::lookup_some(rest, name);
                assert(rest[i] == m[i]);
                keyed::lookup_at(m, i);
            }
        }
    }
}

/// The headers that a worker gets are the task's: each under its name with its own value, and no
/// others.
pub proof fn a_worker_gets_the_headers(task: ExternalTask, name: Seq<char>)
    requires
        keyed::ascending(task.headers@),
    ensures
        external_task::task_document(task@).member("headers"@) matches Some(h) && h.text_member(name)
            == keyed::lookup(task.headers@, name),
{
    task_members(task);
    object_holds_its_texts(task.headers@, name);
}

/// A worker can always recover the bytes of a task: from the plain payload where the bytes are text,
/// else from the coded one; never are both given.
pub proof fn a_worker_recovers_the_bytes(task: ExternalTask)
    ensures
        ({
            let d = external_task::task_document(task@);
            match (d.text_member("payload"@), d.text_member("payloadBase64"@)) {
                (Some(s), None) => vstd::utf8::encode_utf8(s) == task.body@,
                (None, Some(s)) => base64::decoded(s) == Some(task.body@)
                    && !vstd::utf8::valid_utf8(task.body@),
                _ => false,
            }
        }),
{
    task_members(task);
    if vstd::utf8::valid_utf8(task.body@) {
        vstd::utf8::decode_utf8_encode_utf8(task.body@);
    } else {
        base64::decoding_undoes_encoding(task.body@);
    }
}

/// What a worker is told is what the store locked: the document's id names the row that was locked,
/// and channel, instance, key and counters are that row's.
pub proof fn a_worker_is_told_the_locked_row(
    row: ExternalTaskRow,
    unresolved: Seq<char>,
    task: ExternalTask,
)
    requires
        task@ == external_task::task_of(row, unresolved),
        external_task::task_id_outcome(task.task_id@) == Ok::<u128, DiagnosticView>(row.task_id),
    ensures
        ({
            let d = external_task::task_document(task@);
            &&& d.text_member("id"@) matches Some(s) && outside::uuid_value(s) == Ok::<
                u128,
                Seq<char>,
            >(row.task_id)
            &&& d.text_member("instanceId"@) == Some(outside::uuid_text(row.instance_id))
            &&& d.text_member("channel"@) == Some(row.channel@)
            &&& d.text_member("tenant"@) == Some(row.tenant@)
            &&& d.text_member("moduleKey"@) == Some(row.module_key@)
            &&& d.text_member("idempotencyKey"@) == Some(row.outbox_key@)
            &&& d.text_member("deploymentId"@) == Some(
                if row.resolvable {
                    row.deployment_id@
                } else {
                    unresolved
                },
            )
            &&& d.member("retries"@) == Some(JsonView::Int(row.retries_left as int))
            &&& d.member("attempts"@) == Some(JsonView::Int(row.attempt_count as int))
        }),
{
    task_members(task);
}

/// Handing a row over changes nothing of what it carries.
pub proof fn a_task_carries_its_row(row: ExternalTaskRow, unresolved: Seq<char>, task: ExternalTask)
    requires
        task@ == external_task::task_of(row, unresolved),
    ensures
        task.task_id@ == outside::uuid_text(row.task_id),
        task.instance_id@ == outside::uuid_text(row.instance_id),
        task.channel@ == row.channel@,
        task.tenant@ == row.tenant@,
        task.module_key@ == row.module_key@,
        task.headers@ == row.headers@,
        task.body@ == row.body@,
        sources::opt(task.content_type) == sources::opt(row.content_type),
        task.outbox_key@ == row.outbox_key@,
        sources::opt(task.traceparent) == sources::opt(row.traceparent),
        task.created_at == row.created_at,
        task.lock_expires_at == row.lock_expires_at,
        task.attempt_count == row.attempt_count,
        task.retries_left == row.retries_left,
{
}

/// Every answer about a failure names its status twice, alike, and says the code and the words.
pub proof fn a_problem_says_what_went_wrong(d: Diagnostic, code_text: Seq<char>)
    ensures
        ({
            let p = external_task::problem_document(d@, code_text);
            &&& p.text_member("title"@) == Some(code_text)
            &&& p.text_member("code"@) == Some(code_text)
            &&& p.text_member("detail"@) == Some(d.message@)
            &&& p.member("status"@) == Some(JsonView::Int(external_task::status(d.code) as int))
            &&& p.text_member("type"@) == Some("about:blank"@)
            &&& p.member("attributes"@) is Some <==> d.attributes@.len() > 0
            &&& d.attributes@.len() > 0 ==> p.member("attributes"@) == Some(
                external_task::text_object(d@.attributes),
            )
            &&& d@.attributes.len() == d.attributes@.len()
        }),
{
    reveal_strlit("type");
    reveal_strlit("title");
    reveal_strlit("status");
    reveal_strlit("detail");
    reveal_strlit("code");
    reveal_strlit("attributes");
    let e = JsonView::empty();
    json::members_with(e, "type"@, JsonView::Text("about:blank"@));
    let j1 = e.with("type"@, JsonView::Text("about:blank"@));
    json::members_with(j1, "title"@, JsonView::Text(code_text));
    let j2 = j1.with("title"@, JsonView::Text(code_text));
    let n = JsonView::Int(external_task::status(d.code) as int);
    json::members_with(j2, "status"@, n);
    let j3 = j2.with("status"@, n);
    json::members_with(j3, "detail"@, JsonView::Text(d.message@));
    let j4 = j3.with("detail"@, JsonView::Text(d.message@));
    json::members_with(j4, "code"@, JsonView::Text(code_text));
    let j5 = j4.with("code"@, JsonView::Text(code_text));
    json::members_with(j5, "attributes"@, external_task::text_object(d@.attributes));
}

/// A bad request is the client's, a missing task is not found, a lock or an end that stands in the
/// way is a conflict, a completion that the engine refuses cannot be processed, a surface without
/// persistence is unavailable, and anything else is the engine's own failure.
pub proof fn each_problem_has_its_status(code: Code)
    ensures
        external_task::status(code) == 400 <==> code == Code::ExternalTaskRequestInvalid,
        external_task::status(code) == 404 <==> code == Code::ExternalTaskNotFound,
        external_task::status(code) == 409 <==> (code == Code::ExternalTaskLockHeld || code
            == Code::ExternalTaskLockLost || code == Code::ExternalTaskTerminal),
        external_task::status(code) == 422 <==> code == Code::ExternalTaskCompletionRejected,
        external_task::status(code) == 503 <==> code == Code::InboundPersistenceRequired,
        external_task::status(code) == 500 <==> (code == Code::InboundAliasConflictReject || code
            == Code::RuntimeUnexpected || code == Code::AuditSinkWriteFailed || code
            == Code::Other),
{
}

// ---- requests ----------------------------------------------------------------------------------

/// The texts of a list member are its items that are texts, in their order: what the list gains by a
/// text is that text, and anything else it gains is passed over.
pub proof fn a_list_is_read_for_its_texts(items: Seq<JsonView>, item: JsonView)
    ensures
        external_task::texts_among(Seq::<JsonView>::empty()) == Seq::<Seq<char>>::empty(),
        external_task::texts_among(items.push(item)) == match item {
            JsonView::Text(s) => external_task::texts_among(items).push(s),
            _ => external_task::texts_among(items),
        },
{
    assert(items.push(item).drop_last() =~= items);
}

/// What a worker asks for is what its body says: the worker, the channels in their order, and the
/// three limits, each of its own member; a member that is missing or of another shape is none.
pub proof fn a_fetch_is_read_from_its_body(body: JsonView, q: FetchRequest)
    requires
        q@ == external_task::fetch_request(body),
    ensures
        q.worker_id@ == match body.member("workerId"@) {
            Some(JsonView::Text(s)) => s,
            _ => Seq::empty(),
        },
        text::texts(q.channels@) == match body.member("channels"@) {
            Some(JsonView::List(items)) => external_task::texts_among(items),
            _ => Seq::empty(),
        },
        sources::opt(q.lock_duration) == match body.member("lockDuration"@) {
            Some(JsonView::Text(s)) => Some(s),
            _ => None,
        },
        sources::opt(q.async_response_timeout) == match body.member("asyncResponseTimeout"@) {
            Some(JsonView::Text(s)) => Some(s),
            _ => None,
        },
        match body.member("maxTasks"@) {
            Some(JsonView::Int(n)) => if 0 <= n <= u32::MAX {
                q.max_tasks == Some(n as u32)
            } else if 0 <= n <= u64::MAX {
                q.max_tasks matches Some(m) && (n - m) % 4_294_967_296 == 0
            } else {
                q.max_tasks is None
            },
            _ => q.max_tasks is None,
        },
{
}

/// A completion carries the result that its body has, as text or coded, and its content type; a body
/// with both is refused, and so is one whose code is none.
pub proof fn a_completion_is_read_from_its_body(body: JsonView)
    ensures
        match (body.text_member("result"@), body.text_member("resultBase64"@)) {
            (Some(_), Some(_)) => external_task::payload(body) matches Err(d) && d.code
                == Code::ExternalTaskRequestInvalid,
            (Some(s), None) => external_task::payload(body) matches Ok(p) && p.0 matches Some(b)
                && vstd::utf8::decode_utf8(b) == s && p.1 == body.text_member("contentType"@),
            (None, Some(s)) => match base64::decoded(s) {
                Some(b) => external_task::payload(body) matches Ok(p) && p.0 == Some(b) && p.1
                    == body.text_member("contentType"@),
                None => external_task::payload(body) matches Err(d) && d.code
                    == Code::ExternalTaskRequestInvalid,
            },
            (None, None) => external_task::payload(body) matches Ok(p) && p.0 is None && p.1
                == body.text_member("contentType"@),
        },
{
    match body.text_member("result"@) {
        Some(s) => {
            vstd::utf8::encode_utf8_decode_utf8(s);
        },
        None => {},
    }
}

/// What a worker sends coded arrives as it was before it was coded.
pub proof fn a_coded_result_arrives(body: JsonView, bytes: Seq<u8>)
    requires
        body.text_member("result"@) is None,
        body.text_member("resultBase64"@) == Some(base64::encoded(bytes)),
    ensures
        external_task::payload(body) matches Ok(p) && p.0 == Some(bytes),
{
    base64::decoding_undoes_encoding(bytes);
}

/// A failure report carries the worker, the error, the retries that are left, clamped to what a row
/// can hold, and the pause before the next try; a pause that cannot be read refuses the report.
pub proof fn a_failure_is_read_from_its_body(body: JsonView, read: Durations, f: FailureReport)
    requires
        external_task::failure_report(body, read) == Ok::<
            external_task::FailureReportView,
            DiagnosticView,
        >(f@),
    ensures
        f.worker_id@ == match body.member("workerId"@) {
            Some(JsonView::Text(s)) => s,
            _ => Seq::empty(),
        },
        f.error_message@ == match body.member("errorMessage"@) {
            Some(JsonView::Text(s)) => s,
            _ => Seq::empty(),
        },
        match body.member("retries"@) {
            Some(JsonView::Int(n)) => if i32::MIN <= n <= i32::MAX {
                f.retries == Some(n as i32)
            } else if i64::MIN <= n < i32::MIN {
                f.retries == Some(i32::MIN)
            } else if i32::MAX < n <= i64::MAX {
                f.retries == Some(i32::MAX)
            } else {
                f.retries is None
            },
            _ => f.retries is None,
        },
        match body.member("retryTimeout"@) {
            Some(JsonView::Text(s)) => read(text::trimmed(s)) matches Ok(d) && f.retry_timeout
                == Some(d),
            _ => f.retry_timeout is None,
        },
{
}

/// A failure report is refused only for a pause that cannot be read.
pub proof fn a_failure_report_needs_a_readable_pause(body: JsonView, read: Durations)
    ensures
        external_task::failure_report(body, read) is Err <==> (body.member("retryTimeout"@) matches Some(
            JsonView::Text(s),
        ) && read(text::trimmed(s)) is Err),
        external_task::failure_report(body, read) matches Err(d) ==> d.code
            == Code::ExternalTaskRequestInvalid,
{
}

// ---- rows --------------------------------------------------------------------------------------

/// A parked task keeps its request, belongs to the request's instance, can be fetched at once, has
/// never been tried, has all its retries and is held by nobody.
pub proof fn a_parked_task_is_free(row: TaskRow, q: TaskRequest, task_id: u128, now: i128)
    requires
        external_task::parked(row, q, task_id, now),
    ensures
        row.task_id == task_id,
        *row.request == q,
        outside::uuid_value(q.instance_id@) matches Ok(v) ==> row.instance_id == v,
        outside::uuid_value(q.instance_id@) is Err ==> row.instance_id == 0,
        row.at == now,
        row.attempt_count == 0,
        row.retries_left == q.retries,
        row.lock_owner is None && row.lock_expires_at is None,
        !row.failed && row.last_error is None,
{
}

/// A request about a row is refused for its deployment before its id before the store's failure, and
/// for nothing else.
pub proof fn a_row_request_is_refused_in_order(
    deployment: Result<(), String>,
    task_id: Seq<char>,
    context: Seq<char>,
    answer: Result<(), String>,
)
    ensures
        ({
            let f = external_task::row_failure(deployment, task_id, context, answer);
            match (deployment, outside::uuid_value(task_id), answer) {
                (Err(e), _, _) => f matches Some(d) && d.code == Code::RuntimeUnexpected
                    && d.message == "deployment id failed persistence-form validation: "@ + e@,
                (Ok(_), Err(_), _) => f matches Some(d) && d.code
                    == Code::ExternalTaskRequestInvalid,
                (Ok(_), Ok(_), Err(e)) => f matches Some(d) && d.code == Code::RuntimeUnexpected
                    && d.message == context + ": "@ + e@,
                (Ok(_), Ok(_), Ok(_)) => f is None,
            }
        }),
{
}

// ---- answers -----------------------------------------------------------------------------------

/// A fetch hands over every task it locked, each as its own document, in their order.
pub proof fn a_fetch_hands_over_every_task(tasks: Seq<ExternalTask>)
    ensures
        external_task::tasks_document(tasks).member("tasks"@) matches Some(JsonView::List(v))
            && v.len() == tasks.len() && forall|i: int|
            0 <= i < tasks.len() ==> (#[trigger] v[i]).text_member("id"@) == Some(
                tasks[i].task_id@,
            ) && v[i] == external_task::task_document(tasks[i]@),
{
    let list = JsonView::List(
        tasks.map_values(|t: ExternalTask| external_task::task_document(t@)),
    );
    json::members_with(JsonView::empty(), "tasks"@, list);
    assert forall|i: int| 0 <= i < tasks.len() implies (#[trigger] list->List_0[i]).text_member(
        "id"@,
    ) == Some(tasks[i].task_id@) by {
        a_worker_is_told_the_task(tasks[i]);
    }
}

/// The answer to a completion names the task, its channel and its instance, and says that it is
/// completed.
pub proof fn a_completion_is_answered_with_its_task(
    task_id: Seq<char>,
    channel: Seq<char>,
    instance_id: Seq<char>,
)
    ensures
        ({
            let d = external_task::completed_document(task_id, channel, instance_id);
            &&& d.text_member("taskId"@) == Some(task_id)
            &&& d.text_member("channel"@) == Some(channel)
            &&& d.text_member("instanceId"@) == Some(instance_id)
            &&& d.text_member("status"@) == Some("COMPLETED"@)
        }),
{
    reveal_strlit("taskId");
    reveal_strlit("channel");
    reveal_strlit("instanceId");
    reveal_strlit("status");
    assert("taskId"@[0] == 't' && "status"@[0] == 's');
    let e = JsonView::empty();
    json::members_with(e, "taskId"@, JsonView::Text(task_id));
    let j1 = e.with("taskId"@, JsonView::Text(task_id));
    json::members_with(j1, "channel"@, JsonView::Text(channel));
    let j2 = j1.with("channel"@, JsonView::Text(channel));
    json::members_with(j2, "instanceId"@, JsonView::Text(instance_id));
    let j3 = j2.with("instanceId"@, JsonView::Text(instance_id));
    json::members_with(j3, "status"@, JsonView::Text("COMPLETED"@));
}

/// The answer to a failure report names the task, its channel, its instance and the retries that are
/// left; it says that the task is over exactly where it is, and else that it waits.
pub proof fn a_failure_is_answered_with_what_is_left(
    task_id: Seq<char>,
    channel: Seq<char>,
    instance_id: Seq<char>,
    retries_left: i32,
    terminal: bool,
)
    ensures
        ({
            let d = external_task::failed_document(
                task_id,
                channel,
                instance_id,
                retries_left,
                terminal,
            );
            &&& d.text_member("taskId"@) == Some(task_id)
            &&& d.text_member("channel"@) == Some(channel)
            &&& d.text_member("instanceId"@) == Some(instance_id)
            &&& d.member("retries"@) == Some(JsonView::Int(retries_left as int))
            &&& terminal ==> d.text_member("status"@) == Some("TERMINAL"@)
            &&& !terminal ==> d.text_member("status"@) == Some("PENDING"@)
        }),
{
    reveal_strlit("taskId");
    reveal_strlit("channel");
    reveal_strlit("instanceId");
    reveal_strlit("retries");
    reveal_strlit("status");
    assert("taskId"@[0] == 't' && "status"@[0] == 's' && "channel"@[0] == 'c' && "retries"@[0]
        == 'r');
    let word = if terminal {
        "TERMINAL"@
    } else {
        "PENDING"@
    };
    let e = JsonView::empty();
    json::members_with(e, "taskId"@, JsonView::Text(task_id));
    let j1 = e.with("taskId"@, JsonView::Text(task_id));
    json::members_with(j1, "channel"@, JsonView::Text(channel));
    let j2 = j1.with("channel"@, JsonView::Text(channel));
    json::members_with(j2, "instanceId"@, JsonView::Text(instance_id));
    let j3 = j2.with("instanceId"@, JsonView::Text(instance_id));
    json::members_with(j3, "retries"@, JsonView::Int(retries_left as int));
    let j4 = j3.with("retries"@, JsonView::Int(retries_left as int));
    json::members_with(j4, "status"@, JsonView::Text(word));
}

/// A look at a task shows who holds it, until when, and whether it has failed.
pub proof fn a_look_shows_the_lock(l: TaskLockView, t: ExternalTaskRow)
    requires
        external_task::shows(l, t),
    ensures
        l.lock_owner == t.lock_owner,
        l.lock_expires_at == t.lock_expires_at,
        l.failed == t.failed,
{
}

/// A fetch hands over each row that it locked, in their order: the task at a place has the id, the
/// channel, the instance, the body and the counters of the row at that place.
pub proof fn a_fetch_hands_over_its_rows(
    tasks: Seq<ExternalTask>,
    rows: Seq<ExternalTaskRow>,
    unresolved: Seq<char>,
    i: int,
)
    requires
        external_task::handed_over(tasks, rows, unresolved),
        0 <= i < rows.len(),
    ensures
        tasks.len() == rows.len(),
        outside::uuid_value(tasks[i].task_id@) == Ok::<u128, Seq<char>>(rows[i].task_id),
        tasks[i].channel@ == rows[i].channel@,
        tasks[i].instance_id@ == outside::uuid_text(rows[i].instance_id),
        tasks[i].body@ == rows[i].body@,
        tasks[i].outbox_key@ == rows[i].outbox_key@,
        tasks[i].attempt_count == rows[i].attempt_count,
        tasks[i].retries_left == rows[i].retries_left,
        tasks[i].lock_expires_at == rows[i].lock_expires_at,
{
    assert(tasks[i]@ == external_task::task_of(rows[i], unresolved));
}

/// An object of texts gains one text at a time: it is found under its own name, and every other name
/// keeps what it had.
pub proof fn an_object_gains_its_texts(
    m: Seq<(Seq<char>, Seq<char>)>,
    name: Seq<char>,
    value: Seq<char>,
    other: Seq<char>,
)
    ensures
        external_task::text_object(m.push((name, value))).text_member(name) == Some(value),
        other != name ==> external_task::text_object(m.push((name, value))).text_member(other)
            == external_task::text_object(m).text_member(other),
        external_task::text_object(Seq::<(Seq<char>, Seq<char>)>::empty()).text_member(name) is None,
{
    let all = m.push((name, value));
    assert(all.drop_last() =~= m);
    assert(all.last() == (name, value));
    objects_are_objects(m);
    json::members_with(external_task::text_object(m), name, JsonView::Text(value));
    json::reading_members(JsonView::empty(), name);
}

proof fn objects_are_objects(m: Seq<(Seq<char>, Seq<char>)>)
    ensures
        external_task::text_object(m) is Object,
    decreases m.len(),
{
    if m.len() > 0 {
        objects_are_objects(m.drop_last());
        json::members_with(
            external_task::text_object(m.drop_last()),
            m.last().0,
            JsonView::Text(m.last().1),
        );
    }
}

} // verus!
