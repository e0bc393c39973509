//! The worker-facing documents of external tasks.

use sutra_engine::base64::{base64, decode_base64};
use sutra_engine::diag::{Code, Diagnostic};
use sutra_engine::duration::Duration;
use sutra_engine::external_task::{
    completed_json, failed_json, parse_task_id, problem, read_completion, read_failure_report,
    read_fetch_request, result_payload, status_for, store_diag, string_list, task_json, tasks_json,
    to_task, unavailable, ExternalTask, ExternalTaskRow, PgExternalTaskRows, TaskLockView,
    TaskRequest,
};
use sutra_engine::json::Json;
use sutra_engine::keyed::TextMap;

#[test]
fn structured_codes_map_to_fail_closed_statuses() {
    assert_eq!(status_for(Code::ExternalTaskRequestInvalid), 400);
    assert_eq!(status_for(Code::ExternalTaskNotFound), 404);
    // A stale worker never gets a 2xx it could read as success.
    assert_eq!(status_for(Code::ExternalTaskLockLost), 409);
    assert_eq!(status_for(Code::ExternalTaskLockHeld), 409);
    assert_eq!(status_for(Code::ExternalTaskTerminal), 409);
    assert_eq!(status_for(Code::ExternalTaskCompletionRejected), 422);
    assert_eq!(status_for(Code::RuntimeUnexpected), 500);
}

#[test]
fn a_missing_datasource_answers_service_unavailable() {
    let (status, body) = problem(&unavailable(), "SUTRA.X");
    assert_eq!(status, 503);
    assert_eq!(body.get_text("code").unwrap(), "SUTRA.X");
}

#[test]
fn base64_round_trips_and_rejects_garbage() {
    for sample in [&b""[..], b"f", b"fo", b"foo", b"foob", b"\x00\xff\xfe"] {
        let encoded = base64(&sample.to_vec());
        assert_eq!(decode_base64(&encoded).as_deref(), Some(sample), "round-trip {encoded}");
    }
    assert_eq!(decode_base64("not base64!"), None);
}

#[test]
fn base64_writes_the_standard_alphabet_with_padding() {
    assert_eq!(base64(&b"f".to_vec()), "Zg==");
    assert_eq!(base64(&b"fo".to_vec()), "Zm8=");
    assert_eq!(base64(&b"foo".to_vec()), "Zm9v");
    assert_eq!(base64(&vec![0xfb, 0xff]), "+/8=");
}

#[test]
fn a_completion_carries_result_or_result_base64_never_both() {
    let both = Json::object()
        .with("result", Json::text("ok"))
        .with("resultBase64", Json::text("b2s="));
    let err = result_payload(&both).unwrap_err();
    assert_eq!(err.code, Code::ExternalTaskRequestInvalid);

    let text = Json::object()
        .with("result", Json::text("ok"))
        .with("contentType", Json::text("text/plain"));
    let (bytes, content_type) = result_payload(&text).unwrap();
    assert_eq!(bytes.as_deref(), Some(&b"ok"[..]));
    assert_eq!(content_type.as_deref(), Some("text/plain"));

    // Neither is legal: the worker did the work and has nothing to hand back.
    let (bytes, _) = result_payload(&Json::object()).unwrap();
    assert!(bytes.is_none());
}

#[test]
fn a_base64_result_is_decoded_and_garbage_is_refused() {
    let body = Json::object().with("resultBase64", Json::text("b2s="));
    assert_eq!(result_payload(&body).unwrap().0.as_deref(), Some(&b"ok"[..]));
    let body = Json::object().with("resultBase64", Json::text("?"));
    assert_eq!(result_payload(&body).unwrap_err().code, Code::ExternalTaskRequestInvalid);
}

fn task() -> ExternalTask {
    ExternalTask {
        task_id: "t-1".to_string(),
        deployment_id: "unresolved".to_string(),
        instance_id: "i-1".to_string(),
        channel: "score-in".to_string(),
        tenant: "acme".to_string(),
        module_key: "acme/demoflow/1.0.0".to_string(),
        headers: TextMap::new(),
        body: b"{\"ask\":1}".to_vec(),
        content_type: Some("application/json".to_string()),
        outbox_key: "ob-1".to_string(),
        traceparent: None,
        created_at: 0,
        lock_expires_at: None,
        attempt_count: 1,
        retries_left: 3,
    }
}

#[test]
fn a_text_payload_is_served_inline_and_binary_as_base64() {
    let mut task = task();
    let rendered = task_json(&task);
    assert_eq!(rendered.get_text("payload").unwrap(), "{\"ask\":1}");
    assert!(rendered.get("payloadBase64").is_none());
    assert_eq!(rendered.get("retries").unwrap(), &Json::count(3));

    task.body = vec![0x00, 0xff];
    let rendered = task_json(&task);
    assert!(rendered.get("payload").is_none());
    assert_eq!(rendered.get_text("payloadBase64").unwrap(), "AP8=");
}

#[test]
fn a_lock_is_served_as_the_instant_it_runs_out() {
    let mut task = task();
    task.lock_expires_at = Some(1_784_851_200_000_000_000);
    let rendered = task_json(&task);
    assert_eq!(rendered.get_text("lockExpiresAt").unwrap(), "2026-07-24T00:00:00Z");
    let all = tasks_json(&vec![task]);
    match all.get("tasks").unwrap() {
        Json::List(items) => assert_eq!(items.len(), 1),
        other => panic!("{other:?}"),
    }
}

#[test]
fn a_fetch_request_reads_what_it_finds() {
    let body = Json::object()
        .with("workerId", Json::text("w-1"))
        .with("channels", Json::List(vec![Json::text("a"), Json::count(1), Json::text("b")]))
        .with("maxTasks", Json::count(5))
        .with("lockDuration", Json::text("PT30S"));
    let req = read_fetch_request(&body);
    assert_eq!(req.worker_id, "w-1");
    assert_eq!(req.channels, vec!["a", "b"]);
    assert_eq!(req.max_tasks, Some(5));
    assert_eq!(req.lock_duration.as_deref(), Some("PT30S"));
    assert_eq!(req.async_response_timeout, None);
    assert_eq!(string_list(&body, "absent"), Vec::<String>::new());
}

fn parse(raw: &str) -> Result<Duration, String> {
    if raw == "PT10S" {
        Ok(Duration::from_secs(10))
    } else {
        Err("no duration".to_string())
    }
}

#[test]
fn a_failure_report_reads_its_retry_settings() {
    let body = Json::object()
        .with("workerId", Json::text("w-1"))
        .with("errorMessage", Json::text("boom"))
        .with("retries", Json::count(2))
        .with("retryTimeout", Json::text("PT10S"));
    let report = read_failure_report(&body, &parse).unwrap();
    assert_eq!(report.worker_id, "w-1");
    assert_eq!(report.error_message, "boom");
    assert_eq!(report.retries, Some(2));
    assert_eq!(report.retry_timeout, Some(Duration::from_secs(10)));

    let body = Json::object().with("retryTimeout", Json::text("soon"));
    match read_failure_report(&body, &parse) {
        Ok(_) => panic!("a malformed timeout is refused"),
        Err(d) => assert_eq!(d.code, Code::ExternalTaskRequestInvalid),
    }
}

#[test]
fn a_task_id_is_a_uuid() {
    assert_eq!(parse_task_id("00000000-0000-0000-0000-0000000000ff").unwrap(), 255);
    let err = parse_task_id("t-1").unwrap_err();
    assert_eq!(err.code, Code::ExternalTaskRequestInvalid);
    assert!(err.message.contains("'t-1' is not a UUID"), "{}", err.message);
}

fn request(instance: &str) -> TaskRequest {
    TaskRequest {
        deployment_id: "d-1".to_string(),
        instance_id: instance.to_string(),
        channel: "score-in".to_string(),
        tenant: "acme".to_string(),
        module_key: "acme/demoflow/1.0.0".to_string(),
        body: b"x".to_vec(),
        content_type: None,
        headers: TextMap::new(),
        outbox_key: "ob-1".to_string(),
        traceparent: None,
        retries: 3,
    }
}

#[test]
fn a_parked_task_can_be_fetched_at_once() {
    let rows = PgExternalTaskRows;
    let q = request("00000000-0000-0000-0000-000000000001");
    let row = match rows.park_at(&Ok(()), &q, 7, 99) {
        Ok(row) => row,
        Err(d) => panic!("{d:?}"),
    };
    assert_eq!((row.task_id, row.instance_id, row.at), (7, 1, 99));
    assert_eq!((row.attempt_count, row.retries_left), (0, 3));
    assert_eq!((row.lock_owner, row.lock_expires_at), (None, None));
    assert_eq!((row.failed, row.last_error), (false, None));
    assert_eq!(row.request.deployment_id, "d-1");
    // An instance that is no UUID parks under the nil one.
    let q = request("i-1");
    match (rows.park(&Ok(()), &q), rows.park(&Ok(()), &q)) {
        (Ok(a), Ok(b)) => {
            assert_eq!(a.instance_id, 0);
            assert_ne!(a.task_id, b.task_id);
            assert!(a.at > 1_700_000_000_000_000_000);
        }
        _ => panic!("the rows can be written"),
    }
    assert!(rows.park(&Err("bad id".to_string()), &q).is_err());
}

#[test]
fn a_row_is_found_by_its_deployment_and_its_id() {
    let rows = PgExternalTaskRows;
    assert_eq!(rows.row_key(&Ok(()), "00000000-0000-0000-0000-0000000000ff"), Ok(255));
    assert!(rows.row_key(&Ok(()), "t-1").is_err());
    let d = rows.row_key(&Err("bad id".to_string()), "t-1").unwrap_err();
    assert_eq!(d.code, Code::RuntimeUnexpected);
    assert!(d.message.contains("bad id"), "{}", d.message);
}

fn row(task_id: u128) -> ExternalTaskRow {
    ExternalTaskRow {
        task_id,
        deployment_id: "d-1".to_string(),
        resolvable: true,
        instance_id: 10,
        channel: "score-in".to_string(),
        tenant: "acme".to_string(),
        module_key: "acme/demoflow/1.0.0".to_string(),
        headers: TextMap::new(),
        body: b"x".to_vec(),
        content_type: None,
        outbox_key: "ob-1".to_string(),
        traceparent: Some("00-1".to_string()),
        created_at: 9,
        lock_owner: Some("w-1".to_string()),
        lock_expires_at: Some(99),
        attempt_count: 2,
        retries_left: 1,
        failed: false,
    }
}

#[test]
fn a_worker_gets_an_id_that_finds_the_task_again() {
    let task = to_task(row(255), "unresolved");
    assert_eq!(task.task_id, "00000000-0000-0000-0000-0000000000ff");
    assert_eq!(task.instance_id, "00000000-0000-0000-0000-00000000000a");
    assert_eq!(parse_task_id(&task.task_id), Ok(255));
    assert_eq!(task.created_at, 9);
    assert_eq!(task.traceparent.as_deref(), Some("00-1"));
    assert_eq!(task.deployment_id, "d-1");
    // A deployment that the executor does not know is not handed out.
    let strange = ExternalTaskRow { resolvable: false, ..row(255) };
    assert_eq!(to_task(strange, "unresolved").deployment_id, "unresolved");
}

#[test]
fn the_tasks_of_a_worker_stand_in_the_order_of_the_store() {
    let rows = PgExternalTaskRows;
    let tasks = match rows.fetch_and_lock(&Ok(()), Ok(vec![row(1), row(2), row(3)]), "?") {
        Ok(tasks) => tasks,
        Err(d) => panic!("{d:?}"),
    };
    let ids: Vec<Result<u128, Diagnostic>> =
        tasks.iter().map(|t| parse_task_id(&t.task_id)).collect();
    assert_eq!(ids, vec![Ok(1), Ok(2), Ok(3)]);
    let message = |r: Result<Vec<ExternalTask>, Diagnostic>| match r {
        Ok(_) => panic!("nothing is fetched"),
        Err(d) => d.message,
    };
    assert_eq!(
        message(rows.fetch_and_lock(&Ok(()), Err("down".to_string()), "?")),
        "external task fetchAndLock failed: down"
    );
    let refused = rows.fetch_and_lock(&Err("bad id".to_string()), Ok(vec![]), "?");
    assert!(message(refused).contains("bad id"));
}

#[test]
fn a_store_that_fails_is_named() {
    const ID: &str = "00000000-0000-0000-0000-0000000000ff";
    let rows = PgExternalTaskRows;
    let down = || "down".to_string();
    assert_eq!(
        rows.peek(&Ok(()), ID, Ok(Some(row(255)))),
        Ok(Some(TaskLockView {
            lock_owner: Some("w-1".to_string()),
            lock_expires_at: Some(99),
            failed: false,
        }))
    );
    assert_eq!(rows.peek(&Ok(()), ID, Ok(None)), Ok(None));
    assert_eq!(
        rows.peek(&Ok(()), ID, Err(down())).unwrap_err().message,
        "external task peek failed: down"
    );
    assert!(rows.peek(&Ok(()), "t-1", Ok(None)).is_err());
    assert!(matches!(rows.hold(&Ok(()), ID, Ok(Some(row(255))), "?"), Ok(Some(t)) if t.task_id == ID
        && parse_task_id(&t.task_id) == Ok(255)));
    assert!(matches!(rows.hold(&Ok(()), ID, Ok(None), "?"), Ok(None)));
    assert!(matches!(
        rows.hold(&Ok(()), ID, Err(down()), "?"),
        Err(d) if d.message == "external task hold failed: down"
    ));
    assert_eq!(rows.delete(&Ok(()), ID, Ok(())), Ok(()));
    assert_eq!(
        rows.delete(&Ok(()), ID, Err(down())).unwrap_err().message,
        "external task delete failed: down"
    );
    assert_eq!(rows.fail(&Ok(()), ID, Ok(true)), Ok(true));
    assert_eq!(rows.fail(&Ok(()), ID, Ok(false)), Ok(false));
    assert_eq!(
        rows.fail(&Ok(()), ID, Err(down())).unwrap_err().message,
        "external task fail failed: down"
    );
    assert_eq!(rows.parked_answer(&Ok(false)), Ok(false));
    assert_eq!(
        rows.parked_answer(&Err(down())).unwrap_err().message,
        "external task park failed: down"
    );
}

#[test]
fn answers_name_the_task() {
    let done = completed_json("t-1", "c", "i-1");
    assert_eq!(done.get_text("taskId").unwrap(), "t-1");
    let failed = failed_json("t-1", "c", "i-1", 0, true);
    assert_eq!(failed.get_text("channel").unwrap(), "c");
    assert_eq!(store_diag("fetch", "down").code, Code::RuntimeUnexpected);
    let d = Diagnostic::error(Code::Other, "m".to_string());
    assert_eq!(d.message, "m");
}

#[test]
fn a_completion_names_its_worker() {
    let body = Json::object()
        .with("workerId", Json::text("w-1"))
        .with("result", Json::text("ok"))
        .with("contentType", Json::text("text/plain"));
    assert_eq!(
        read_completion(&body),
        Ok(("w-1".to_string(), Some(b"ok".to_vec()), Some("text/plain".to_string())))
    );
    assert_eq!(read_completion(&Json::object()), Ok((String::new(), None, None)));
    let both = body.with("resultBase64", Json::text("b2s="));
    assert_eq!(read_completion(&both).unwrap_err().code, Code::ExternalTaskRequestInvalid);
}
