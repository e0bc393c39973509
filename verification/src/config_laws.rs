//! What every accepted configuration satisfies.

use vstd::prelude::*;

use crate::config::{DeploymentSourceKind, EngineConfigView, ExternalTaskLimits};
use crate::config;
use crate::keyed;
use crate::otel;
use crate::sources::Inputs;

verus! {

/// Whether a configuration can be booted from: a directory source has its directory, no loop spins
/// on a zero interval, a claim outlives a sweep, a default lock fits under its ceiling, a retry
/// curve rises from a positive base, lanes and queues have room, and there is one key source.
pub open spec fn bootable(c: EngineConfigView) -> bool {
    &&& c.deployment_source == DeploymentSourceKind::Dir ==> c.deployments_dir is Some
    &&& 0 < c.outbox_retry.base_delay.total() <= c.outbox_retry.max_delay.total()
    &&& c.outbox_retry.max_attempts matches Some(n) ==> n >= 1
    &&& c.deferred_ack.capacity >= 1
    &&& c.deferred_ack.sweep_interval.total() > 0
    &&& 0 < c.external_task.default_lock_duration.total()
        <= c.external_task.max_lock_duration.total()
    &&& 0 < c.instance_sweep.interval.total() < c.instance_sweep.claim_timeout.total()
    &&& c.engine_shards.shards >= 1
    &&& c.engine_shards.queue_capacity matches Some(n) ==> n >= 1
    &&& c.instance_retention.interval.total() > 0
    &&& c.crypto_envelope.enabled ==> c.crypto_envelope.kek_ref is Some && c.crypto_master_key is None
}

/// Every configuration that is accepted can be booted from: what would break an engine later is
/// refused here.
pub proof fn accepted_is_bootable(m: Inputs, limits: ExternalTaskLimits)
    requires
        config::engine_config(m, limits) is Ok,
    ensures
        bootable(config::engine_config(m, limits)->Ok_0),
{
}

/// The admin surface is open only where a key says so in so many words.
pub proof fn admin_is_closed_by_default(m: Inputs, limits: ExternalTaskLimits)
    requires
        config::engine_config(m, limits) is Ok,
        m.raw("sutra.admin.oidc.dev-disabled"@, "SUTRA_ADMIN_OIDC_DEV_DISABLED"@) is None,
    ensures
        !config::engine_config(m, limits)->Ok_0.admin_auth.dev_disabled,
{
}

/// The canonical environment name of a key: its letters in upper case, and an underscore for each
/// dot and dash. The path of the audit file goes without its last word.
pub open spec fn canonical_name(key: Seq<char>) -> Seq<char> {
    if key == "sutra.audit.jsonl.path"@ {
        "SUTRA_AUDIT_JSONL"@
    } else {
        key.map_values(|c: char| name_char(c))
    }
}

/// The character of an environment name for one of a key.
pub open spec fn name_char(c: char) -> char {
    if 'a' <= c && c <= 'z' {
        (c as u32 - 32) as char
    } else if c == '.' || c == '-' {
        '_'
    } else {
        c
    }
}

/// Whether a key outside the telemetry block is read under an environment name.
#[verifier::opaque]
pub open spec fn configured(key: Seq<char>, name: Seq<char>) -> bool {
    ||| key == "sutra.deployment.source"@ && name == "SUTRA_DEPLOYMENT_SOURCE"@
    ||| key == "sutra.deployments.dir"@ && name == "SUTRA_DEPLOYMENTS_DIR"@
    ||| key == "sutra.http.port"@ && name == "SUTRA_HTTP_PORT"@
    ||| key == "sutra.ack.deferred.capacity"@ && name == "SUTRA_ACK_DEFERRED_CAPACITY"@
    ||| key == "sutra.ack.deferred.timeout"@ && name == "SUTRA_ACK_DEFERRED_TIMEOUT"@
    ||| key == "sutra.ack.deferred.sweep-interval"@ && name == "SUTRA_ACK_DEFERRED_SWEEP_INTERVAL"@
    ||| key == "sutra.external-task.default-lock-duration"@
        && name == "SUTRA_EXTERNAL_TASK_DEFAULT_LOCK_DURATION"@
    ||| key == "sutra.external-task.max-lock-duration"@
        && name == "SUTRA_EXTERNAL_TASK_MAX_LOCK_DURATION"@
    ||| key == "sutra.external-task.max-async-response-timeout"@
        && name == "SUTRA_EXTERNAL_TASK_MAX_ASYNC_RESPONSE_TIMEOUT"@
    ||| key == "sutra.external-task.max-tasks"@ && name == "SUTRA_EXTERNAL_TASK_MAX_TASKS"@
    ||| key == "sutra.external-task.retries"@ && name == "SUTRA_EXTERNAL_TASK_RETRIES"@
    ||| key == "sutra.external-task.retry-timeout"@ && name == "SUTRA_EXTERNAL_TASK_RETRY_TIMEOUT"@
    ||| key == "sutra.instance.sweep-interval"@ && name == "SUTRA_INSTANCE_SWEEP_INTERVAL"@
    ||| key == "sutra.instance.claim-timeout"@ && name == "SUTRA_INSTANCE_CLAIM_TIMEOUT"@
    ||| key == "sutra.engine.shards"@ && name == "SUTRA_ENGINE_SHARDS"@
    ||| key == "sutra.engine.shard-queue-capacity"@ && name == "SUTRA_ENGINE_SHARD_QUEUE_CAPACITY"@
    ||| key == "sutra.instance.retention"@ && name == "SUTRA_INSTANCE_RETENTION"@
    ||| key == "sutra.instance.retention-sweep-interval"@
        && name == "SUTRA_INSTANCE_RETENTION_SWEEP_INTERVAL"@
    ||| key == "sutra.codec.max-payload-bytes"@ && name == "SUTRA_CODEC_MAX_PAYLOAD_BYTES"@
    ||| key == "sutra.crypto.master-key"@ && name == "SUTRA_CRYPTO_MASTER_KEY"@
    ||| key == "sutra.crypto.envelope.enabled"@ && name == "SUTRA_CRYPTO_ENVELOPE_ENABLED"@
    ||| key == "sutra.crypto.envelope.kek"@ && name == "SUTRA_CRYPTO_ENVELOPE_KEK"@
    ||| key == "sutra.audit.jsonl.path"@ && name == "SUTRA_AUDIT_JSONL"@
    ||| key == "sutra.audit.otel.endpoint"@ && name == "SUTRA_AUDIT_OTEL_ENDPOINT"@
    ||| key == "sutra.audit.sql"@ && name == "SUTRA_AUDIT_SQL"@
    ||| key == "sutra.admin.oidc.issuer"@ && name == "SUTRA_ADMIN_OIDC_ISSUER"@
    ||| key == "sutra.admin.oidc.audience"@ && name == "SUTRA_ADMIN_OIDC_AUDIENCE"@
    ||| key == "sutra.admin.oidc.jwks"@ && name == "SUTRA_ADMIN_OIDC_JWKS"@
    ||| key == "sutra.admin.oidc.role-claim"@ && name == "SUTRA_ADMIN_OIDC_ROLE_CLAIM"@
    ||| key == "sutra.admin.oidc.required-role"@ && name == "SUTRA_ADMIN_OIDC_REQUIRED_ROLE"@
    ||| key == "sutra.admin.oidc.dev-disabled"@ && name == "SUTRA_ADMIN_OIDC_DEV_DISABLED"@
    ||| key == "sutra.admin.auth.scheme"@ && name == "SUTRA_ADMIN_AUTH_SCHEME"@
    ||| key == "sutra.admin.auth.key-ref"@ && name == "SUTRA_ADMIN_AUTH_KEY_REF"@
    ||| key == "sutra.admin.auth.header"@ && name == "SUTRA_ADMIN_AUTH_HEADER"@
    ||| key == "sutra.deployments.poll-interval"@ && name == "SUTRA_DEPLOYMENTS_POLL_INTERVAL"@
    ||| key == "sutra.outbox.tick-interval"@ && name == "SUTRA_OUTBOX_TICK_INTERVAL"@
    ||| key == "sutra.persistence.rls-bypass-check.enabled"@
        && name == "SUTRA_PERSISTENCE_RLS_BYPASS_CHECK_ENABLED"@
    ||| key == "sutra.incident.sql"@ && name == "SUTRA_INCIDENT_SQL"@
    ||| key == "sutra.datasource.url"@ && name == "SUTRA_DATASOURCE_URL"@
    ||| key == "sutra.datasource.username"@ && name == "SUTRA_DATASOURCE_USERNAME"@
    ||| key == "sutra.datasource.password"@ && name == "SUTRA_DATASOURCE_PASSWORD"@
    ||| configured_retry(key, name)
}

/// Whether a key of the outbox retry block is read under an environment name.
pub open spec fn configured_retry(key: Seq<char>, name: Seq<char>) -> bool {
    ||| key == "sutra."@ + "outbox"@ + ".retry.base-delay"@
        && name == "SUTRA_"@ + "OUTBOX"@ + "_RETRY_BASE_DELAY"@
    ||| key == "sutra."@ + "outbox"@ + ".retry.max-delay"@
        && name == "SUTRA_"@ + "OUTBOX"@ + "_RETRY_MAX_DELAY"@
    ||| key == "sutra."@ + "outbox"@ + ".retry.jitter"@
        && name == "SUTRA_"@ + "OUTBOX"@ + "_RETRY_JITTER"@
    ||| key == "sutra."@ + "outbox"@ + ".retry.max-attempts"@
        && name == "SUTRA_"@ + "OUTBOX"@ + "_RETRY_MAX_ATTEMPTS"@
}

/// Whether a telemetry key is read under an environment name, and a standard one where it has one.
pub open spec fn observed(key: Seq<char>, name: Seq<char>, standard: Option<Seq<char>>) -> bool {
    ||| key == "sutra.telemetry.otlp.endpoint"@ && name == "SUTRA_TELEMETRY_OTLP_ENDPOINT"@
        && standard == Some("OTEL_EXPORTER_OTLP_ENDPOINT"@)
    ||| key == "sutra.telemetry.service-name"@ && name == "SUTRA_TELEMETRY_SERVICE_NAME"@
        && standard == Some("OTEL_SERVICE_NAME"@)
    ||| key == "sutra.telemetry.metrics.temporality-preference"@
        && name == "SUTRA_TELEMETRY_METRICS_TEMPORALITY_PREFERENCE"@
        && standard == Some("OTEL_EXPORTER_OTLP_METRICS_TEMPORALITY_PREFERENCE"@)
    ||| key == "sutra.telemetry.metrics.export-interval"@
        && name == "SUTRA_TELEMETRY_METRICS_EXPORT_INTERVAL"@
        && standard == Some("OTEL_METRIC_EXPORT_INTERVAL"@)
    ||| key == "sutra.telemetry.metric-labels"@ && name == "SUTRA_TELEMETRY_METRIC_LABELS"@
        && standard == None::<Seq<char>>
    ||| key == "sutra.telemetry.enabled"@ && name == "SUTRA_TELEMETRY_ENABLED"@
        && standard == None::<Seq<char>>
}

#[verifier::rlimit(40)]
proof fn configured_names(key: Seq<char>, name: Seq<char>)
    requires
        configured(key, name),
    ensures
        name == canonical_name(key),
{
    reveal(configured);
    assert(canonical_name("sutra.deployment.source"@) == "SUTRA_DEPLOYMENT_SOURCE"@) by {
        reveal_strlit("sutra.audit.jsonl.path");
        reveal_strlit("sutra.deployment.source");
        reveal_strlit("SUTRA_DEPLOYMENT_SOURCE");
        assert(canonical_name("sutra.deployment.source"@) =~= "SUTRA_DEPLOYMENT_SOURCE"@);
    }
    assert(canonical_name("sutra.deployments.dir"@) == "SUTRA_DEPLOYMENTS_DIR"@) by {
        reveal_strlit("sutra.audit.jsonl.path");
        reveal_strlit("sutra.deployments.dir");
        reveal_strlit("SUTRA_DEPLOYMENTS_DIR");
        assert(canonical_name("sutra.deployments.dir"@) =~= "SUTRA_DEPLOYMENTS_DIR"@);
    }
    assert(canonical_name("sutra.http.port"@) == "SUTRA_HTTP_PORT"@) by {
        reveal_strlit("sutra.audit.jsonl.path");
        reveal_strlit("sutra.http.port");
        reveal_strlit("SUTRA_HTTP_PORT");
        assert(canonical_name("sutra.http.port"@) =~= "SUTRA_HTTP_PORT"@);
    }
    assert(canonical_name("sutra.ack.deferred.capacity"@) == "SUTRA_ACK_DEFERRED_CAPACITY"@) by {
        reveal_strlit("sutra.audit.jsonl.path");
        reveal_strlit("sutra.ack.deferred.capacity");
        reveal_strlit("SUTRA_ACK_DEFERRED_CAPACITY");
        assert(canonical_name("sutra.ack.deferred.capacity"@) =~= "SUTRA_ACK_DEFERRED_CAPACITY"@);
    }
    assert(canonical_name("sutra.ack.deferred.timeout"@) == "SUTRA_ACK_DEFERRED_TIMEOUT"@) by {
        reveal_strlit("sutra.audit.jsonl.path");
        reveal_strlit("sutra.ack.deferred.timeout");
        reveal_strlit("SUTRA_ACK_DEFERRED_TIMEOUT");
        assert(canonical_name("sutra.ack.deferred.timeout"@) =~= "SUTRA_ACK_DEFERRED_TIMEOUT"@);
    }
    assert(canonical_name("sutra.ack.deferred.sweep-interval"@)
        == "SUTRA_ACK_DEFERRED_SWEEP_INTERVAL"@) by {
        reveal_strlit("sutra.audit.jsonl.path");
        reveal_strlit("sutra.ack.deferred.sweep-interval");
        reveal_strlit("SUTRA_ACK_DEFERRED_SWEEP_INTERVAL");
        assert(canonical_name("sutra.ack.deferred.sweep-interval"@)
            =~= "SUTRA_ACK_DEFERRED_SWEEP_INTERVAL"@);
    }
    assert(canonical_name("sutra.external-task.default-lock-duration"@)
        == "SUTRA_EXTERNAL_TASK_DEFAULT_LOCK_DURATION"@) by {
        reveal_strlit("sutra.audit.jsonl.path");
        reveal_strlit("sutra.external-task.default-lock-duration");
        reveal_strlit("SUTRA_EXTERNAL_TASK_DEFAULT_LOCK_DURATION");
        assert(canonical_name("sutra.external-task.default-lock-duration"@)
            =~= "SUTRA_EXTERNAL_TASK_DEFAULT_LOCK_DURATION"@);
    }
    assert(canonical_name("sutra.external-task.max-lock-duration"@)
        == "SUTRA_EXTERNAL_TASK_MAX_LOCK_DURATION"@) by {
        reveal_strlit("sutra.audit.jsonl.path");
        reveal_strlit("sutra.external-task.max-lock-duration");
        reveal_strlit("SUTRA_EXTERNAL_TASK_MAX_LOCK_DURATION");
        assert(canonical_name("sutra.external-task.max-lock-duration"@)
            =~= "SUTRA_EXTERNAL_TASK_MAX_LOCK_DURATION"@);
    }
    assert(canonical_name("sutra.external-task.max-async-response-timeout"@)
        == "SUTRA_EXTERNAL_TASK_MAX_ASYNC_RESPONSE_TIMEOUT"@) by {
        reveal_strlit("sutra.audit.jsonl.path");
        reveal_strlit("sutra.external-task.max-async-response-timeout");
        reveal_strlit("SUTRA_EXTERNAL_TASK_MAX_ASYNC_RESPONSE_TIMEOUT");
        assert(canonical_name("sutra.external-task.max-async-response-timeout"@)
            =~= "SUTRA_EXTERNAL_TASK_MAX_ASYNC_RESPONSE_TIMEOUT"@);
    }
    assert(canonical_name("sutra.external-task.max-tasks"@)
        == "SUTRA_EXTERNAL_TASK_MAX_TASKS"@) by {
        reveal_strlit("sutra.audit.jsonl.path");
        reveal_strlit("sutra.external-task.max-tasks");
        reveal_strlit("SUTRA_EXTERNAL_TASK_MAX_TASKS");
        assert(canonical_name("sutra.external-task.max-tasks"@)
            =~= "SUTRA_EXTERNAL_TASK_MAX_TASKS"@);
    }
    assert(canonical_name("sutra.external-task.retries"@) == "SUTRA_EXTERNAL_TASK_RETRIES"@) by {
        reveal_strlit("sutra.audit.jsonl.path");
        reveal_strlit("sutra.external-task.retries");
        reveal_strlit("SUTRA_EXTERNAL_TASK_RETRIES");
        assert(canonical_name("sutra.external-task.retries"@) =~= "SUTRA_EXTERNAL_TASK_RETRIES"@);
    }
    assert(canonical_name("sutra.external-task.retry-timeout"@)
        == "SUTRA_EXTERNAL_TASK_RETRY_TIMEOUT"@) by {
        reveal_strlit("sutra.audit.jsonl.path");
        reveal_strlit("sutra.external-task.retry-timeout");
        reveal_strlit("SUTRA_EXTERNAL_TASK_RETRY_TIMEOUT");
        assert(canonical_name("sutra.external-task.retry-timeout"@)
            =~= "SUTRA_EXTERNAL_TASK_RETRY_TIMEOUT"@);
    }
    assert(canonical_name("sutra.instance.sweep-interval"@)
        == "SUTRA_INSTANCE_SWEEP_INTERVAL"@) by {
        reveal_strlit("sutra.audit.jsonl.path");
        reveal_strlit("sutra.instance.sweep-interval");
        reveal_strlit("SUTRA_INSTANCE_SWEEP_INTERVAL");
        assert(canonical_name("sutra.instance.sweep-interval"@)
            =~= "SUTRA_INSTANCE_SWEEP_INTERVAL"@);
    }
    assert(canonical_name("sutra.instance.claim-timeout"@) == "SUTRA_INSTANCE_CLAIM_TIMEOUT"@) by {
        reveal_strlit("sutra.audit.jsonl.path");
        reveal_strlit("sutra.instance.claim-timeout");
        reveal_strlit("SUTRA_INSTANCE_CLAIM_TIMEOUT");
        assert(canonical_name("sutra.instance.claim-timeout"@) =~= "SUTRA_INSTANCE_CLAIM_TIMEOUT"@);
    }
    assert(canonical_name("sutra.engine.shards"@) == "SUTRA_ENGINE_SHARDS"@) by {
        reveal_strlit("sutra.audit.jsonl.path");
        reveal_strlit("sutra.engine.shards");
        reveal_strlit("SUTRA_ENGINE_SHARDS");
        assert(canonical_name("sutra.engine.shards"@) =~= "SUTRA_ENGINE_SHARDS"@);
    }
    assert(canonical_name("sutra.engine.shard-queue-capacity"@)
        == "SUTRA_ENGINE_SHARD_QUEUE_CAPACITY"@) by {
        reveal_strlit("sutra.audit.jsonl.path");
        reveal_strlit("sutra.engine.shard-queue-capacity");
        reveal_strlit("SUTRA_ENGINE_SHARD_QUEUE_CAPACITY");
        assert(canonical_name("sutra.engine.shard-queue-capacity"@)
            =~= "SUTRA_ENGINE_SHARD_QUEUE_CAPACITY"@);
    }
    assert(canonical_name("sutra.instance.retention"@) == "SUTRA_INSTANCE_RETENTION"@) by {
        reveal_strlit("sutra.audit.jsonl.path");
        reveal_strlit("sutra.instance.retention");
        reveal_strlit("SUTRA_INSTANCE_RETENTION");
        assert(canonical_name("sutra.instance.retention"@) =~= "SUTRA_INSTANCE_RETENTION"@);
    }
    assert(canonical_name("sutra.instance.retention-sweep-interval"@)
        == "SUTRA_INSTANCE_RETENTION_SWEEP_INTERVAL"@) by {
        reveal_strlit("sutra.audit.jsonl.path");
        reveal_strlit("sutra.instance.retention-sweep-interval");
        reveal_strlit("SUTRA_INSTANCE_RETENTION_SWEEP_INTERVAL");
        assert(canonical_name("sutra.instance.retention-sweep-interval"@)
            =~= "SUTRA_INSTANCE_RETENTION_SWEEP_INTERVAL"@);
    }
    assert(canonical_name("sutra.codec.max-payload-bytes"@)
        == "SUTRA_CODEC_MAX_PAYLOAD_BYTES"@) by {
        reveal_strlit("sutra.audit.jsonl.path");
        reveal_strlit("sutra.codec.max-payload-bytes");
        reveal_strlit("SUTRA_CODEC_MAX_PAYLOAD_BYTES");
        assert(canonical_name("sutra.codec.max-payload-bytes"@)
            =~= "SUTRA_CODEC_MAX_PAYLOAD_BYTES"@);
    }
    assert(canonical_name("sutra.crypto.master-key"@) == "SUTRA_CRYPTO_MASTER_KEY"@) by {
        reveal_strlit("sutra.audit.jsonl.path");
        reveal_strlit("sutra.crypto.master-key");
        reveal_strlit("SUTRA_CRYPTO_MASTER_KEY");
        assert(canonical_name("sutra.crypto.master-key"@) =~= "SUTRA_CRYPTO_MASTER_KEY"@);
    }
    assert(canonical_name("sutra.crypto.envelope.enabled"@)
        == "SUTRA_CRYPTO_ENVELOPE_ENABLED"@) by {
        reveal_strlit("sutra.audit.jsonl.path");
        reveal_strlit("sutra.crypto.envelope.enabled");
        reveal_strlit("SUTRA_CRYPTO_ENVELOPE_ENABLED");
        assert(canonical_name("sutra.crypto.envelope.enabled"@)
            =~= "SUTRA_CRYPTO_ENVELOPE_ENABLED"@);
    }
    assert(canonical_name("sutra.crypto.envelope.kek"@) == "SUTRA_CRYPTO_ENVELOPE_KEK"@) by {
        reveal_strlit("sutra.audit.jsonl.path");
        reveal_strlit("sutra.crypto.envelope.kek");
        reveal_strlit("SUTRA_CRYPTO_ENVELOPE_KEK");
        assert(canonical_name("sutra.crypto.envelope.kek"@) =~= "SUTRA_CRYPTO_ENVELOPE_KEK"@);
    }
    assert(canonical_name("sutra.audit.otel.endpoint"@) == "SUTRA_AUDIT_OTEL_ENDPOINT"@) by {
        reveal_strlit("sutra.audit.jsonl.path");
        reveal_strlit("sutra.audit.otel.endpoint");
        reveal_strlit("SUTRA_AUDIT_OTEL_ENDPOINT");
        assert(canonical_name("sutra.audit.otel.endpoint"@) =~= "SUTRA_AUDIT_OTEL_ENDPOINT"@);
    }
    assert(canonical_name("sutra.audit.sql"@) == "SUTRA_AUDIT_SQL"@) by {
        reveal_strlit("sutra.audit.jsonl.path");
        reveal_strlit("sutra.audit.sql");
        reveal_strlit("SUTRA_AUDIT_SQL");
        assert(canonical_name("sutra.audit.sql"@) =~= "SUTRA_AUDIT_SQL"@);
    }
    assert(canonical_name("sutra.admin.oidc.issuer"@) == "SUTRA_ADMIN_OIDC_ISSUER"@) by {
        reveal_strlit("sutra.audit.jsonl.path");
        reveal_strlit("sutra.admin.oidc.issuer");
        reveal_strlit("SUTRA_ADMIN_OIDC_ISSUER");
        assert(canonical_name("sutra.admin.oidc.issuer"@) =~= "SUTRA_ADMIN_OIDC_ISSUER"@);
    }
    assert(canonical_name("sutra.admin.oidc.audience"@) == "SUTRA_ADMIN_OIDC_AUDIENCE"@) by {
        reveal_strlit("sutra.audit.jsonl.path");
        reveal_strlit("sutra.admin.oidc.audience");
        reveal_strlit("SUTRA_ADMIN_OIDC_AUDIENCE");
        assert(canonical_name("sutra.admin.oidc.audience"@) =~= "SUTRA_ADMIN_OIDC_AUDIENCE"@);
    }
    assert(canonical_name("sutra.admin.oidc.jwks"@) == "SUTRA_ADMIN_OIDC_JWKS"@) by {
        reveal_strlit("sutra.audit.jsonl.path");
        reveal_strlit("sutra.admin.oidc.jwks");
        reveal_strlit("SUTRA_ADMIN_OIDC_JWKS");
        assert(canonical_name("sutra.admin.oidc.jwks"@) =~= "SUTRA_ADMIN_OIDC_JWKS"@);
    }
    assert(canonical_name("sutra.admin.oidc.role-claim"@) == "SUTRA_ADMIN_OIDC_ROLE_CLAIM"@) by {
        reveal_strlit("sutra.audit.jsonl.path");
        reveal_strlit("sutra.admin.oidc.role-claim");
        reveal_strlit("SUTRA_ADMIN_OIDC_ROLE_CLAIM");
        assert(canonical_name("sutra.admin.oidc.role-claim"@) =~= "SUTRA_ADMIN_OIDC_ROLE_CLAIM"@);
    }
    assert(canonical_name("sutra.admin.oidc.required-role"@)
        == "SUTRA_ADMIN_OIDC_REQUIRED_ROLE"@) by {
        reveal_strlit("sutra.audit.jsonl.path");
        reveal_strlit("sutra.admin.oidc.required-role");
        reveal_strlit("SUTRA_ADMIN_OIDC_REQUIRED_ROLE");
        assert(canonical_name("sutra.admin.oidc.required-role"@)
            =~= "SUTRA_ADMIN_OIDC_REQUIRED_ROLE"@);
    }
    assert(canonical_name("sutra.admin.oidc.dev-disabled"@)
        == "SUTRA_ADMIN_OIDC_DEV_DISABLED"@) by {
        reveal_strlit("sutra.audit.jsonl.path");
        reveal_strlit("sutra.admin.oidc.dev-disabled");
        reveal_strlit("SUTRA_ADMIN_OIDC_DEV_DISABLED");
        assert(canonical_name("sutra.admin.oidc.dev-disabled"@)
            =~= "SUTRA_ADMIN_OIDC_DEV_DISABLED"@);
    }
    assert(canonical_name("sutra.admin.auth.scheme"@) == "SUTRA_ADMIN_AUTH_SCHEME"@) by {
        reveal_strlit("sutra.audit.jsonl.path");
        reveal_strlit("sutra.admin.auth.scheme");
        reveal_strlit("SUTRA_ADMIN_AUTH_SCHEME");
        assert(canonical_name("sutra.admin.auth.scheme"@) =~= "SUTRA_ADMIN_AUTH_SCHEME"@);
    }
    assert(canonical_name("sutra.admin.auth.key-ref"@) == "SUTRA_ADMIN_AUTH_KEY_REF"@) by {
        reveal_strlit("sutra.audit.jsonl.path");
        reveal_strlit("sutra.admin.auth.key-ref");
        reveal_strlit("SUTRA_ADMIN_AUTH_KEY_REF");
        assert(canonical_name("sutra.admin.auth.key-ref"@) =~= "SUTRA_ADMIN_AUTH_KEY_REF"@);
    }
    assert(canonical_name("sutra.admin.auth.header"@) == "SUTRA_ADMIN_AUTH_HEADER"@) by {
        reveal_strlit("sutra.audit.jsonl.path");
        reveal_strlit("sutra.admin.auth.header");
        reveal_strlit("SUTRA_ADMIN_AUTH_HEADER");
        assert(canonical_name("sutra.admin.auth.header"@) =~= "SUTRA_ADMIN_AUTH_HEADER"@);
    }
    assert(canonical_name("sutra.deployments.poll-interval"@)
        == "SUTRA_DEPLOYMENTS_POLL_INTERVAL"@) by {
        reveal_strlit("sutra.audit.jsonl.path");
        reveal_strlit("sutra.deployments.poll-interval");
        reveal_strlit("SUTRA_DEPLOYMENTS_POLL_INTERVAL");
        assert(canonical_name("sutra.deployments.poll-interval"@)
            =~= "SUTRA_DEPLOYMENTS_POLL_INTERVAL"@);
    }
    assert(canonical_name("sutra.outbox.tick-interval"@) == "SUTRA_OUTBOX_TICK_INTERVAL"@) by {
        reveal_strlit("sutra.audit.jsonl.path");
        reveal_strlit("sutra.outbox.tick-interval");
        reveal_strlit("SUTRA_OUTBOX_TICK_INTERVAL");
        assert(canonical_name("sutra.outbox.tick-interval"@) =~= "SUTRA_OUTBOX_TICK_INTERVAL"@);
    }
    assert(canonical_name("sutra.persistence.rls-bypass-check.enabled"@)
        == "SUTRA_PERSISTENCE_RLS_BYPASS_CHECK_ENABLED"@) by {
        reveal_strlit("sutra.audit.jsonl.path");
        reveal_strlit("sutra.persistence.rls-bypass-check.enabled");
        reveal_strlit("SUTRA_PERSISTENCE_RLS_BYPASS_CHECK_ENABLED");
        assert(canonical_name("sutra.persistence.rls-bypass-check.enabled"@)
            =~= "SUTRA_PERSISTENCE_RLS_BYPASS_CHECK_ENABLED"@);
    }
    assert(canonical_name("sutra.incident.sql"@) == "SUTRA_INCIDENT_SQL"@) by {
        reveal_strlit("sutra.audit.jsonl.path");
        reveal_strlit("sutra.incident.sql");
        reveal_strlit("SUTRA_INCIDENT_SQL");
        assert(canonical_name("sutra.incident.sql"@) =~= "SUTRA_INCIDENT_SQL"@);
    }
    assert(canonical_name("sutra.datasource.url"@) == "SUTRA_DATASOURCE_URL"@) by {
        reveal_strlit("sutra.audit.jsonl.path");
        reveal_strlit("sutra.datasource.url");
        reveal_strlit("SUTRA_DATASOURCE_URL");
        assert(canonical_name("sutra.datasource.url"@) =~= "SUTRA_DATASOURCE_URL"@);
    }
    assert(canonical_name("sutra.datasource.username"@) == "SUTRA_DATASOURCE_USERNAME"@) by {
        reveal_strlit("sutra.audit.jsonl.path");
        reveal_strlit("sutra.datasource.username");
        reveal_strlit("SUTRA_DATASOURCE_USERNAME");
        assert(canonical_name("sutra.datasource.username"@) =~= "SUTRA_DATASOURCE_USERNAME"@);
    }
    assert(canonical_name("sutra.datasource.password"@) == "SUTRA_DATASOURCE_PASSWORD"@) by {
        reveal_strlit("sutra.audit.jsonl.path");
        reveal_strlit("sutra.datasource.password");
        reveal_strlit("SUTRA_DATASOURCE_PASSWORD");
        assert(canonical_name("sutra.datasource.password"@) =~= "SUTRA_DATASOURCE_PASSWORD"@);
    }
    if configured_retry(key, name) {
        retry_names(key, name);
    }
}

proof fn retry_names(key: Seq<char>, name: Seq<char>)
    requires
        configured_retry(key, name),
    ensures
        name == canonical_name(key),
{
    assert(canonical_name("sutra."@ + "outbox"@ + ".retry.base-delay"@)
        == "SUTRA_"@ + "OUTBOX"@ + "_RETRY_BASE_DELAY"@) by {
        reveal_strlit("sutra.audit.jsonl.path");
        reveal_strlit("sutra.");
        reveal_strlit("outbox");
        reveal_strlit(".retry.base-delay");
        reveal_strlit("SUTRA_");
        reveal_strlit("OUTBOX");
        reveal_strlit("_RETRY_BASE_DELAY");
        assert(canonical_name("sutra."@ + "outbox"@ + ".retry.base-delay"@)
            =~= "SUTRA_"@ + "OUTBOX"@ + "_RETRY_BASE_DELAY"@);
    }
    assert(canonical_name("sutra."@ + "outbox"@ + ".retry.max-delay"@)
        == "SUTRA_"@ + "OUTBOX"@ + "_RETRY_MAX_DELAY"@) by {
        reveal_strlit("sutra.audit.jsonl.path");
        reveal_strlit("sutra.");
        reveal_strlit("outbox");
        reveal_strlit(".retry.max-delay");
        reveal_strlit("SUTRA_");
        reveal_strlit("OUTBOX");
        reveal_strlit("_RETRY_MAX_DELAY");
        assert(canonical_name("sutra."@ + "outbox"@ + ".retry.max-delay"@)
            =~= "SUTRA_"@ + "OUTBOX"@ + "_RETRY_MAX_DELAY"@);
    }
    assert(canonical_name("sutra."@ + "outbox"@ + ".retry.jitter"@)
        == "SUTRA_"@ + "OUTBOX"@ + "_RETRY_JITTER"@) by {
        reveal_strlit("sutra.audit.jsonl.path");
        reveal_strlit("sutra.");
        reveal_strlit("outbox");
        reveal_strlit(".retry.jitter");
        reveal_strlit("SUTRA_");
        reveal_strlit("OUTBOX");
        reveal_strlit("_RETRY_JITTER");
        assert(canonical_name("sutra."@ + "outbox"@ + ".retry.jitter"@)
            =~= "SUTRA_"@ + "OUTBOX"@ + "_RETRY_JITTER"@);
    }
    assert(canonical_name("sutra."@ + "outbox"@ + ".retry.max-attempts"@)
        == "SUTRA_"@ + "OUTBOX"@ + "_RETRY_MAX_ATTEMPTS"@) by {
        reveal_strlit("sutra.audit.jsonl.path");
        reveal_strlit("sutra.");
        reveal_strlit("outbox");
        reveal_strlit(".retry.max-attempts");
        reveal_strlit("SUTRA_");
        reveal_strlit("OUTBOX");
        reveal_strlit("_RETRY_MAX_ATTEMPTS");
        assert(canonical_name("sutra."@ + "outbox"@ + ".retry.max-attempts"@)
            =~= "SUTRA_"@ + "OUTBOX"@ + "_RETRY_MAX_ATTEMPTS"@);
    }
}

proof fn observed_names(key: Seq<char>, name: Seq<char>, standard: Option<Seq<char>>)
    requires
        observed(key, name, standard),
    ensures
        name == canonical_name(key),
{
    assert(canonical_name("sutra.telemetry.otlp.endpoint"@)
        == "SUTRA_TELEMETRY_OTLP_ENDPOINT"@) by {
        reveal_strlit("sutra.audit.jsonl.path");
        reveal_strlit("sutra.telemetry.otlp.endpoint");
        reveal_strlit("SUTRA_TELEMETRY_OTLP_ENDPOINT");
        assert(canonical_name("sutra.telemetry.otlp.endpoint"@)
            =~= "SUTRA_TELEMETRY_OTLP_ENDPOINT"@);
    }
    assert(canonical_name("sutra.telemetry.service-name"@) == "SUTRA_TELEMETRY_SERVICE_NAME"@) by {
        reveal_strlit("sutra.audit.jsonl.path");
        reveal_strlit("sutra.telemetry.service-name");
        reveal_strlit("SUTRA_TELEMETRY_SERVICE_NAME");
        assert(canonical_name("sutra.telemetry.service-name"@) =~= "SUTRA_TELEMETRY_SERVICE_NAME"@);
    }
    assert(canonical_name("sutra.telemetry.metrics.temporality-preference"@)
        == "SUTRA_TELEMETRY_METRICS_TEMPORALITY_PREFERENCE"@) by {
        reveal_strlit("sutra.audit.jsonl.path");
        reveal_strlit("sutra.telemetry.metrics.temporality-preference");
        reveal_strlit("SUTRA_TELEMETRY_METRICS_TEMPORALITY_PREFERENCE");
        assert(canonical_name("sutra.telemetry.metrics.temporality-preference"@)
            =~= "SUTRA_TELEMETRY_METRICS_TEMPORALITY_PREFERENCE"@);
    }
    assert(canonical_name("sutra.telemetry.metrics.export-interval"@)
        == "SUTRA_TELEMETRY_METRICS_EXPORT_INTERVAL"@) by {
        reveal_strlit("sutra.audit.jsonl.path");
        reveal_strlit("sutra.telemetry.metrics.export-interval");
        reveal_strlit("SUTRA_TELEMETRY_METRICS_EXPORT_INTERVAL");
        assert(canonical_name("sutra.telemetry.metrics.export-interval"@)
            =~= "SUTRA_TELEMETRY_METRICS_EXPORT_INTERVAL"@);
    }
    assert(canonical_name("sutra.telemetry.metric-labels"@)
        == "SUTRA_TELEMETRY_METRIC_LABELS"@) by {
        reveal_strlit("sutra.audit.jsonl.path");
        reveal_strlit("sutra.telemetry.metric-labels");
        reveal_strlit("SUTRA_TELEMETRY_METRIC_LABELS");
        assert(canonical_name("sutra.telemetry.metric-labels"@)
            =~= "SUTRA_TELEMETRY_METRIC_LABELS"@);
    }
    assert(canonical_name("sutra.telemetry.enabled"@) == "SUTRA_TELEMETRY_ENABLED"@) by {
        reveal_strlit("sutra.audit.jsonl.path");
        reveal_strlit("sutra.telemetry.enabled");
        reveal_strlit("SUTRA_TELEMETRY_ENABLED");
        assert(canonical_name("sutra.telemetry.enabled"@) =~= "SUTRA_TELEMETRY_ENABLED"@);
    }
}

/// Whether inputs give every value outside the telemetry block alike.
#[verifier::opaque]
spec fn alike(m: Inputs, n: Inputs) -> bool {
    &&& m.resolve == n.resolve
    &&& m.read == n.read
    &&& forall|k: Seq<char>, e: Seq<char>|
        configured(k, e) ==> #[trigger] m.raw(k, e) == n.raw(k, e)
}

/// Whether inputs give every value of the telemetry block alike.
spec fn observed_alike(m: Inputs, n: Inputs) -> bool {
    &&& m.resolve == n.resolve
    &&& forall|k: Seq<char>, e: Seq<char>, s: Option<Seq<char>>|
        observed(k, e, s) ==> #[trigger] m.telemetry_raw(k, e, s) == n.telemetry_raw(k, e, s)
    &&& (m.env)("OTEL_SDK_DISABLED"@) == (n.env)("OTEL_SDK_DISABLED"@)
}

proof fn read_alike(m: Inputs, n: Inputs, key: Seq<char>, name: Seq<char>)
    requires
        alike(m, n),
        configured(key, name),
    ensures
        m.setting(key, name) == n.setting(key, name),
{
    reveal(alike);
    assert(m.raw(key, name) == n.raw(key, name));
}

proof fn source_kind_alike(m: Inputs, n: Inputs)
    requires
        alike(m, n),
    ensures
        config::source_kind(m) == config::source_kind(n),
{
    assert(m.setting("sutra.deployment.source"@, "SUTRA_DEPLOYMENT_SOURCE"@)
        == n.setting("sutra.deployment.source"@, "SUTRA_DEPLOYMENT_SOURCE"@)) by {
        reveal(configured);
        read_alike(m, n, "sutra.deployment.source"@, "SUTRA_DEPLOYMENT_SOURCE"@);
    }
}

proof fn archive_dir_alike(m: Inputs, n: Inputs, kind: DeploymentSourceKind)
    requires
        alike(m, n),
    ensures
        config::archive_dir(m, kind) == config::archive_dir(n, kind),
{
    assert(m.setting("sutra.deployments.dir"@, "SUTRA_DEPLOYMENTS_DIR"@)
        == n.setting("sutra.deployments.dir"@, "SUTRA_DEPLOYMENTS_DIR"@)) by {
        reveal(configured);
        read_alike(m, n, "sutra.deployments.dir"@, "SUTRA_DEPLOYMENTS_DIR"@);
    }
}

proof fn port_alike(m: Inputs, n: Inputs)
    requires
        alike(m, n),
    ensures
        config::port(m) == config::port(n),
{
    assert(m.setting("sutra.http.port"@, "SUTRA_HTTP_PORT"@)
        == n.setting("sutra.http.port"@, "SUTRA_HTTP_PORT"@)) by {
        reveal(configured);
        read_alike(m, n, "sutra.http.port"@, "SUTRA_HTTP_PORT"@);
    }
}

proof fn deferred_ack_alike(m: Inputs, n: Inputs)
    requires
        alike(m, n),
    ensures
        config::deferred_ack(m) == config::deferred_ack(n),
{
    assert(m.read == n.read) by {
        reveal(alike);
    }
    assert(m.setting("sutra.ack.deferred.capacity"@, "SUTRA_ACK_DEFERRED_CAPACITY"@)
        == n.setting("sutra.ack.deferred.capacity"@, "SUTRA_ACK_DEFERRED_CAPACITY"@)) by {
        reveal(configured);
        read_alike(m, n, "sutra.ack.deferred.capacity"@, "SUTRA_ACK_DEFERRED_CAPACITY"@);
    }
    assert(m.setting("sutra.ack.deferred.timeout"@, "SUTRA_ACK_DEFERRED_TIMEOUT"@)
        == n.setting("sutra.ack.deferred.timeout"@, "SUTRA_ACK_DEFERRED_TIMEOUT"@)) by {
        reveal(configured);
        read_alike(m, n, "sutra.ack.deferred.timeout"@, "SUTRA_ACK_DEFERRED_TIMEOUT"@);
    }
    assert(m.setting(
        "sutra.ack.deferred.sweep-interval"@,
        "SUTRA_ACK_DEFERRED_SWEEP_INTERVAL"@,
    ) == n.setting(
        "sutra.ack.deferred.sweep-interval"@,
        "SUTRA_ACK_DEFERRED_SWEEP_INTERVAL"@,
    )) by {
        reveal(configured);
        read_alike(
            m,
            n,
            "sutra.ack.deferred.sweep-interval"@,
            "SUTRA_ACK_DEFERRED_SWEEP_INTERVAL"@,
        );
    }
}

proof fn external_task_alike(m: Inputs, n: Inputs, limits: ExternalTaskLimits)
    requires
        alike(m, n),
    ensures
        config::external_task(m, limits) == config::external_task(n, limits),
{
    assert(m.read == n.read) by {
        reveal(alike);
    }
    assert(m.setting(
        "sutra.external-task.default-lock-duration"@,
        "SUTRA_EXTERNAL_TASK_DEFAULT_LOCK_DURATION"@,
    ) == n.setting(
        "sutra.external-task.default-lock-duration"@,
        "SUTRA_EXTERNAL_TASK_DEFAULT_LOCK_DURATION"@,
    )) by {
        reveal(configured);
        read_alike(
            m,
            n,
            "sutra.external-task.default-lock-duration"@,
            "SUTRA_EXTERNAL_TASK_DEFAULT_LOCK_DURATION"@,
        );
    }
    assert(m.setting(
        "sutra.external-task.max-lock-duration"@,
        "SUTRA_EXTERNAL_TASK_MAX_LOCK_DURATION"@,
    ) == n.setting(
        "sutra.external-task.max-lock-duration"@,
        "SUTRA_EXTERNAL_TASK_MAX_LOCK_DURATION"@,
    )) by {
        reveal(configured);
        read_alike(
            m,
            n,
            "sutra.external-task.max-lock-duration"@,
            "SUTRA_EXTERNAL_TASK_MAX_LOCK_DURATION"@,
        );
    }
    assert(m.setting(
        "sutra.external-task.max-async-response-timeout"@,
        "SUTRA_EXTERNAL_TASK_MAX_ASYNC_RESPONSE_TIMEOUT"@,
    ) == n.setting(
        "sutra.external-task.max-async-response-timeout"@,
        "SUTRA_EXTERNAL_TASK_MAX_ASYNC_RESPONSE_TIMEOUT"@,
    )) by {
        reveal(configured);
        read_alike(
            m,
            n,
            "sutra.external-task.max-async-response-timeout"@,
            "SUTRA_EXTERNAL_TASK_MAX_ASYNC_RESPONSE_TIMEOUT"@,
        );
    }
    assert(m.setting("sutra.external-task.max-tasks"@, "SUTRA_EXTERNAL_TASK_MAX_TASKS"@)
        == n.setting("sutra.external-task.max-tasks"@, "SUTRA_EXTERNAL_TASK_MAX_TASKS"@)) by {
        reveal(configured);
        read_alike(m, n, "sutra.external-task.max-tasks"@, "SUTRA_EXTERNAL_TASK_MAX_TASKS"@);
    }
    assert(m.setting("sutra.external-task.retries"@, "SUTRA_EXTERNAL_TASK_RETRIES"@)
        == n.setting("sutra.external-task.retries"@, "SUTRA_EXTERNAL_TASK_RETRIES"@)) by {
        reveal(configured);
        read_alike(m, n, "sutra.external-task.retries"@, "SUTRA_EXTERNAL_TASK_RETRIES"@);
    }
    assert(m.setting(
        "sutra.external-task.retry-timeout"@,
        "SUTRA_EXTERNAL_TASK_RETRY_TIMEOUT"@,
    ) == n.setting(
        "sutra.external-task.retry-timeout"@,
        "SUTRA_EXTERNAL_TASK_RETRY_TIMEOUT"@,
    )) by {
        reveal(configured);
        read_alike(
            m,
            n,
            "sutra.external-task.retry-timeout"@,
            "SUTRA_EXTERNAL_TASK_RETRY_TIMEOUT"@,
        );
    }
}

proof fn instance_sweep_alike(m: Inputs, n: Inputs)
    requires
        alike(m, n),
    ensures
        config::instance_sweep(m) == config::instance_sweep(n),
{
    assert(m.read == n.read) by {
        reveal(alike);
    }
    assert(m.setting("sutra.instance.sweep-interval"@, "SUTRA_INSTANCE_SWEEP_INTERVAL"@)
        == n.setting("sutra.instance.sweep-interval"@, "SUTRA_INSTANCE_SWEEP_INTERVAL"@)) by {
        reveal(configured);
        read_alike(m, n, "sutra.instance.sweep-interval"@, "SUTRA_INSTANCE_SWEEP_INTERVAL"@);
    }
    assert(m.setting("sutra.instance.claim-timeout"@, "SUTRA_INSTANCE_CLAIM_TIMEOUT"@)
        == n.setting("sutra.instance.claim-timeout"@, "SUTRA_INSTANCE_CLAIM_TIMEOUT"@)) by {
        reveal(configured);
        read_alike(m, n, "sutra.instance.claim-timeout"@, "SUTRA_INSTANCE_CLAIM_TIMEOUT"@);
    }
}

proof fn engine_shards_alike(m: Inputs, n: Inputs)
    requires
        alike(m, n),
    ensures
        config::engine_shards(m) == config::engine_shards(n),
{
    assert(m.setting("sutra.engine.shards"@, "SUTRA_ENGINE_SHARDS"@)
        == n.setting("sutra.engine.shards"@, "SUTRA_ENGINE_SHARDS"@)) by {
        reveal(configured);
        read_alike(m, n, "sutra.engine.shards"@, "SUTRA_ENGINE_SHARDS"@);
    }
    assert(m.setting(
        "sutra.engine.shard-queue-capacity"@,
        "SUTRA_ENGINE_SHARD_QUEUE_CAPACITY"@,
    ) == n.setting(
        "sutra.engine.shard-queue-capacity"@,
        "SUTRA_ENGINE_SHARD_QUEUE_CAPACITY"@,
    )) by {
        reveal(configured);
        read_alike(
            m,
            n,
            "sutra.engine.shard-queue-capacity"@,
            "SUTRA_ENGINE_SHARD_QUEUE_CAPACITY"@,
        );
    }
}

proof fn instance_retention_alike(m: Inputs, n: Inputs)
    requires
        alike(m, n),
    ensures
        config::instance_retention(m) == config::instance_retention(n),
{
    assert(m.read == n.read) by {
        reveal(alike);
    }
    assert(m.setting("sutra.instance.retention"@, "SUTRA_INSTANCE_RETENTION"@)
        == n.setting("sutra.instance.retention"@, "SUTRA_INSTANCE_RETENTION"@)) by {
        reveal(configured);
        read_alike(m, n, "sutra.instance.retention"@, "SUTRA_INSTANCE_RETENTION"@);
    }
    assert(m.setting(
        "sutra.instance.retention-sweep-interval"@,
        "SUTRA_INSTANCE_RETENTION_SWEEP_INTERVAL"@,
    ) == n.setting(
        "sutra.instance.retention-sweep-interval"@,
        "SUTRA_INSTANCE_RETENTION_SWEEP_INTERVAL"@,
    )) by {
        reveal(configured);
        read_alike(
            m,
            n,
            "sutra.instance.retention-sweep-interval"@,
            "SUTRA_INSTANCE_RETENTION_SWEEP_INTERVAL"@,
        );
    }
}

proof fn payload_cap_alike(m: Inputs, n: Inputs)
    requires
        alike(m, n),
    ensures
        config::payload_cap(m) == config::payload_cap(n),
{
    assert(m.setting("sutra.codec.max-payload-bytes"@, "SUTRA_CODEC_MAX_PAYLOAD_BYTES"@)
        == n.setting("sutra.codec.max-payload-bytes"@, "SUTRA_CODEC_MAX_PAYLOAD_BYTES"@)) by {
        reveal(configured);
        read_alike(m, n, "sutra.codec.max-payload-bytes"@, "SUTRA_CODEC_MAX_PAYLOAD_BYTES"@);
    }
}

proof fn crypto_alike(m: Inputs, n: Inputs)
    requires
        alike(m, n),
    ensures
        config::crypto(m) == config::crypto(n),
{
    assert(m.setting("sutra.crypto.master-key"@, "SUTRA_CRYPTO_MASTER_KEY"@)
        == n.setting("sutra.crypto.master-key"@, "SUTRA_CRYPTO_MASTER_KEY"@)) by {
        reveal(configured);
        read_alike(m, n, "sutra.crypto.master-key"@, "SUTRA_CRYPTO_MASTER_KEY"@);
    }
    assert(m.setting("sutra.crypto.envelope.enabled"@, "SUTRA_CRYPTO_ENVELOPE_ENABLED"@)
        == n.setting("sutra.crypto.envelope.enabled"@, "SUTRA_CRYPTO_ENVELOPE_ENABLED"@)) by {
        reveal(configured);
        read_alike(m, n, "sutra.crypto.envelope.enabled"@, "SUTRA_CRYPTO_ENVELOPE_ENABLED"@);
    }
    assert(m.setting("sutra.crypto.envelope.kek"@, "SUTRA_CRYPTO_ENVELOPE_KEK"@)
        == n.setting("sutra.crypto.envelope.kek"@, "SUTRA_CRYPTO_ENVELOPE_KEK"@)) by {
        reveal(configured);
        read_alike(m, n, "sutra.crypto.envelope.kek"@, "SUTRA_CRYPTO_ENVELOPE_KEK"@);
    }
}

proof fn audit_alike(m: Inputs, n: Inputs)
    requires
        alike(m, n),
    ensures
        config::audit(m) == config::audit(n),
{
    assert(m.setting("sutra.audit.jsonl.path"@, "SUTRA_AUDIT_JSONL"@)
        == n.setting("sutra.audit.jsonl.path"@, "SUTRA_AUDIT_JSONL"@)) by {
        reveal(configured);
        read_alike(m, n, "sutra.audit.jsonl.path"@, "SUTRA_AUDIT_JSONL"@);
    }
    assert(m.setting("sutra.audit.otel.endpoint"@, "SUTRA_AUDIT_OTEL_ENDPOINT"@)
        == n.setting("sutra.audit.otel.endpoint"@, "SUTRA_AUDIT_OTEL_ENDPOINT"@)) by {
        reveal(configured);
        read_alike(m, n, "sutra.audit.otel.endpoint"@, "SUTRA_AUDIT_OTEL_ENDPOINT"@);
    }
    assert(m.setting("sutra.audit.sql"@, "SUTRA_AUDIT_SQL"@)
        == n.setting("sutra.audit.sql"@, "SUTRA_AUDIT_SQL"@)) by {
        reveal(configured);
        read_alike(m, n, "sutra.audit.sql"@, "SUTRA_AUDIT_SQL"@);
    }
}

#[verifier::rlimit(40)]
proof fn admin_auth_alike(m: Inputs, n: Inputs)
    requires
        alike(m, n),
    ensures
        config::admin_auth(m) == config::admin_auth(n),
{
    assert(m.trimmed_setting("sutra.admin.oidc.issuer"@, "SUTRA_ADMIN_OIDC_ISSUER"@)
        == n.trimmed_setting("sutra.admin.oidc.issuer"@, "SUTRA_ADMIN_OIDC_ISSUER"@)) by {
        reveal(configured);
        read_alike(m, n, "sutra.admin.oidc.issuer"@, "SUTRA_ADMIN_OIDC_ISSUER"@);
    }
    assert(m.trimmed_setting("sutra.admin.oidc.audience"@, "SUTRA_ADMIN_OIDC_AUDIENCE"@)
        == n.trimmed_setting("sutra.admin.oidc.audience"@, "SUTRA_ADMIN_OIDC_AUDIENCE"@)) by {
        reveal(configured);
        read_alike(m, n, "sutra.admin.oidc.audience"@, "SUTRA_ADMIN_OIDC_AUDIENCE"@);
    }
    assert(m.nonblank_setting("sutra.admin.oidc.jwks"@, "SUTRA_ADMIN_OIDC_JWKS"@)
        == n.nonblank_setting("sutra.admin.oidc.jwks"@, "SUTRA_ADMIN_OIDC_JWKS"@)) by {
        reveal(configured);
        read_alike(m, n, "sutra.admin.oidc.jwks"@, "SUTRA_ADMIN_OIDC_JWKS"@);
    }
    assert(m.trimmed_setting("sutra.admin.oidc.role-claim"@, "SUTRA_ADMIN_OIDC_ROLE_CLAIM"@)
        == n.trimmed_setting("sutra.admin.oidc.role-claim"@, "SUTRA_ADMIN_OIDC_ROLE_CLAIM"@)) by {
        reveal(configured);
        read_alike(m, n, "sutra.admin.oidc.role-claim"@, "SUTRA_ADMIN_OIDC_ROLE_CLAIM"@);
    }
    assert(m.trimmed_setting(
        "sutra.admin.oidc.required-role"@,
        "SUTRA_ADMIN_OIDC_REQUIRED_ROLE"@,
    ) == n.trimmed_setting(
        "sutra.admin.oidc.required-role"@,
        "SUTRA_ADMIN_OIDC_REQUIRED_ROLE"@,
    )) by {
        reveal(configured);
        read_alike(m, n, "sutra.admin.oidc.required-role"@, "SUTRA_ADMIN_OIDC_REQUIRED_ROLE"@);
    }
    assert(m.flag_setting(
        "sutra.admin.oidc.dev-disabled"@,
        "SUTRA_ADMIN_OIDC_DEV_DISABLED"@,
        false,
    ) == n.flag_setting(
        "sutra.admin.oidc.dev-disabled"@,
        "SUTRA_ADMIN_OIDC_DEV_DISABLED"@,
        false,
    )) by {
        reveal(configured);
        read_alike(m, n, "sutra.admin.oidc.dev-disabled"@, "SUTRA_ADMIN_OIDC_DEV_DISABLED"@);
    }
    assert(m.trimmed_setting("sutra.admin.auth.scheme"@, "SUTRA_ADMIN_AUTH_SCHEME"@)
        == n.trimmed_setting("sutra.admin.auth.scheme"@, "SUTRA_ADMIN_AUTH_SCHEME"@)) by {
        reveal(configured);
        read_alike(m, n, "sutra.admin.auth.scheme"@, "SUTRA_ADMIN_AUTH_SCHEME"@);
    }
    assert(m.nonblank_setting("sutra.admin.auth.key-ref"@, "SUTRA_ADMIN_AUTH_KEY_REF"@)
        == n.nonblank_setting("sutra.admin.auth.key-ref"@, "SUTRA_ADMIN_AUTH_KEY_REF"@)) by {
        reveal(configured);
        read_alike(m, n, "sutra.admin.auth.key-ref"@, "SUTRA_ADMIN_AUTH_KEY_REF"@);
    }
    assert(m.trimmed_setting("sutra.admin.auth.header"@, "SUTRA_ADMIN_AUTH_HEADER"@)
        == n.trimmed_setting("sutra.admin.auth.header"@, "SUTRA_ADMIN_AUTH_HEADER"@)) by {
        reveal(configured);
        read_alike(m, n, "sutra.admin.auth.header"@, "SUTRA_ADMIN_AUTH_HEADER"@);
    }
}

proof fn retry_alike(m: Inputs, n: Inputs)
    requires
        alike(m, n),
    ensures
        config::retry(m, "outbox"@, "OUTBOX"@, config::retry_defaults()) == config::retry(
            n,
            "outbox"@,
            "OUTBOX"@,
            config::retry_defaults(),
        ),
{
    assert(m.read == n.read) by {
        reveal(alike);
    }
    reveal(configured);
    read_alike(
        m,
        n,
        "sutra."@ + "outbox"@ + ".retry.base-delay"@,
        "SUTRA_"@ + "OUTBOX"@ + "_RETRY_BASE_DELAY"@,
    );
    read_alike(
        m,
        n,
        "sutra."@ + "outbox"@ + ".retry.max-delay"@,
        "SUTRA_"@ + "OUTBOX"@ + "_RETRY_MAX_DELAY"@,
    );
    read_alike(
        m,
        n,
        "sutra."@ + "outbox"@ + ".retry.jitter"@,
        "SUTRA_"@ + "OUTBOX"@ + "_RETRY_JITTER"@,
    );
    read_alike(
        m,
        n,
        "sutra."@ + "outbox"@ + ".retry.max-attempts"@,
        "SUTRA_"@ + "OUTBOX"@ + "_RETRY_MAX_ATTEMPTS"@,
    );
}

proof fn alike_configures_alike(m: Inputs, n: Inputs, limits: ExternalTaskLimits)
    requires
        alike(m, n),
    ensures
        match config::engine_config(m, limits) {
            Ok(c) => config::engine_config(n, limits) == Ok::<EngineConfigView, Seq<char>>(
                EngineConfigView { telemetry: otel::telemetry(n), ..c },
            ),
            Err(e) => config::engine_config(n, limits) == Err::<EngineConfigView, Seq<char>>(e),
        },
{
    assert(m.read == n.read) by {
        reveal(alike);
    }
    source_kind_alike(m, n);
    archive_dir_alike(m, n, config::source_kind(m)->Ok_0);
    port_alike(m, n);
    retry_alike(m, n);
    deferred_ack_alike(m, n);
    external_task_alike(m, n, limits);
    instance_sweep_alike(m, n);
    engine_shards_alike(m, n);
    instance_retention_alike(m, n);
    payload_cap_alike(m, n);
    crypto_alike(m, n);
    audit_alike(m, n);
    admin_auth_alike(m, n);
    assert(m.setting("sutra.deployments.poll-interval"@, "SUTRA_DEPLOYMENTS_POLL_INTERVAL"@)
        == n.setting("sutra.deployments.poll-interval"@, "SUTRA_DEPLOYMENTS_POLL_INTERVAL"@)) by {
        reveal(configured);
        read_alike(m, n, "sutra.deployments.poll-interval"@, "SUTRA_DEPLOYMENTS_POLL_INTERVAL"@);
    }
    assert(m.setting("sutra.outbox.tick-interval"@, "SUTRA_OUTBOX_TICK_INTERVAL"@)
        == n.setting("sutra.outbox.tick-interval"@, "SUTRA_OUTBOX_TICK_INTERVAL"@)) by {
        reveal(configured);
        read_alike(m, n, "sutra.outbox.tick-interval"@, "SUTRA_OUTBOX_TICK_INTERVAL"@);
    }
    assert(m.setting(
        "sutra.persistence.rls-bypass-check.enabled"@,
        "SUTRA_PERSISTENCE_RLS_BYPASS_CHECK_ENABLED"@,
    ) == n.setting(
        "sutra.persistence.rls-bypass-check.enabled"@,
        "SUTRA_PERSISTENCE_RLS_BYPASS_CHECK_ENABLED"@,
    )) by {
        reveal(configured);
        read_alike(
            m,
            n,
            "sutra.persistence.rls-bypass-check.enabled"@,
            "SUTRA_PERSISTENCE_RLS_BYPASS_CHECK_ENABLED"@,
        );
    }
    assert(m.setting("sutra.incident.sql"@, "SUTRA_INCIDENT_SQL"@)
        == n.setting("sutra.incident.sql"@, "SUTRA_INCIDENT_SQL"@)) by {
        reveal(configured);
        read_alike(m, n, "sutra.incident.sql"@, "SUTRA_INCIDENT_SQL"@);
    }
    assert(m.setting("sutra.datasource.url"@, "SUTRA_DATASOURCE_URL"@)
        == n.setting("sutra.datasource.url"@, "SUTRA_DATASOURCE_URL"@)) by {
        reveal(configured);
        read_alike(m, n, "sutra.datasource.url"@, "SUTRA_DATASOURCE_URL"@);
    }
    assert(m.setting("sutra.datasource.username"@, "SUTRA_DATASOURCE_USERNAME"@)
        == n.setting("sutra.datasource.username"@, "SUTRA_DATASOURCE_USERNAME"@)) by {
        reveal(configured);
        read_alike(m, n, "sutra.datasource.username"@, "SUTRA_DATASOURCE_USERNAME"@);
    }
    assert(m.setting("sutra.datasource.password"@, "SUTRA_DATASOURCE_PASSWORD"@)
        == n.setting("sutra.datasource.password"@, "SUTRA_DATASOURCE_PASSWORD"@)) by {
        reveal(configured);
        read_alike(m, n, "sutra.datasource.password"@, "SUTRA_DATASOURCE_PASSWORD"@);
    }
}

proof fn alike_observes_alike(m: Inputs, n: Inputs)
    requires
        observed_alike(m, n),
    ensures
        otel::telemetry(m) == otel::telemetry(n),
{
    assert(otel::endpoint_value(m) == otel::endpoint_value(n));
    assert(otel::service_value(m) == otel::service_value(n));
    assert(otel::temporality_value(m) == otel::temporality_value(n));
    assert(otel::interval_value(m) == otel::interval_value(n));
    assert(otel::labels_value(m) == otel::labels_value(n));
    assert(otel::enabled_value(m) == otel::enabled_value(n));
    assert(otel::telemetry_warnings(m) == otel::telemetry_warnings(n));
}

/// Whether two files say the same of every key but one.
pub open spec fn same_but(
    file: Seq<(Seq<char>, Seq<char>)>,
    other: Seq<(Seq<char>, Seq<char>)>,
    key: Seq<char>,
) -> bool {
    forall|k: Seq<char>|
        k != key ==> #[trigger] keyed::lookup(file, k) == keyed::lookup(other, k)
}

/// A value that the environment sets under a key's canonical name hides what the file says of the
/// key: the whole configuration is the same whether the file has the key or not, and whatever it
/// says.
pub proof fn the_environment_hides_the_file(
    m: Inputs,
    other: Seq<(Seq<char>, Seq<char>)>,
    key: Seq<char>,
    limits: ExternalTaskLimits,
)
    requires
        (m.env)(canonical_name(key)) is Some,
        same_but(m.file, other, key),
    ensures
        config::engine_config(Inputs { file: other, ..m }, limits) == config::engine_config(
            m,
            limits,
        ),
{
    let n = Inputs { file: other, ..m };
    assert forall|k: Seq<char>, e: Seq<char>| configured(k, e) implies #[trigger] m.raw(k, e)
        == n.raw(k, e) by {
        configured_names(k, e);
        assert(keyed::lookup(m.file, k) == keyed::lookup(other, k) || k == key);
    }
    assert forall|k: Seq<char>, e: Seq<char>, s: Option<Seq<char>>| observed(k, e, s) implies (
    #[trigger] m.telemetry_raw(k, e, s)) == n.telemetry_raw(k, e, s) by {
        observed_names(k, e, s);
        assert(keyed::lookup(m.file, k) == keyed::lookup(other, k) || k == key);
    }
    assert(alike(m, n)) by {
        reveal(alike);
    }
    alike_configures_alike(m, n, limits);
    alike_observes_alike(m, n);
}

/// Whether a key is of the telemetry block.
pub open spec fn telemetry_key(key: Seq<char>) -> bool {
    "sutra.telemetry."@.is_prefix_of(key)
}

/// Whether an environment name is of the telemetry block, or a standard one.
pub open spec fn telemetry_name(name: Seq<char>) -> bool {
    "SUTRA_TELEMETRY_"@.is_prefix_of(name) || "OTEL_"@.is_prefix_of(name)
}

proof fn configured_is_no_telemetry(key: Seq<char>, name: Seq<char>)
    requires
        configured(key, name),
    ensures
        !telemetry_key(key),
        !telemetry_name(name),
{
    reveal(configured);
    reveal_strlit("sutra.telemetry.");
    reveal_strlit("SUTRA_TELEMETRY_");
    reveal_strlit("OTEL_");
    reveal_strlit("sutra.");
    reveal_strlit("outbox");
    reveal_strlit("SUTRA_");
    reveal_strlit("OUTBOX");
    reveal_strlit("sutra.deployment.source");
    reveal_strlit("SUTRA_DEPLOYMENT_SOURCE");
    reveal_strlit("sutra.deployments.dir");
    reveal_strlit("SUTRA_DEPLOYMENTS_DIR");
    reveal_strlit("sutra.http.port");
    reveal_strlit("SUTRA_HTTP_PORT");
    reveal_strlit("sutra.ack.deferred.capacity");
    reveal_strlit("SUTRA_ACK_DEFERRED_CAPACITY");
    reveal_strlit("sutra.ack.deferred.timeout");
    reveal_strlit("SUTRA_ACK_DEFERRED_TIMEOUT");
    reveal_strlit("sutra.ack.deferred.sweep-interval");
    reveal_strlit("SUTRA_ACK_DEFERRED_SWEEP_INTERVAL");
    reveal_strlit("sutra.external-task.default-lock-duration");
    reveal_strlit("SUTRA_EXTERNAL_TASK_DEFAULT_LOCK_DURATION");
    reveal_strlit("sutra.external-task.max-lock-duration");
    reveal_strlit("SUTRA_EXTERNAL_TASK_MAX_LOCK_DURATION");
    reveal_strlit("sutra.external-task.max-async-response-timeout");
    reveal_strlit("SUTRA_EXTERNAL_TASK_MAX_ASYNC_RESPONSE_TIMEOUT");
    reveal_strlit("sutra.external-task.max-tasks");
    reveal_strlit("SUTRA_EXTERNAL_TASK_MAX_TASKS");
    reveal_strlit("sutra.external-task.retries");
    reveal_strlit("SUTRA_EXTERNAL_TASK_RETRIES");
    reveal_strlit("sutra.external-task.retry-timeout");
    reveal_strlit("SUTRA_EXTERNAL_TASK_RETRY_TIMEOUT");
    reveal_strlit("sutra.instance.sweep-interval");
    reveal_strlit("SUTRA_INSTANCE_SWEEP_INTERVAL");
    reveal_strlit("sutra.instance.claim-timeout");
    reveal_strlit("SUTRA_INSTANCE_CLAIM_TIMEOUT");
    reveal_strlit("sutra.engine.shards");
    reveal_strlit("SUTRA_ENGINE_SHARDS");
    reveal_strlit("sutra.engine.shard-queue-capacity");
    reveal_strlit("SUTRA_ENGINE_SHARD_QUEUE_CAPACITY");
    reveal_strlit("sutra.instance.retention");
    reveal_strlit("SUTRA_INSTANCE_RETENTION");
    reveal_strlit("sutra.instance.retention-sweep-interval");
    reveal_strlit("SUTRA_INSTANCE_RETENTION_SWEEP_INTERVAL");
    reveal_strlit("sutra.codec.max-payload-bytes");
    reveal_strlit("SUTRA_CODEC_MAX_PAYLOAD_BYTES");
    reveal_strlit("sutra.crypto.master-key");
    reveal_strlit("SUTRA_CRYPTO_MASTER_KEY");
    reveal_strlit("sutra.crypto.envelope.enabled");
    reveal_strlit("SUTRA_CRYPTO_ENVELOPE_ENABLED");
    reveal_strlit("sutra.crypto.envelope.kek");
    reveal_strlit("SUTRA_CRYPTO_ENVELOPE_KEK");
    reveal_strlit("sutra.audit.jsonl.path");
    reveal_strlit("SUTRA_AUDIT_JSONL");
    reveal_strlit("sutra.audit.otel.endpoint");
    reveal_strlit("SUTRA_AUDIT_OTEL_ENDPOINT");
    reveal_strlit("sutra.audit.sql");
    reveal_strlit("SUTRA_AUDIT_SQL");
    reveal_strlit("sutra.admin.oidc.issuer");
    reveal_strlit("SUTRA_ADMIN_OIDC_ISSUER");
    reveal_strlit("sutra.admin.oidc.audience");
    reveal_strlit("SUTRA_ADMIN_OIDC_AUDIENCE");
    reveal_strlit("sutra.admin.oidc.jwks");
    reveal_strlit("SUTRA_ADMIN_OIDC_JWKS");
    reveal_strlit("sutra.admin.oidc.role-claim");
    reveal_strlit("SUTRA_ADMIN_OIDC_ROLE_CLAIM");
    reveal_strlit("sutra.admin.oidc.required-role");
    reveal_strlit("SUTRA_ADMIN_OIDC_REQUIRED_ROLE");
    reveal_strlit("sutra.admin.oidc.dev-disabled");
    reveal_strlit("SUTRA_ADMIN_OIDC_DEV_DISABLED");
    reveal_strlit("sutra.admin.auth.scheme");
    reveal_strlit("SUTRA_ADMIN_AUTH_SCHEME");
    reveal_strlit("sutra.admin.auth.key-ref");
    reveal_strlit("SUTRA_ADMIN_AUTH_KEY_REF");
    reveal_strlit("sutra.admin.auth.header");
    reveal_strlit("SUTRA_ADMIN_AUTH_HEADER");
    reveal_strlit("sutra.deployments.poll-interval");
    reveal_strlit("SUTRA_DEPLOYMENTS_POLL_INTERVAL");
    reveal_strlit("sutra.outbox.tick-interval");
    reveal_strlit("SUTRA_OUTBOX_TICK_INTERVAL");
    reveal_strlit("sutra.persistence.rls-bypass-check.enabled");
    reveal_strlit("SUTRA_PERSISTENCE_RLS_BYPASS_CHECK_ENABLED");
    reveal_strlit("sutra.incident.sql");
    reveal_strlit("SUTRA_INCIDENT_SQL");
    reveal_strlit("sutra.datasource.url");
    reveal_strlit("SUTRA_DATASOURCE_URL");
    reveal_strlit("sutra.datasource.username");
    reveal_strlit("SUTRA_DATASOURCE_USERNAME");
    reveal_strlit("sutra.datasource.password");
    reveal_strlit("SUTRA_DATASOURCE_PASSWORD");
    assert(key[6] != 't');
    assert(name[6] != 'T' && name[0] != 'O');
    assert("sutra.telemetry."@[6] == 't');
    assert("SUTRA_TELEMETRY_"@[6] == 'T' && "OTEL_"@[0] == 'O');
}

/// Telemetry never decides whether an engine boots: inputs that differ only in telemetry keys and
/// names give the same configuration but for its telemetry block, or the same refusal.
pub proof fn telemetry_never_refuses_a_boot(m: Inputs, n: Inputs, limits: ExternalTaskLimits)
    requires
        m.resolve == n.resolve,
        m.read == n.read,
        forall|k: Seq<char>|
            !telemetry_key(k) ==> #[trigger] keyed::lookup(m.file, k) == keyed::lookup(n.file, k),
        forall|e: Seq<char>| !telemetry_name(e) ==> #[trigger] (m.env)(e) == (n.env)(e),
    ensures
        match config::engine_config(m, limits) {
            Ok(c) => config::engine_config(n, limits) == Ok::<EngineConfigView, Seq<char>>(
                EngineConfigView { telemetry: otel::telemetry(n), ..c },
            ),
            Err(e) => config::engine_config(n, limits) == Err::<EngineConfigView, Seq<char>>(e),
        },
{
    assert forall|k: Seq<char>, e: Seq<char>| configured(k, e) implies #[trigger] m.raw(k, e)
        == n.raw(k, e) by {
        configured_is_no_telemetry(k, e);
        assert((m.env)(e) == (n.env)(e));
        assert(keyed::lookup(m.file, k) == keyed::lookup(n.file, k));
    }
    assert(alike(m, n)) by {
        reveal(alike);
    }
    alike_configures_alike(m, n, limits);
}

} // verus!
