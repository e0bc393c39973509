//! Which setting each part of the configuration comes from.

use vstd::prelude::*;

use crate::config;
use crate::config::{
    AdminAuthView, DeploymentSourceKind, EngineConfigView, ExternalTaskLimits, RetryConfig,
};
use crate::duration::Duration;
use crate::sources::Inputs;
use crate::text;

verus! {

/// The source of deployments is a directory unless the setting says otherwise, by one of two words
/// in either case of letters.
pub proof fn the_source_is_a_directory_by_default(m: Inputs)
    ensures
        match m.setting("sutra.deployment.source"@, "SUTRA_DEPLOYMENT_SOURCE"@) {
            Ok(None) => config::source_kind(m) == Ok::<DeploymentSourceKind, Seq<char>>(
                DeploymentSourceKind::Dir,
            ),
            Ok(Some(raw)) => match config::source_kind(m) {
                Ok(DeploymentSourceKind::Dir) => text::lowered(text::trimmed(raw)) == "dir"@,
                Ok(DeploymentSourceKind::Db) => text::lowered(text::trimmed(raw)) == "db"@,
                Err(_) => text::lowered(text::trimmed(raw)) != "dir"@ && text::lowered(
                    text::trimmed(raw),
                ) != "db"@,
            },
            Err(e) => config::source_kind(m) == Err::<DeploymentSourceKind, Seq<char>>(e),
        },
{
    reveal_strlit("dir");
    reveal_strlit("db");
    assert("dir"@.len() == 3 && "db"@.len() == 2);
}

/// A directory must be named where deployments come from one, and need not be where they do not.
pub proof fn a_directory_source_needs_its_directory(m: Inputs)
    ensures
        ({
            let named = m.setting("sutra.deployments.dir"@, "SUTRA_DEPLOYMENTS_DIR"@);
            &&& named matches Ok(Some(d)) ==> config::archive_dir(m, DeploymentSourceKind::Dir)
                == Ok::<Option<Seq<char>>, Seq<char>>(Some(d)) && config::archive_dir(
                m,
                DeploymentSourceKind::Db,
            ) == Ok::<Option<Seq<char>>, Seq<char>>(Some(d))
            &&& named == Ok::<Option<Seq<char>>, Seq<char>>(None) ==> config::archive_dir(
                m,
                DeploymentSourceKind::Dir,
            ) is Err && config::archive_dir(m, DeploymentSourceKind::Db) == Ok::<
                Option<Seq<char>>,
                Seq<char>,
            >(None)
            &&& named is Err ==> config::archive_dir(m, DeploymentSourceKind::Dir) is Err
                && config::archive_dir(m, DeploymentSourceKind::Db) is Err
        }),
{
}

/// The retries of a service come from the settings of that service, each with the default given; the
/// first pause is positive and the last no shorter, else they are refused.
pub proof fn retries_come_from_their_service(
    m: Inputs,
    service: Seq<char>,
    env_service: Seq<char>,
    default: RetryConfig,
)
    ensures
        ({
            let base = m.duration_setting(
                "sutra."@ + service + ".retry.base-delay"@,
                "SUTRA_"@ + env_service + "_RETRY_BASE_DELAY"@,
                default.base_delay,
            );
            let max = m.duration_setting(
                "sutra."@ + service + ".retry.max-delay"@,
                "SUTRA_"@ + env_service + "_RETRY_MAX_DELAY"@,
                default.max_delay,
            );
            let jitter = m.flag_setting(
                "sutra."@ + service + ".retry.jitter"@,
                "SUTRA_"@ + env_service + "_RETRY_JITTER"@,
                default.jitter,
            );
            let attempts = m.signed_setting(
                "sutra."@ + service + ".retry.max-attempts"@,
                "SUTRA_"@ + env_service + "_RETRY_MAX_ATTEMPTS"@,
                1,
                "must be an integer >= 1 (omit the key entirely for the default: retry forever)"@,
            );
            match config::retry(m, service, env_service, default) {
                Ok(r) => {
                    &&& base == Ok::<Duration, Seq<char>>(r.base_delay)
                    &&& max == Ok::<Duration, Seq<char>>(r.max_delay)
                    &&& jitter == Ok::<bool, Seq<char>>(r.jitter)
                    &&& attempts is Ok
                    &&& attempts->Ok_0 matches Some(n) ==> r.max_attempts is Some && (n <= i32::MAX
                        ==> r.max_attempts->0 == n)
                    &&& attempts->Ok_0 is None ==> r.max_attempts == default.max_attempts
                    &&& r.base_delay.total() > 0
                    &&& r.max_delay.total() >= r.base_delay.total()
                },
                Err(_) => base is Err || max is Err || jitter is Err || attempts is Err
                    || base->Ok_0.total() == 0 || max->Ok_0.total() < base->Ok_0.total(),
            }
        }),
{
    let attempts = m.signed_setting(
        "sutra."@ + service + ".retry.max-attempts"@,
        "SUTRA_"@ + env_service + "_RETRY_MAX_ATTEMPTS"@,
        1,
        "must be an integer >= 1 (omit the key entirely for the default: retry forever)"@,
    );
    if attempts is Ok && attempts->Ok_0 is Some {
        assert(attempts->Ok_0->0 >= 1);
    }
}

/// An accepted configuration has its deployments, its port, its data source and its intervals each
/// from the setting of that name, or the default of that setting.
pub proof fn basics_come_from_their_settings(
    m: Inputs,
    limits: ExternalTaskLimits,
    c: EngineConfigView,
)
    requires
        config::engine_config(m, limits) == Ok::<EngineConfigView, Seq<char>>(c),
    ensures
        config::source_kind(m) == Ok::<DeploymentSourceKind, Seq<char>>(c.deployment_source),
        m.setting("sutra.deployments.dir"@, "SUTRA_DEPLOYMENTS_DIR"@) == Ok::<
            Option<Seq<char>>,
            Seq<char>,
        >(c.deployments_dir),
        m.duration_setting(
            "sutra.deployments.poll-interval"@,
            "SUTRA_DEPLOYMENTS_POLL_INTERVAL"@,
            Duration::of_secs(2),
        ) == Ok::<Duration, Seq<char>>(c.deployments_poll_interval),
        match m.number_setting(
            "sutra.http.port"@,
            "SUTRA_HTTP_PORT"@,
            0,
            65_535,
            "is not a valid port"@,
        ) {
            Ok(Some(n)) => n <= 65_535 ==> c.http_port == n,
            Ok(None) => c.http_port == 8080,
            Err(_) => false,
        },
        m.setting("sutra.datasource.url"@, "SUTRA_DATASOURCE_URL"@) == Ok::<
            Option<Seq<char>>,
            Seq<char>,
        >(c.datasource_url),
        m.setting("sutra.datasource.username"@, "SUTRA_DATASOURCE_USERNAME"@) == Ok::<
            Option<Seq<char>>,
            Seq<char>,
        >(c.datasource_username),
        m.setting("sutra.datasource.password"@, "SUTRA_DATASOURCE_PASSWORD"@) == Ok::<
            Option<Seq<char>>,
            Seq<char>,
        >(c.datasource_password),
        m.duration_setting(
            "sutra.outbox.tick-interval"@,
            "SUTRA_OUTBOX_TICK_INTERVAL"@,
            Duration::of_secs(5),
        ) == Ok::<Duration, Seq<char>>(c.outbox_tick_interval),
        m.flag_setting("sutra.incident.sql"@, "SUTRA_INCIDENT_SQL"@, false) == Ok::<
            bool,
            Seq<char>,
        >(c.incident_sql),
        m.flag_setting(
            "sutra.persistence.rls-bypass-check.enabled"@,
            "SUTRA_PERSISTENCE_RLS_BYPASS_CHECK_ENABLED"@,
            true,
        ) == Ok::<bool, Seq<char>>(c.rls_bypass_check_enabled),
        c.telemetry == crate::otel::telemetry(m),
        c.now_override is None,
{
}

/// The retries of the outbox come from the settings of the outbox, from one second to five minutes
/// by default, with jitter and for ever.
pub proof fn outbox_retries_have_their_defaults(
    m: Inputs,
    limits: ExternalTaskLimits,
    c: EngineConfigView,
)
    requires
        config::engine_config(m, limits) == Ok::<EngineConfigView, Seq<char>>(c),
    ensures
        config::retry(
            m,
            "outbox"@,
            "OUTBOX"@,
            (RetryConfig {
                base_delay: Duration::of_secs(1),
                max_delay: Duration::of_secs(300),
                jitter: true,
                max_attempts: None,
            }),
        ) == Ok::<RetryConfig, Seq<char>>(c.outbox_retry),
{
}

/// Deferred acknowledgements have their capacity, their timeout and a positive interval each from
/// its setting.
pub proof fn deferred_acks_come_from_their_settings(
    m: Inputs,
    limits: ExternalTaskLimits,
    c: EngineConfigView,
)
    requires
        config::engine_config(m, limits) == Ok::<EngineConfigView, Seq<char>>(c),
    ensures
        match m.number_setting(
            "sutra.ack.deferred.capacity"@,
            "SUTRA_ACK_DEFERRED_CAPACITY"@,
            1,
            usize::MAX as nat,
            "is not a positive entry count"@,
        ) {
            Ok(Some(n)) => n <= usize::MAX ==> c.deferred_ack.capacity == n,
            Ok(None) => c.deferred_ack.capacity == 10_000,
            Err(_) => false,
        },
        m.duration_setting(
            "sutra.ack.deferred.timeout"@,
            "SUTRA_ACK_DEFERRED_TIMEOUT"@,
            Duration::of_secs(3600),
        ) == Ok::<Duration, Seq<char>>(c.deferred_ack.timeout),
        m.duration_setting(
            "sutra.ack.deferred.sweep-interval"@,
            "SUTRA_ACK_DEFERRED_SWEEP_INTERVAL"@,
            Duration::of_secs(60),
        ) == Ok::<Duration, Seq<char>>(c.deferred_ack.sweep_interval),
        c.deferred_ack.sweep_interval.total() > 0,
{
}

/// The limits of external tasks come each from its setting, or from the limits given; a lock is
/// positive and no longer than the longest.
pub proof fn task_limits_come_from_their_settings(
    m: Inputs,
    limits: ExternalTaskLimits,
    c: EngineConfigView,
)
    requires
        config::engine_config(m, limits) == Ok::<EngineConfigView, Seq<char>>(c),
    ensures
        m.duration_setting(
            "sutra.external-task.default-lock-duration"@,
            "SUTRA_EXTERNAL_TASK_DEFAULT_LOCK_DURATION"@,
            limits.default_lock_duration,
        ) == Ok::<Duration, Seq<char>>(c.external_task.default_lock_duration),
        m.duration_setting(
            "sutra.external-task.max-lock-duration"@,
            "SUTRA_EXTERNAL_TASK_MAX_LOCK_DURATION"@,
            limits.max_lock_duration,
        ) == Ok::<Duration, Seq<char>>(c.external_task.max_lock_duration),
        m.duration_setting(
            "sutra.external-task.max-async-response-timeout"@,
            "SUTRA_EXTERNAL_TASK_MAX_ASYNC_RESPONSE_TIMEOUT"@,
            limits.max_async_response_timeout,
        ) == Ok::<Duration, Seq<char>>(c.external_task.max_async_response_timeout),
        m.duration_setting(
            "sutra.external-task.retry-timeout"@,
            "SUTRA_EXTERNAL_TASK_RETRY_TIMEOUT"@,
            limits.retry_timeout,
        ) == Ok::<Duration, Seq<char>>(c.external_task.retry_timeout),
        match m.number_setting(
            "sutra.external-task.max-tasks"@,
            "SUTRA_EXTERNAL_TASK_MAX_TASKS"@,
            1,
            u32::MAX as nat,
            "is not a positive task count"@,
        ) {
            Ok(Some(n)) => n <= u32::MAX ==> c.external_task.max_tasks == n,
            Ok(None) => c.external_task.max_tasks == limits.max_tasks,
            Err(_) => false,
        },
        match m.signed_setting(
            "sutra.external-task.retries"@,
            "SUTRA_EXTERNAL_TASK_RETRIES"@,
            0,
            "is not a non-negative retry budget"@,
        ) {
            Ok(Some(n)) => i32::MIN <= n <= i32::MAX ==> c.external_task.retries == n,
            Ok(None) => c.external_task.retries == limits.retries,
            Err(_) => false,
        },
        0 < c.external_task.default_lock_duration.total()
            <= c.external_task.max_lock_duration.total(),
{
}

/// Sweeps, lanes, retention and the payload cap come each from its setting; a claim outlasts a sweep.
pub proof fn sweeps_and_lanes_come_from_their_settings(
    m: Inputs,
    limits: ExternalTaskLimits,
    c: EngineConfigView,
)
    requires
        config::engine_config(m, limits) == Ok::<EngineConfigView, Seq<char>>(c),
    ensures
        m.duration_setting(
            "sutra.instance.sweep-interval"@,
            "SUTRA_INSTANCE_SWEEP_INTERVAL"@,
            Duration::of_secs(60),
        ) == Ok::<Duration, Seq<char>>(c.instance_sweep.interval),
        m.duration_setting(
            "sutra.instance.claim-timeout"@,
            "SUTRA_INSTANCE_CLAIM_TIMEOUT"@,
            Duration::of_secs(300),
        ) == Ok::<Duration, Seq<char>>(c.instance_sweep.claim_timeout),
        0 < c.instance_sweep.interval.total() < c.instance_sweep.claim_timeout.total(),
        match m.number_setting(
            "sutra.engine.shards"@,
            "SUTRA_ENGINE_SHARDS"@,
            1,
            u32::MAX as nat,
            "is not an integer >= 1 (1 = the single-lane default)"@,
        ) {
            Ok(Some(n)) => n <= u32::MAX ==> c.engine_shards.shards == n,
            Ok(None) => c.engine_shards.shards == 1,
            Err(_) => false,
        },
        match m.number_setting(
            "sutra.engine.shard-queue-capacity"@,
            "SUTRA_ENGINE_SHARD_QUEUE_CAPACITY"@,
            1,
            usize::MAX as nat,
            "is not an integer >= 1 (leave the key unset for an unbounded queue)"@,
        ) {
            Ok(Some(n)) => c.engine_shards.queue_capacity matches Some(q) && (n <= usize::MAX ==> q
                == n),
            Ok(None) => c.engine_shards.queue_capacity is None,
            Err(_) => false,
        },
        m.duration_setting(
            "sutra.instance.retention"@,
            "SUTRA_INSTANCE_RETENTION"@,
            Duration::of_secs(604_800),
        ) == Ok::<Duration, Seq<char>>(c.instance_retention.retention),
        m.duration_setting(
            "sutra.instance.retention-sweep-interval"@,
            "SUTRA_INSTANCE_RETENTION_SWEEP_INTERVAL"@,
            Duration::of_secs(3600),
        ) == Ok::<Duration, Seq<char>>(c.instance_retention.interval),
        c.instance_retention.interval.total() > 0,
        match m.number_setting(
            "sutra.codec.max-payload-bytes"@,
            "SUTRA_CODEC_MAX_PAYLOAD_BYTES"@,
            0,
            u64::MAX as nat,
            "is not a non-negative byte count (use 0 to disable the global cap)"@,
        ) {
            Ok(Some(n)) => n <= u64::MAX ==> c.payload_cap_bytes == n,
            Ok(None) => c.payload_cap_bytes == 10_485_760,
            Err(_) => false,
        },
{
}

/// Keys, audit sinks and the admin surface come each from its settings; envelope encryption names
/// its key and goes without a master key.
pub proof fn keys_and_guards_come_from_their_settings(
    m: Inputs,
    limits: ExternalTaskLimits,
    c: EngineConfigView,
)
    requires
        config::engine_config(m, limits) == Ok::<EngineConfigView, Seq<char>>(c),
    ensures
        m.setting("sutra.crypto.master-key"@, "SUTRA_CRYPTO_MASTER_KEY"@) == Ok::<
            Option<Seq<char>>,
            Seq<char>,
        >(c.crypto_master_key),
        m.flag_setting(
            "sutra.crypto.envelope.enabled"@,
            "SUTRA_CRYPTO_ENVELOPE_ENABLED"@,
            false,
        ) == Ok::<bool, Seq<char>>(c.crypto_envelope.enabled),
        m.nonblank_setting("sutra.crypto.envelope.kek"@, "SUTRA_CRYPTO_ENVELOPE_KEK"@) == Ok::<
            Option<Seq<char>>,
            Seq<char>,
        >(c.crypto_envelope.kek_ref),
        c.crypto_envelope.enabled ==> c.crypto_envelope.kek_ref is Some
            && c.crypto_master_key is None,
        m.setting("sutra.audit.jsonl.path"@, "SUTRA_AUDIT_JSONL"@) == Ok::<
            Option<Seq<char>>,
            Seq<char>,
        >(c.audit.jsonl_path),
        m.trimmed_setting("sutra.audit.otel.endpoint"@, "SUTRA_AUDIT_OTEL_ENDPOINT"@) == Ok::<
            Option<Seq<char>>,
            Seq<char>,
        >(c.audit.otel_endpoint),
        m.flag_setting("sutra.audit.sql"@, "SUTRA_AUDIT_SQL"@, false) == Ok::<bool, Seq<char>>(
            c.audit.sql,
        ),
        config::admin_auth(m) == Ok::<AdminAuthView, Seq<char>>(c.admin_auth),
        m.trimmed_setting("sutra.admin.oidc.issuer"@, "SUTRA_ADMIN_OIDC_ISSUER"@) == Ok::<
            Option<Seq<char>>,
            Seq<char>,
        >(c.admin_auth.issuer),
        m.trimmed_setting("sutra.admin.oidc.audience"@, "SUTRA_ADMIN_OIDC_AUDIENCE"@) == Ok::<
            Option<Seq<char>>,
            Seq<char>,
        >(c.admin_auth.audience),
        m.nonblank_setting("sutra.admin.oidc.jwks"@, "SUTRA_ADMIN_OIDC_JWKS"@) == Ok::<
            Option<Seq<char>>,
            Seq<char>,
        >(c.admin_auth.jwks),
        match m.trimmed_setting("sutra.admin.oidc.role-claim"@, "SUTRA_ADMIN_OIDC_ROLE_CLAIM"@) {
            Ok(Some(r)) => c.admin_auth.role_claim == r,
            Ok(None) => c.admin_auth.role_claim == "roles"@,
            Err(_) => false,
        },
        match m.trimmed_setting(
            "sutra.admin.oidc.required-role"@,
            "SUTRA_ADMIN_OIDC_REQUIRED_ROLE"@,
        ) {
            Ok(Some(r)) => c.admin_auth.required_role == r,
            Ok(None) => c.admin_auth.required_role == "sutra-admin"@,
            Err(_) => false,
        },
        m.flag_setting(
            "sutra.admin.oidc.dev-disabled"@,
            "SUTRA_ADMIN_OIDC_DEV_DISABLED"@,
            false,
        ) == Ok::<bool, Seq<char>>(c.admin_auth.dev_disabled),
        m.trimmed_setting("sutra.admin.auth.scheme"@, "SUTRA_ADMIN_AUTH_SCHEME"@) == Ok::<
            Option<Seq<char>>,
            Seq<char>,
        >(c.admin_auth.auth_scheme),
        m.nonblank_setting("sutra.admin.auth.key-ref"@, "SUTRA_ADMIN_AUTH_KEY_REF"@) == Ok::<
            Option<Seq<char>>,
            Seq<char>,
        >(c.admin_auth.auth_key_ref),
        m.trimmed_setting("sutra.admin.auth.header"@, "SUTRA_ADMIN_AUTH_HEADER"@) == Ok::<
            Option<Seq<char>>,
            Seq<char>,
        >(c.admin_auth.auth_header),
{
}

/// A part of the configuration is refused exactly where one of its settings is, or where its
/// settings do not go together.
pub proof fn a_part_is_refused_for_its_own_settings(m: Inputs)
    ensures
        config::deferred_ack(m) is Ok <==> {
            &&& m.number_setting(
                "sutra.ack.deferred.capacity"@,
                "SUTRA_ACK_DEFERRED_CAPACITY"@,
                1,
                usize::MAX as nat,
                "is not a positive entry count"@,
            ) is Ok
            &&& m.duration_setting(
                "sutra.ack.deferred.timeout"@,
                "SUTRA_ACK_DEFERRED_TIMEOUT"@,
                Duration::of_secs(3600),
            ) is Ok
            &&& m.duration_setting(
                "sutra.ack.deferred.sweep-interval"@,
                "SUTRA_ACK_DEFERRED_SWEEP_INTERVAL"@,
                Duration::of_secs(60),
            ) matches Ok(d) && d.total() > 0
        },
        config::instance_sweep(m) is Ok <==> {
            let interval = m.duration_setting(
                "sutra.instance.sweep-interval"@,
                "SUTRA_INSTANCE_SWEEP_INTERVAL"@,
                Duration::of_secs(60),
            );
            let claim = m.duration_setting(
                "sutra.instance.claim-timeout"@,
                "SUTRA_INSTANCE_CLAIM_TIMEOUT"@,
                Duration::of_secs(300),
            );
            interval is Ok && claim is Ok && 0 < interval->Ok_0.total() < claim->Ok_0.total()
        },
        config::instance_retention(m) is Ok <==> {
            &&& m.duration_setting(
                "sutra.instance.retention"@,
                "SUTRA_INSTANCE_RETENTION"@,
                Duration::of_secs(604_800),
            ) is Ok
            &&& m.duration_setting(
                "sutra.instance.retention-sweep-interval"@,
                "SUTRA_INSTANCE_RETENTION_SWEEP_INTERVAL"@,
                Duration::of_secs(3600),
            ) matches Ok(d) && d.total() > 0
        },
        config::crypto(m) is Ok <==> {
            let master = m.setting("sutra.crypto.master-key"@, "SUTRA_CRYPTO_MASTER_KEY"@);
            let enabled = m.flag_setting(
                "sutra.crypto.envelope.enabled"@,
                "SUTRA_CRYPTO_ENVELOPE_ENABLED"@,
                false,
            );
            let kek = m.nonblank_setting(
                "sutra.crypto.envelope.kek"@,
                "SUTRA_CRYPTO_ENVELOPE_KEK"@,
            );
            master is Ok && enabled is Ok && kek is Ok && (enabled->Ok_0 ==> master->Ok_0 is None
                && kek->Ok_0 is Some)
        },
{
}

/// A boot is refused exactly where one part of the configuration is.
pub proof fn a_boot_is_refused_for_a_part(m: Inputs, limits: ExternalTaskLimits)
    ensures
        config::engine_config(m, limits) is Ok <==> {
            &&& config::source_kind(m) is Ok
            &&& config::archive_dir(m, config::source_kind(m)->Ok_0) is Ok
            &&& m.duration_setting(
                "sutra.deployments.poll-interval"@,
                "SUTRA_DEPLOYMENTS_POLL_INTERVAL"@,
                Duration::of_secs(2),
            ) is Ok
            &&& config::port(m) is Ok
            &&& m.duration_setting(
                "sutra.outbox.tick-interval"@,
                "SUTRA_OUTBOX_TICK_INTERVAL"@,
                Duration::of_secs(5),
            ) is Ok
            &&& config::retry(m, "outbox"@, "OUTBOX"@, config::retry_defaults()) is Ok
            &&& config::deferred_ack(m) is Ok
            &&& config::external_task(m, limits) is Ok
            &&& config::instance_sweep(m) is Ok
            &&& config::engine_shards(m) is Ok
            &&& config::instance_retention(m) is Ok
            &&& config::payload_cap(m) is Ok
            &&& m.flag_setting(
                "sutra.persistence.rls-bypass-check.enabled"@,
                "SUTRA_PERSISTENCE_RLS_BYPASS_CHECK_ENABLED"@,
                true,
            ) is Ok
            &&& config::crypto(m) is Ok
            &&& m.flag_setting("sutra.incident.sql"@, "SUTRA_INCIDENT_SQL"@, false) is Ok
            &&& m.setting("sutra.datasource.url"@, "SUTRA_DATASOURCE_URL"@) is Ok
            &&& m.setting("sutra.datasource.username"@, "SUTRA_DATASOURCE_USERNAME"@) is Ok
            &&& m.setting("sutra.datasource.password"@, "SUTRA_DATASOURCE_PASSWORD"@) is Ok
            &&& config::audit(m) is Ok
            &&& config::admin_auth(m) is Ok
        },
{
}

/// A part of the configuration of which nothing is set is the part's default.
pub proof fn an_unset_part_has_its_defaults(m: Inputs, limits: ExternalTaskLimits)
    requires
        forall|k: Seq<char>, e: Seq<char>| #[trigger] m.raw(k, e) is None,
        0 < limits.default_lock_duration.total() <= limits.max_lock_duration.total(),
    ensures
        config::engine_shards(m) matches Ok(c) && c == config::shard_defaults() && c.shards == 1
            && c.queue_capacity is None,
        config::external_task(m, limits) matches Ok(c) && c == limits,
        config::port(m) == Ok::<u16, Seq<char>>(8080),
        config::payload_cap(m) == Ok::<u64, Seq<char>>(10_485_760),
        config::audit(m) matches Ok(c) && c.jsonl_path is None && c.otel_endpoint is None && !c.sql,
        config::admin_auth(m) matches Ok(c) && c == config::admin_defaults() && !c.dev_disabled
            && c.issuer is None && c.audience is None && c.jwks is None && c.auth_scheme is None
            && c.auth_key_ref is None && c.auth_header is None && c.role_claim == "roles"@
            && c.required_role == "sutra-admin"@,
        config::crypto(m) matches Ok(c) && c.0 is None && !c.1.enabled && c.1.kek_ref is None,
        config::source_kind(m) == Ok::<DeploymentSourceKind, Seq<char>>(DeploymentSourceKind::Dir),
{
}

/// Retries, acknowledgements, sweeps and retention of which nothing is set are their defaults, which
/// go together.
pub proof fn unset_intervals_have_their_defaults(m: Inputs)
    requires
        forall|k: Seq<char>, e: Seq<char>| #[trigger] m.raw(k, e) is None,
    ensures
        config::deferred_ack(m) matches Ok(c) && c == config::ack_defaults() && c.capacity == 10_000
            && c.timeout == Duration::of_secs(3600) && c.sweep_interval == Duration::of_secs(60),
        config::instance_sweep(m) matches Ok(c) && c == config::sweep_defaults() && c.interval
            == Duration::of_secs(60) && c.claim_timeout == Duration::of_secs(300),
        config::instance_retention(m) matches Ok(c) && c == config::retention_defaults()
            && c.retention == Duration::of_secs(604_800) && c.interval == Duration::of_secs(3600),
        config::retry(m, "outbox"@, "OUTBOX"@, config::retry_defaults()) matches Ok(c) && c
            == config::retry_defaults() && c.base_delay == Duration::of_secs(1) && c.max_delay
            == Duration::of_secs(300) && c.jitter && c.max_attempts is None,
{
    crate::duration::a_duration_measures_time(60);
    crate::duration::a_duration_measures_time(300);
    crate::duration::a_duration_measures_time(3600);
    crate::duration::a_duration_measures_time(1);
}

} // verus!
