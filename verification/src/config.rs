//! Engine configuration: the canonical `sutra.*` keys, each with its canonical `SUTRA_*`
//! environment name. The environment comes before the file, and the file before the default. An
//! unusable value is an error; of several, the first in the order of the keys is reported.

use vstd::prelude::*;

use crate::duration::Duration;
use crate::otel::{TelemetryConfig, TelemetryConfigView};
use crate::otel;
use crate::sources::{ConfigError, Inputs, Sources};
use crate::sources;
use crate::text;

verus! {

/// Where the engine sources its deployment archives.
#[derive(Debug, Clone, Copy, PartialEq, Eq, Structural)]
pub enum DeploymentSourceKind {
    /// A watched directory.
    Dir,
    /// The archive store in the database.
    Db,
}

impl Default for DeploymentSourceKind {
    fn default() -> (r: DeploymentSourceKind)
        ensures
            r == DeploymentSourceKind::Dir,
    {
        DeploymentSourceKind::Dir
    }
}

/// A retry curve.
#[derive(Debug, Clone, Copy, PartialEq, Eq, Structural)]
pub struct RetryConfig {
    pub base_delay: Duration,
    pub max_delay: Duration,
    pub jitter: bool,
    /// The total attempts before an entry is abandoned; `None` retries forever.
    pub max_attempts: Option<i32>,
}

/// The shipped retry curve: one second up to five minutes, with jitter, forever.
pub open spec fn retry_defaults() -> RetryConfig {
    RetryConfig {
        base_delay: Duration::of_secs(1),
        max_delay: Duration::of_secs(300),
        jitter: true,
        max_attempts: None,
    }
}

impl Default for RetryConfig {
    fn default() -> (r: RetryConfig)
        ensures
            r == retry_defaults(),
    {
        RetryConfig {
            base_delay: Duration::from_secs(1),
            max_delay: Duration::from_secs(300),
            jitter: true,
            max_attempts: None,
        }
    }
}

/// The deferred-ack registry's bounds.
#[derive(Debug, Clone, Copy, PartialEq, Eq, Structural)]
pub struct DeferredAckConfig {
    pub capacity: usize,
    pub timeout: Duration,
    pub sweep_interval: Duration,
}

/// Ten thousand entries, an hour each, swept every minute.
pub open spec fn ack_defaults() -> DeferredAckConfig {
    DeferredAckConfig {
        capacity: 10_000,
        timeout: Duration::of_secs(3600),
        sweep_interval: Duration::of_secs(60),
    }
}

impl Default for DeferredAckConfig {
    fn default() -> (r: DeferredAckConfig)
        ensures
            r == ack_defaults(),
    {
        DeferredAckConfig {
            capacity: 10_000,
            timeout: Duration::from_secs(3600),
            sweep_interval: Duration::from_secs(60),
        }
    }
}

/// The pull surface's ceilings.
#[derive(Debug, Clone, Copy, PartialEq, Eq, Structural)]
pub struct ExternalTaskLimits {
    pub default_lock_duration: Duration,
    pub max_lock_duration: Duration,
    pub max_async_response_timeout: Duration,
    pub max_tasks: u32,
    pub retries: i32,
    pub retry_timeout: Duration,
}

/// The stuck-instance scanner's cadence and patience.
#[derive(Debug, Clone, Copy, PartialEq, Eq, Structural)]
pub struct StuckInstanceScannerConfig {
    pub interval: Duration,
    pub claim_timeout: Duration,
}

/// Every minute, five minutes of silence.
pub open spec fn sweep_defaults() -> StuckInstanceScannerConfig {
    StuckInstanceScannerConfig {
        interval: Duration::of_secs(60),
        claim_timeout: Duration::of_secs(300),
    }
}

impl Default for StuckInstanceScannerConfig {
    fn default() -> (r: StuckInstanceScannerConfig)
        ensures
            r == sweep_defaults(),
    {
        StuckInstanceScannerConfig {
            interval: Duration::from_secs(60),
            claim_timeout: Duration::from_secs(300),
        }
    }
}

/// The execution lanes.
#[derive(Debug, Clone, Copy, PartialEq, Eq, Structural)]
pub struct EngineShardConfig {
    pub shards: u32,
    /// The bound of each lane's mailbox; `None` is unbounded.
    pub queue_capacity: Option<usize>,
}

/// One lane, unbounded.
pub open spec fn shard_defaults() -> EngineShardConfig {
    EngineShardConfig { shards: 1, queue_capacity: None }
}

impl Default for EngineShardConfig {
    fn default() -> (r: EngineShardConfig)
        ensures
            r == shard_defaults(),
    {
        EngineShardConfig { shards: 1, queue_capacity: None }
    }
}

/// How long a finished instance's row is kept, and how often the expired ones are purged.
#[derive(Debug, Clone, Copy, PartialEq, Eq, Structural)]
pub struct TerminalRetentionConfig {
    pub retention: Duration,
    pub interval: Duration,
}

/// Seven days, purged every hour.
pub open spec fn retention_defaults() -> TerminalRetentionConfig {
    TerminalRetentionConfig {
        retention: Duration::of_secs(604_800),
        interval: Duration::of_secs(3600),
    }
}

impl Default for TerminalRetentionConfig {
    fn default() -> (r: TerminalRetentionConfig)
        ensures
            r == retention_defaults(),
    {
        TerminalRetentionConfig {
            retention: Duration::from_secs(604_800),
            interval: Duration::from_secs(3600),
        }
    }
}

/// The global inbound payload cap where none is configured: ten mebibytes.
pub const DEFAULT_MAX_PAYLOAD_BYTES: u64 = 10_485_760;

/// The envelope key source.
#[derive(Debug, Clone, PartialEq, Eq)]
pub struct CryptoEnvelopeConfig {
    pub enabled: bool,
    /// The reference to the key-encryption key, unresolved.
    pub kek_ref: Option<String>,
}

/// The contents of a [`CryptoEnvelopeConfig`].
pub struct CryptoEnvelopeView {
    pub enabled: bool,
    pub kek_ref: Option<Seq<char>>,
}

impl View for CryptoEnvelopeConfig {
    type V = CryptoEnvelopeView;

    open spec fn view(&self) -> CryptoEnvelopeView {
        CryptoEnvelopeView { enabled: self.enabled, kek_ref: sources::opt(self.kek_ref) }
    }
}

impl Default for CryptoEnvelopeConfig {
    fn default() -> (r: CryptoEnvelopeConfig)
        ensures
            r@ == (CryptoEnvelopeView { enabled: false, kek_ref: None }),
    {
        CryptoEnvelopeConfig { enabled: false, kek_ref: None }
    }
}

/// The engine-global audit sinks, each on where its field is set.
#[derive(Debug, Clone, PartialEq, Eq)]
pub struct AuditConfig {
    /// The file that the JSONL sink appends to.
    pub jsonl_path: Option<String>,
    /// The endpoint of the dedicated audit pipeline.
    pub otel_endpoint: Option<String>,
    /// Whether events are written to the audit table.
    pub sql: bool,
}

/// The contents of an [`AuditConfig`].
pub struct AuditView {
    pub jsonl_path: Option<Seq<char>>,
    pub otel_endpoint: Option<Seq<char>>,
    pub sql: bool,
}

impl View for AuditConfig {
    type V = AuditView;

    open spec fn view(&self) -> AuditView {
        AuditView {
            jsonl_path: sources::opt(self.jsonl_path),
            otel_endpoint: sources::opt(self.otel_endpoint),
            sql: self.sql,
        }
    }
}

impl Default for AuditConfig {
    fn default() -> (r: AuditConfig)
        ensures
            r@ == (AuditView { jsonl_path: None, otel_endpoint: None, sql: false }),
    {
        AuditConfig { jsonl_path: None, otel_endpoint: None, sql: false }
    }
}

/// The gating of the admin surface.
#[derive(Debug, Clone, PartialEq, Eq)]
pub struct AdminAuthConfig {
    pub issuer: Option<String>,
    pub audience: Option<String>,
    /// A JWKS URL, or an inline JWKS document.
    pub jwks: Option<String>,
    pub role_claim: String,
    pub required_role: String,
    /// The one way to serve the surface without authentication.
    pub dev_disabled: bool,
    pub auth_scheme: Option<String>,
    pub auth_key_ref: Option<String>,
    pub auth_header: Option<String>,
}

/// The contents of an [`AdminAuthConfig`].
pub struct AdminAuthView {
    pub issuer: Option<Seq<char>>,
    pub audience: Option<Seq<char>>,
    pub jwks: Option<Seq<char>>,
    pub role_claim: Seq<char>,
    pub required_role: Seq<char>,
    pub dev_disabled: bool,
    pub auth_scheme: Option<Seq<char>>,
    pub auth_key_ref: Option<Seq<char>>,
    pub auth_header: Option<Seq<char>>,
}

impl View for AdminAuthConfig {
    type V = AdminAuthView;

    open spec fn view(&self) -> AdminAuthView {
        AdminAuthView {
            issuer: sources::opt(self.issuer),
            audience: sources::opt(self.audience),
            jwks: sources::opt(self.jwks),
            role_claim: self.role_claim@,
            required_role: self.required_role@,
            dev_disabled: self.dev_disabled,
            auth_scheme: sources::opt(self.auth_scheme),
            auth_key_ref: sources::opt(self.auth_key_ref),
            auth_header: sources::opt(self.auth_header),
        }
    }
}

/// Nothing configured and gating on: a closed surface.
pub open spec fn admin_defaults() -> AdminAuthView {
    AdminAuthView {
        issuer: None,
        audience: None,
        jwks: None,
        role_claim: "roles"@,
        required_role: "sutra-admin"@,
        dev_disabled: false,
        auth_scheme: None,
        auth_key_ref: None,
        auth_header: None,
    }
}

impl Default for AdminAuthConfig {
    fn default() -> (r: AdminAuthConfig)
        ensures
            r@ == admin_defaults(),
    {
        AdminAuthConfig {
            issuer: None,
            audience: None,
            jwks: None,
            role_claim: "roles".to_owned(),
            required_role: "sutra-admin".to_owned(),
            dev_disabled: false,
            auth_scheme: None,
            auth_key_ref: None,
            auth_header: None,
        }
    }
}

/// Resolved engine configuration.
#[derive(Debug, Clone, PartialEq, Eq)]
pub struct EngineConfig {
    pub deployment_source: DeploymentSourceKind,
    /// The directory of archives, required for the directory source.
    pub deployments_dir: Option<String>,
    pub deployments_poll_interval: Duration,
    /// The HTTP listen port; zero binds a dynamic one.
    pub http_port: u16,
    pub datasource_url: Option<String>,
    pub datasource_username: Option<String>,
    pub datasource_password: Option<String>,
    pub crypto_master_key: Option<String>,
    pub crypto_envelope: CryptoEnvelopeConfig,
    pub incident_sql: bool,
    pub outbox_tick_interval: Duration,
    pub outbox_retry: RetryConfig,
    pub deferred_ack: DeferredAckConfig,
    pub external_task: ExternalTaskLimits,
    pub instance_sweep: StuckInstanceScannerConfig,
    pub engine_shards: EngineShardConfig,
    pub instance_retention: TerminalRetentionConfig,
    /// The global inbound payload cap; zero disables it.
    pub payload_cap_bytes: u64,
    pub rls_bypass_check_enabled: bool,
    pub audit: AuditConfig,
    pub telemetry: TelemetryConfig,
    pub admin_auth: AdminAuthConfig,
    /// The instant, in nanoseconds since 1970, that due times are computed from in place of the
    /// clock's. Only code sets it, never a source.
    pub now_override: Option<i128>,
}

/// The contents of an [`EngineConfig`].
pub struct EngineConfigView {
    pub deployment_source: DeploymentSourceKind,
    pub deployments_dir: Option<Seq<char>>,
    pub deployments_poll_interval: Duration,
    pub http_port: u16,
    pub datasource_url: Option<Seq<char>>,
    pub datasource_username: Option<Seq<char>>,
    pub datasource_password: Option<Seq<char>>,
    pub crypto_master_key: Option<Seq<char>>,
    pub crypto_envelope: CryptoEnvelopeView,
    pub incident_sql: bool,
    pub outbox_tick_interval: Duration,
    pub outbox_retry: RetryConfig,
    pub deferred_ack: DeferredAckConfig,
    pub external_task: ExternalTaskLimits,
    pub instance_sweep: StuckInstanceScannerConfig,
    pub engine_shards: EngineShardConfig,
    pub instance_retention: TerminalRetentionConfig,
    pub payload_cap_bytes: u64,
    pub rls_bypass_check_enabled: bool,
    pub audit: AuditView,
    pub telemetry: TelemetryConfigView,
    pub admin_auth: AdminAuthView,
    pub now_override: Option<i128>,
}

impl View for EngineConfig {
    type V = EngineConfigView;

    open spec fn view(&self) -> EngineConfigView {
        EngineConfigView {
            deployment_source: self.deployment_source,
            deployments_dir: sources::opt(self.deployments_dir),
            deployments_poll_interval: self.deployments_poll_interval,
            http_port: self.http_port,
            datasource_url: sources::opt(self.datasource_url),
            datasource_username: sources::opt(self.datasource_username),
            datasource_password: sources::opt(self.datasource_password),
            crypto_master_key: sources::opt(self.crypto_master_key),
            crypto_envelope: self.crypto_envelope@,
            incident_sql: self.incident_sql,
            outbox_tick_interval: self.outbox_tick_interval,
            outbox_retry: self.outbox_retry,
            deferred_ack: self.deferred_ack,
            external_task: self.external_task,
            instance_sweep: self.instance_sweep,
            engine_shards: self.engine_shards,
            instance_retention: self.instance_retention,
            payload_cap_bytes: self.payload_cap_bytes,
            rls_bypass_check_enabled: self.rls_bypass_check_enabled,
            audit: self.audit@,
            telemetry: self.telemetry@,
            admin_auth: self.admin_auth@,
            now_override: self.now_override,
        }
    }
}

/// What the outcome of reading a value with a view holds.
pub open spec fn viewed<T: View>(r: Result<T, ConfigError>) -> Result<T::V, Seq<char>> {
    match r {
        Ok(v) => Ok(v@),
        Err(e) => Err(e.0@),
    }
}

// ---- the rules, block by block -----------------------------------------------------------------

/// The deployment source.
pub open spec fn source_kind(m: Inputs) -> Result<DeploymentSourceKind, Seq<char>> {
    match m.setting("sutra.deployment.source"@, "SUTRA_DEPLOYMENT_SOURCE"@) {
        Err(e) => Err(e),
        Ok(None) => Ok(DeploymentSourceKind::Dir),
        Ok(Some(raw)) => {
            let word = text::lowered(text::trimmed(raw));
            if word == "dir"@ {
                Ok(DeploymentSourceKind::Dir)
            } else if word == "db"@ {
                Ok(DeploymentSourceKind::Db)
            } else {
                Err("sutra.deployment.source: '"@ + word + "' is not 'dir' or 'db'"@)
            }
        },
    }
}

/// The archive directory, which the directory source requires.
pub open spec fn archive_dir(m: Inputs, kind: DeploymentSourceKind) -> Result<
    Option<Seq<char>>,
    Seq<char>,
> {
    match m.setting("sutra.deployments.dir"@, "SUTRA_DEPLOYMENTS_DIR"@) {
        Ok(None) => if kind == DeploymentSourceKind::Dir {
            Err(
                "sutra.deployments.dir (env SUTRA_DEPLOYMENTS_DIR — a directory of .sutra archives) is required for the 'dir' deployment source; the engine has nothing to load without one (use sutra.deployment.source=db for the DB-backed store)"@,
            )
        } else {
            Ok(None)
        },
        other => other,
    }
}

/// The HTTP port.
pub open spec fn port(m: Inputs) -> Result<u16, Seq<char>> {
    match m.number_setting(
        "sutra.http.port"@,
        "SUTRA_HTTP_PORT"@,
        0,
        u16::MAX as nat,
        "is not a valid port"@,
    ) {
        Err(e) => Err(e),
        Ok(None) => Ok(8080),
        Ok(Some(n)) => Ok(n as u16),
    }
}

/// A service's retry block. The base delay is positive, and the ceiling is not below it.
pub open spec fn retry(
    m: Inputs,
    service: Seq<char>,
    env_service: Seq<char>,
    default: RetryConfig,
) -> Result<RetryConfig, Seq<char>> {
    let base_key = "sutra."@ + service + ".retry.base-delay"@;
    let max_key = "sutra."@ + service + ".retry.max-delay"@;
    let base = m.duration_setting(
        base_key,
        "SUTRA_"@ + env_service + "_RETRY_BASE_DELAY"@,
        default.base_delay,
    );
    let max = m.duration_setting(
        max_key,
        "SUTRA_"@ + env_service + "_RETRY_MAX_DELAY"@,
        default.max_delay,
    );
    let jitter = m.flag_setting(
        "sutra."@ + service + ".retry.jitter"@,
        "SUTRA_"@ + env_service + "_RETRY_JITTER"@,
        default.jitter,
    );
    let attempts = m.signed_setting(
        "sutra."@ + service + ".retry.max-attempts"@,
        "SUTRA_"@ + env_service + "_RETRY_MAX_ATTEMPTS"@,
        1,
        "must be an integer >= 1 (omit the key entirely for the default: retry forever)"@,
    );
    if base is Err {
        Err(base->Err_0)
    } else if max is Err {
        Err(max->Err_0)
    } else if jitter is Err {
        Err(jitter->Err_0)
    } else if attempts is Err {
        Err(attempts->Err_0)
    } else if base->Ok_0.total() == 0 {
        Err(base_key + ": base-delay must be greater than zero"@)
    } else if max->Ok_0.total() < base->Ok_0.total() {
        Err(
            max_key + ": max-delay ("@ + max->Ok_0.debug() + ") must be >= base-delay ("@
                + base->Ok_0.debug() + ")"@,
        )
    } else {
        Ok(
            RetryConfig {
                base_delay: base->Ok_0,
                max_delay: max->Ok_0,
                jitter: jitter->Ok_0,
                max_attempts: match attempts->Ok_0 {
                    Some(n) => Some(n as i32),
                    None => default.max_attempts,
                },
            },
        )
    }
}

/// The deferred-ack block. A zero sweep interval is refused.
pub open spec fn deferred_ack(m: Inputs) -> Result<DeferredAckConfig, Seq<char>> {
    let capacity = m.number_setting(
        "sutra.ack.deferred.capacity"@,
        "SUTRA_ACK_DEFERRED_CAPACITY"@,
        1,
        usize::MAX as nat,
        "is not a positive entry count"@,
    );
    let timeout = m.duration_setting(
        "sutra.ack.deferred.timeout"@,
        "SUTRA_ACK_DEFERRED_TIMEOUT"@,
        ack_defaults().timeout,
    );
    let sweep = m.duration_setting(
        "sutra.ack.deferred.sweep-interval"@,
        "SUTRA_ACK_DEFERRED_SWEEP_INTERVAL"@,
        ack_defaults().sweep_interval,
    );
    if capacity is Err {
        Err(capacity->Err_0)
    } else if timeout is Err {
        Err(timeout->Err_0)
    } else if sweep is Err {
        Err(sweep->Err_0)
    } else if sweep->Ok_0.total() == 0 {
        Err(
            "sutra.ack.deferred.sweep-interval must be positive (a zero interval would hot-loop the sweep task)"@,
        )
    } else {
        Ok(
            DeferredAckConfig {
                capacity: match capacity->Ok_0 {
                    Some(n) => n as usize,
                    None => ack_defaults().capacity,
                },
                timeout: timeout->Ok_0,
                sweep_interval: sweep->Ok_0,
            },
        )
    }
}

/// The external-task block. The default lock is positive and not above its own ceiling.
pub open spec fn external_task(m: Inputs, default: ExternalTaskLimits) -> Result<
    ExternalTaskLimits,
    Seq<char>,
> {
    let lock = m.duration_setting(
        "sutra.external-task.default-lock-duration"@,
        "SUTRA_EXTERNAL_TASK_DEFAULT_LOCK_DURATION"@,
        default.default_lock_duration,
    );
    let max_lock = m.duration_setting(
        "sutra.external-task.max-lock-duration"@,
        "SUTRA_EXTERNAL_TASK_MAX_LOCK_DURATION"@,
        default.max_lock_duration,
    );
    let response = m.duration_setting(
        "sutra.external-task.max-async-response-timeout"@,
        "SUTRA_EXTERNAL_TASK_MAX_ASYNC_RESPONSE_TIMEOUT"@,
        default.max_async_response_timeout,
    );
    let max_tasks = m.number_setting(
        "sutra.external-task.max-tasks"@,
        "SUTRA_EXTERNAL_TASK_MAX_TASKS"@,
        1,
        u32::MAX as nat,
        "is not a positive task count"@,
    );
    let retries = m.signed_setting(
        "sutra.external-task.retries"@,
        "SUTRA_EXTERNAL_TASK_RETRIES"@,
        0,
        "is not a non-negative retry budget"@,
    );
    let retry_timeout = m.duration_setting(
        "sutra.external-task.retry-timeout"@,
        "SUTRA_EXTERNAL_TASK_RETRY_TIMEOUT"@,
        default.retry_timeout,
    );
    if lock is Err {
        Err(lock->Err_0)
    } else if max_lock is Err {
        Err(max_lock->Err_0)
    } else if response is Err {
        Err(response->Err_0)
    } else if max_tasks is Err {
        Err(max_tasks->Err_0)
    } else if retries is Err {
        Err(retries->Err_0)
    } else if retry_timeout is Err {
        Err(retry_timeout->Err_0)
    } else if lock->Ok_0.total() > max_lock->Ok_0.total() {
        Err(
            "sutra.external-task.default-lock-duration must not exceed sutra.external-task.max-lock-duration (the default would be rejected by its own ceiling on every request)"@,
        )
    } else if lock->Ok_0.total() == 0 {
        Err(
            "sutra.external-task.default-lock-duration must be positive (a zero lock is expired the instant it is handed out)"@,
        )
    } else {
        Ok(
            ExternalTaskLimits {
                default_lock_duration: lock->Ok_0,
                max_lock_duration: max_lock->Ok_0,
                max_async_response_timeout: response->Ok_0,
                max_tasks: match max_tasks->Ok_0 {
                    Some(n) => n as u32,
                    None => default.max_tasks,
                },
                retries: match retries->Ok_0 {
                    Some(n) => n as i32,
                    None => default.retries,
                },
                retry_timeout: retry_timeout->Ok_0,
            },
        )
    }
}

/// The stuck-instance block. Both values are positive, and a claim outlives a sweep.
pub open spec fn instance_sweep(m: Inputs) -> Result<StuckInstanceScannerConfig, Seq<char>> {
    let interval = m.duration_setting(
        "sutra.instance.sweep-interval"@,
        "SUTRA_INSTANCE_SWEEP_INTERVAL"@,
        sweep_defaults().interval,
    );
    let claim = m.duration_setting(
        "sutra.instance.claim-timeout"@,
        "SUTRA_INSTANCE_CLAIM_TIMEOUT"@,
        sweep_defaults().claim_timeout,
    );
    if interval is Err {
        Err(interval->Err_0)
    } else if claim is Err {
        Err(claim->Err_0)
    } else if interval->Ok_0.total() == 0 {
        Err(
            "sutra.instance.sweep-interval must be positive (a zero interval would hot-loop the stuck-instance scanner)"@,
        )
    } else if claim->Ok_0.total() == 0 {
        Err(
            "sutra.instance.claim-timeout must be positive (a zero timeout would reclaim every instance the instant a replica claims it, re-opening the double-resume window the claim exists to close)"@,
        )
    } else if claim->Ok_0.total() <= interval->Ok_0.total() {
        Err(
            "sutra.instance.claim-timeout ("@ + claim->Ok_0.debug()
                + ") must be strictly greater than sutra.instance.sweep-interval ("@
                + interval->Ok_0.debug()
                + ") — a claim that expires within one sweep tick can be cleared while its owner is still mid-step"@,
        )
    } else {
        Ok(
            StuckInstanceScannerConfig {
                interval: interval->Ok_0,
                claim_timeout: claim->Ok_0,
            },
        )
    }
}

/// The execution-lane block.
pub open spec fn engine_shards(m: Inputs) -> Result<EngineShardConfig, Seq<char>> {
    let shards = m.number_setting(
        "sutra.engine.shards"@,
        "SUTRA_ENGINE_SHARDS"@,
        1,
        u32::MAX as nat,
        "is not an integer >= 1 (1 = the single-lane default)"@,
    );
    let queue = m.number_setting(
        "sutra.engine.shard-queue-capacity"@,
        "SUTRA_ENGINE_SHARD_QUEUE_CAPACITY"@,
        1,
        usize::MAX as nat,
        "is not an integer >= 1 (leave the key unset for an unbounded queue)"@,
    );
    if shards is Err {
        Err(shards->Err_0)
    } else if queue is Err {
        Err(queue->Err_0)
    } else {
        Ok(
            EngineShardConfig {
                shards: match shards->Ok_0 {
                    Some(n) => n as u32,
                    None => 1,
                },
                queue_capacity: match queue->Ok_0 {
                    Some(n) => Some(n as usize),
                    None => None,
                },
            },
        )
    }
}

/// The retention block. A zero retention keeps no history; a zero purge interval is refused.
pub open spec fn instance_retention(m: Inputs) -> Result<TerminalRetentionConfig, Seq<char>> {
    let retention = m.duration_setting(
        "sutra.instance.retention"@,
        "SUTRA_INSTANCE_RETENTION"@,
        retention_defaults().retention,
    );
    let interval = m.duration_setting(
        "sutra.instance.retention-sweep-interval"@,
        "SUTRA_INSTANCE_RETENTION_SWEEP_INTERVAL"@,
        retention_defaults().interval,
    );
    if retention is Err {
        Err(retention->Err_0)
    } else if interval is Err {
        Err(interval->Err_0)
    } else if interval->Ok_0.total() == 0 {
        Err(
            "sutra.instance.retention-sweep-interval must be positive (a zero interval would hot-loop the terminal-retention purge). To keep NO history at all, set sutra.instance.retention=PT0S instead — that deletes at the terminal step and leaves the sweep with nothing to do"@,
        )
    } else {
        Ok(
            TerminalRetentionConfig {
                retention: retention->Ok_0,
                interval: interval->Ok_0,
            },
        )
    }
}

/// The payload cap.
pub open spec fn payload_cap(m: Inputs) -> Result<u64, Seq<char>> {
    match m.number_setting(
        "sutra.codec.max-payload-bytes"@,
        "SUTRA_CODEC_MAX_PAYLOAD_BYTES"@,
        0,
        u64::MAX as nat,
        "is not a non-negative byte count (use 0 to disable the global cap)"@,
    ) {
        Err(e) => Err(e),
        Ok(None) => Ok(DEFAULT_MAX_PAYLOAD_BYTES),
        Ok(Some(n)) => Ok(n as u64),
    }
}

/// The key source: the master key, or the envelope with its key-encryption key, never both.
pub open spec fn crypto(m: Inputs) -> Result<(Option<Seq<char>>, CryptoEnvelopeView), Seq<char>> {
    let master = m.setting("sutra.crypto.master-key"@, "SUTRA_CRYPTO_MASTER_KEY"@);
    let enabled = m.flag_setting(
        "sutra.crypto.envelope.enabled"@,
        "SUTRA_CRYPTO_ENVELOPE_ENABLED"@,
        false,
    );
    let kek = m.nonblank_setting("sutra.crypto.envelope.kek"@, "SUTRA_CRYPTO_ENVELOPE_KEK"@);
    if master is Err {
        Err(master->Err_0)
    } else if enabled is Err {
        Err(enabled->Err_0)
    } else if kek is Err {
        Err(kek->Err_0)
    } else if enabled->Ok_0 && master->Ok_0 is Some {
        Err(
            "sutra.crypto.envelope.enabled=true is mutually exclusive with sutra.crypto.master-key — set exactly one key source (the envelope KEK unwraps DEKs from the data_key store; the master key HKDF-derives them). Refusing to boot."@,
        )
    } else if enabled->Ok_0 && kek->Ok_0 is None {
        Err(
            "sutra.crypto.envelope.enabled=true requires sutra.crypto.envelope.kek (a secret:/env:/vault:/aws-secrets: reference to the key-encryption key). Refusing to boot."@,
        )
    } else {
        Ok(
            (
                master->Ok_0,
                CryptoEnvelopeView { enabled: enabled->Ok_0, kek_ref: kek->Ok_0 },
            ),
        )
    }
}

/// The audit block.
pub open spec fn audit(m: Inputs) -> Result<AuditView, Seq<char>> {
    let jsonl = m.setting("sutra.audit.jsonl.path"@, "SUTRA_AUDIT_JSONL"@);
    let endpoint = m.trimmed_setting("sutra.audit.otel.endpoint"@, "SUTRA_AUDIT_OTEL_ENDPOINT"@);
    let sql = m.flag_setting("sutra.audit.sql"@, "SUTRA_AUDIT_SQL"@, false);
    if jsonl is Err {
        Err(jsonl->Err_0)
    } else if endpoint is Err {
        Err(endpoint->Err_0)
    } else if sql is Err {
        Err(sql->Err_0)
    } else {
        Ok(
            AuditView {
                jsonl_path: jsonl->Ok_0,
                otel_endpoint: endpoint->Ok_0,
                sql: sql->Ok_0,
            },
        )
    }
}

/// The admin block.
pub open spec fn admin_auth(m: Inputs) -> Result<AdminAuthView, Seq<char>> {
    let issuer = m.trimmed_setting("sutra.admin.oidc.issuer"@, "SUTRA_ADMIN_OIDC_ISSUER"@);
    let audience = m.trimmed_setting("sutra.admin.oidc.audience"@, "SUTRA_ADMIN_OIDC_AUDIENCE"@);
    let jwks = m.nonblank_setting("sutra.admin.oidc.jwks"@, "SUTRA_ADMIN_OIDC_JWKS"@);
    let claim = m.trimmed_setting("sutra.admin.oidc.role-claim"@, "SUTRA_ADMIN_OIDC_ROLE_CLAIM"@);
    let role = m.trimmed_setting(
        "sutra.admin.oidc.required-role"@,
        "SUTRA_ADMIN_OIDC_REQUIRED_ROLE"@,
    );
    let dev = m.flag_setting(
        "sutra.admin.oidc.dev-disabled"@,
        "SUTRA_ADMIN_OIDC_DEV_DISABLED"@,
        false,
    );
    let scheme = m.trimmed_setting("sutra.admin.auth.scheme"@, "SUTRA_ADMIN_AUTH_SCHEME"@);
    let key = m.nonblank_setting("sutra.admin.auth.key-ref"@, "SUTRA_ADMIN_AUTH_KEY_REF"@);
    let header = m.trimmed_setting("sutra.admin.auth.header"@, "SUTRA_ADMIN_AUTH_HEADER"@);
    if issuer is Err {
        Err(issuer->Err_0)
    } else if audience is Err {
        Err(audience->Err_0)
    } else if jwks is Err {
        Err(jwks->Err_0)
    } else if claim is Err {
        Err(claim->Err_0)
    } else if role is Err {
        Err(role->Err_0)
    } else if dev is Err {
        Err(dev->Err_0)
    } else if scheme is Err {
        Err(scheme->Err_0)
    } else if key is Err {
        Err(key->Err_0)
    } else if header is Err {
        Err(header->Err_0)
    } else {
        Ok(
            AdminAuthView {
                issuer: issuer->Ok_0,
                audience: audience->Ok_0,
                jwks: jwks->Ok_0,
                role_claim: match claim->Ok_0 {
                    Some(c) => c,
                    None => "roles"@,
                },
                required_role: match role->Ok_0 {
                    Some(r) => r,
                    None => "sutra-admin"@,
                },
                dev_disabled: dev->Ok_0,
                auth_scheme: scheme->Ok_0,
                auth_key_ref: key->Ok_0,
                auth_header: header->Ok_0,
            },
        )
    }
}

/// The configuration that the sources give, or the first error in the order of the keys.
pub open spec fn engine_config(m: Inputs, limits: ExternalTaskLimits) -> Result<
    EngineConfigView,
    Seq<char>,
> {
    let kind = source_kind(m);
    let dir = archive_dir(m, kind->Ok_0);
    let poll = m.duration_setting(
        "sutra.deployments.poll-interval"@,
        "SUTRA_DEPLOYMENTS_POLL_INTERVAL"@,
        Duration::of_secs(2),
    );
    let tick = m.duration_setting(
        "sutra.outbox.tick-interval"@,
        "SUTRA_OUTBOX_TICK_INTERVAL"@,
        Duration::of_secs(5),
    );
    let outbox = retry(m, "outbox"@, "OUTBOX"@, retry_defaults());
    let rls = m.flag_setting(
        "sutra.persistence.rls-bypass-check.enabled"@,
        "SUTRA_PERSISTENCE_RLS_BYPASS_CHECK_ENABLED"@,
        true,
    );
    let incident = m.flag_setting("sutra.incident.sql"@, "SUTRA_INCIDENT_SQL"@, false);
    let url = m.setting("sutra.datasource.url"@, "SUTRA_DATASOURCE_URL"@);
    let user = m.setting("sutra.datasource.username"@, "SUTRA_DATASOURCE_USERNAME"@);
    let password = m.setting("sutra.datasource.password"@, "SUTRA_DATASOURCE_PASSWORD"@);
    if kind is Err {
        Err(kind->Err_0)
    } else if dir is Err {
        Err(dir->Err_0)
    } else if poll is Err {
        Err(poll->Err_0)
    } else if port(m) is Err {
        Err(port(m)->Err_0)
    } else if tick is Err {
        Err(tick->Err_0)
    } else if outbox is Err {
        Err(outbox->Err_0)
    } else if deferred_ack(m) is Err {
        Err(deferred_ack(m)->Err_0)
    } else if external_task(m, limits) is Err {
        Err(external_task(m, limits)->Err_0)
    } else if instance_sweep(m) is Err {
        Err(instance_sweep(m)->Err_0)
    } else if engine_shards(m) is Err {
        Err(engine_shards(m)->Err_0)
    } else if instance_retention(m) is Err {
        Err(instance_retention(m)->Err_0)
    } else if payload_cap(m) is Err {
        Err(payload_cap(m)->Err_0)
    } else if rls is Err {
        Err(rls->Err_0)
    } else if crypto(m) is Err {
        Err(crypto(m)->Err_0)
    } else if incident is Err {
        Err(incident->Err_0)
    } else if url is Err {
        Err(url->Err_0)
    } else if user is Err {
        Err(user->Err_0)
    } else if password is Err {
        Err(password->Err_0)
    } else if audit(m) is Err {
        Err(audit(m)->Err_0)
    } else if admin_auth(m) is Err {
        Err(admin_auth(m)->Err_0)
    } else {
        let keys = crypto(m)->Ok_0;
        Ok(
            EngineConfigView {
                deployment_source: kind->Ok_0,
                deployments_dir: dir->Ok_0,
                deployments_poll_interval: poll->Ok_0,
                http_port: port(m)->Ok_0,
                datasource_url: url->Ok_0,
                datasource_username: user->Ok_0,
                datasource_password: password->Ok_0,
                crypto_master_key: keys.0,
                crypto_envelope: keys.1,
                incident_sql: incident->Ok_0,
                outbox_tick_interval: tick->Ok_0,
                outbox_retry: outbox->Ok_0,
                deferred_ack: deferred_ack(m)->Ok_0,
                external_task: external_task(m, limits)->Ok_0,
                instance_sweep: instance_sweep(m)->Ok_0,
                engine_shards: engine_shards(m)->Ok_0,
                instance_retention: instance_retention(m)->Ok_0,
                payload_cap_bytes: payload_cap(m)->Ok_0,
                rls_bypass_check_enabled: rls->Ok_0,
                audit: audit(m)->Ok_0,
                telemetry: otel::telemetry(m),
                admin_auth: admin_auth(m)->Ok_0,
                now_override: None,
            },
        )
    }
}

// ---- resolution --------------------------------------------------------------------------------

/// Parse a `sutra.<service>.retry.*` block. An invalid curve is refused.
pub fn parse_retry<
    'a,
    E: Fn(&str) -> Option<String>,
    R: Fn(&str) -> Result<String, String>,
    M: Fn(&str, u64) -> Option<u64>,
>(from: &Sources<'a, E, R, M>, service: &str, env_service: &str, default: RetryConfig) -> (r:
    Result<RetryConfig, ConfigError>)
    requires
        from.ready(),
    ensures
        forall|m: Inputs| #[trigger]
            from.are(m) ==> sources::plain_outcome(r) == retry(m, service@, env_service@, default),
{
    let base_key = text::text3("sutra.", service, ".retry.base-delay");
    let base_delay = match from.duration_key(
        &base_key,
        &text::text3("SUTRA_", env_service, "_RETRY_BASE_DELAY"),
        default.base_delay,
    ) {
        Ok(d) => d,
        Err(e) => {
            return Err(e);
        },
    };
    let max_key = text::text3("sutra.", service, ".retry.max-delay");
    let max_delay = match from.duration_key(
        &max_key,
        &text::text3("SUTRA_", env_service, "_RETRY_MAX_DELAY"),
        default.max_delay,
    ) {
        Ok(d) => d,
        Err(e) => {
            return Err(e);
        },
    };
    let jitter = match from.flag_key(
        &text::text3("sutra.", service, ".retry.jitter"),
        &text::text3("SUTRA_", env_service, "_RETRY_JITTER"),
        default.jitter,
    ) {
        Ok(b) => b,
        Err(e) => {
            return Err(e);
        },
    };
    let max_attempts: Option<i32> = match from.signed_key(
        &text::text3("sutra.", service, ".retry.max-attempts"),
        &text::text3("SUTRA_", env_service, "_RETRY_MAX_ATTEMPTS"),
        1,
        "must be an integer >= 1 (omit the key entirely for the default: retry forever)",
    ) {
        Ok(Some(n)) => Some(n),
        Ok(None) => default.max_attempts,
        Err(e) => {
            return Err(e);
        },
    };
    if base_delay.is_zero() {
        return Err(
            ConfigError(text::text2(&base_key, ": base-delay must be greater than zero")),
        );
    }
    if max_delay.shorter_than(&base_delay) {
        let mut e = text::text5(
            &max_key,
            ": max-delay (",
            &max_delay.to_debug_text(),
            ") must be >= base-delay (",
            &base_delay.to_debug_text(),
        );
        e.append(")");
        return Err(ConfigError(e));
    }
    Ok(RetryConfig { base_delay, max_delay, jitter, max_attempts })
}

impl<
    'a,
    E: Fn(&str) -> Option<String>,
    R: Fn(&str) -> Result<String, String>,
    M: Fn(&str, u64) -> Option<u64>,
> Sources<'a, E, R, M> {
    fn source_kind(&self) -> (r: Result<DeploymentSourceKind, ConfigError>)
        requires
            self.ready(),
        ensures
            forall|m: Inputs| #[trigger]
                self.are(m) ==> sources::plain_outcome(r) == source_kind(m),
    {
        match self.value("sutra.deployment.source", "SUTRA_DEPLOYMENT_SOURCE") {
            Err(e) => Err(e),
            Ok(None) => Ok(DeploymentSourceKind::Dir),
            Ok(Some(raw)) => {
                let word = text::to_lower(&text::trim(&raw));
                if text::same(&word, "dir") {
                    Ok(DeploymentSourceKind::Dir)
                } else if text::same(&word, "db") {
                    Ok(DeploymentSourceKind::Db)
                } else {
                    Err(
                        ConfigError(
                            text::text3(
                                "sutra.deployment.source: '",
                                &word,
                                "' is not 'dir' or 'db'",
                            ),
                        ),
                    )
                }
            },
        }
    }

    fn archive_dir(&self, kind: DeploymentSourceKind) -> (r: Result<Option<String>, ConfigError>)
        requires
            self.ready(),
        ensures
            forall|m: Inputs| #[trigger]
                self.are(m) ==> sources::text_outcome(r) == archive_dir(m, kind),
    {
        match self.value("sutra.deployments.dir", "SUTRA_DEPLOYMENTS_DIR") {
            Ok(None) => {
                if kind == DeploymentSourceKind::Dir {
                    Err(
                        ConfigError(
                            "sutra.deployments.dir (env SUTRA_DEPLOYMENTS_DIR — a directory of .sutra archives) is required for the 'dir' deployment source; the engine has nothing to load without one (use sutra.deployment.source=db for the DB-backed store)".to_owned(),
                        ),
                    )
                } else {
                    Ok(None)
                }
            },
            other => other,
        }
    }

    fn port(&self) -> (r: Result<u16, ConfigError>)
        requires
            self.ready(),
        ensures
            forall|m: Inputs| #[trigger] self.are(m) ==> sources::plain_outcome(r) == port(m),
    {
        match self.number_key(
            "sutra.http.port",
            "SUTRA_HTTP_PORT",
            0,
            65535,
            "is not a valid port",
        ) {
            Err(e) => Err(e),
            Ok(None) => Ok(8080),
            Ok(Some(n)) => Ok(n as u16),
        }
    }

    fn deferred_ack(&self) -> (r: Result<DeferredAckConfig, ConfigError>)
        requires
            self.ready(),
        ensures
            forall|m: Inputs| #[trigger]
                self.are(m) ==> sources::plain_outcome(r) == deferred_ack(m),
    {
        let defaults = DeferredAckConfig::default();
        let capacity: usize = match self.number_key(
            "sutra.ack.deferred.capacity",
            "SUTRA_ACK_DEFERRED_CAPACITY",
            1,
            usize::MAX as u64,
            "is not a positive entry count",
        ) {
            Err(e) => {
                return Err(e);
            },
            Ok(None) => defaults.capacity,
            Ok(Some(n)) => n as usize,
        };
        let timeout = match self.duration_key(
            "sutra.ack.deferred.timeout",
            "SUTRA_ACK_DEFERRED_TIMEOUT",
            defaults.timeout,
        ) {
            Ok(d) => d,
            Err(e) => {
                return Err(e);
            },
        };
        let sweep_interval = match self.duration_key(
            "sutra.ack.deferred.sweep-interval",
            "SUTRA_ACK_DEFERRED_SWEEP_INTERVAL",
            defaults.sweep_interval,
        ) {
            Ok(d) => d,
            Err(e) => {
                return Err(e);
            },
        };
        if sweep_interval.is_zero() {
            return Err(
                ConfigError(
                    "sutra.ack.deferred.sweep-interval must be positive (a zero interval would hot-loop the sweep task)".to_owned(),
                ),
            );
        }
        Ok(DeferredAckConfig { capacity, timeout, sweep_interval })
    }

    fn external_task(&self, default: ExternalTaskLimits) -> (r: Result<
        ExternalTaskLimits,
        ConfigError,
    >)
        requires
            self.ready(),
        ensures
            forall|m: Inputs| #[trigger]
                self.are(m) ==> sources::plain_outcome(r) == external_task(m, default),
    {
        let default_lock_duration = match self.duration_key(
            "sutra.external-task.default-lock-duration",
            "SUTRA_EXTERNAL_TASK_DEFAULT_LOCK_DURATION",
            default.default_lock_duration,
        ) {
            Ok(d) => d,
            Err(e) => {
                return Err(e);
            },
        };
        let max_lock_duration = match self.duration_key(
            "sutra.external-task.max-lock-duration",
            "SUTRA_EXTERNAL_TASK_MAX_LOCK_DURATION",
            default.max_lock_duration,
        ) {
            Ok(d) => d,
            Err(e) => {
                return Err(e);
            },
        };
        let max_async_response_timeout = match self.duration_key(
            "sutra.external-task.max-async-response-timeout",
            "SUTRA_EXTERNAL_TASK_MAX_ASYNC_RESPONSE_TIMEOUT",
            default.max_async_response_timeout,
        ) {
            Ok(d) => d,
            Err(e) => {
                return Err(e);
            },
        };
        let max_tasks: u32 = match self.number_key(
            "sutra.external-task.max-tasks",
            "SUTRA_EXTERNAL_TASK_MAX_TASKS",
            1,
            4294967295,
            "is not a positive task count",
        ) {
            Err(e) => {
                return Err(e);
            },
            Ok(None) => default.max_tasks,
            Ok(Some(n)) => n as u32,
        };
        let retries: i32 = match self.signed_key(
            "sutra.external-task.retries",
            "SUTRA_EXTERNAL_TASK_RETRIES",
            0,
            "is not a non-negative retry budget",
        ) {
            Err(e) => {
                return Err(e);
            },
            Ok(None) => default.retries,
            Ok(Some(n)) => n,
        };
        let retry_timeout = match self.duration_key(
            "sutra.external-task.retry-timeout",
            "SUTRA_EXTERNAL_TASK_RETRY_TIMEOUT",
            default.retry_timeout,
        ) {
            Ok(d) => d,
            Err(e) => {
                return Err(e);
            },
        };
        if max_lock_duration.shorter_than(&default_lock_duration) {
            return Err(
                ConfigError(
                    "sutra.external-task.default-lock-duration must not exceed sutra.external-task.max-lock-duration (the default would be rejected by its own ceiling on every request)".to_owned(),
                ),
            );
        }
        if default_lock_duration.is_zero() {
            return Err(
                ConfigError(
                    "sutra.external-task.default-lock-duration must be positive (a zero lock is expired the instant it is handed out)".to_owned(),
                ),
            );
        }
        Ok(
            ExternalTaskLimits {
                default_lock_duration,
                max_lock_duration,
                max_async_response_timeout,
                max_tasks,
                retries,
                retry_timeout,
            },
        )
    }

    fn instance_sweep(&self) -> (r: Result<StuckInstanceScannerConfig, ConfigError>)
        requires
            self.ready(),
        ensures
            forall|m: Inputs| #[trigger]
                self.are(m) ==> sources::plain_outcome(r) == instance_sweep(m),
    {
        let defaults = StuckInstanceScannerConfig::default();
        let interval = match self.duration_key(
            "sutra.instance.sweep-interval",
            "SUTRA_INSTANCE_SWEEP_INTERVAL",
            defaults.interval,
        ) {
            Ok(d) => d,
            Err(e) => {
                return Err(e);
            },
        };
        let claim_timeout = match self.duration_key(
            "sutra.instance.claim-timeout",
            "SUTRA_INSTANCE_CLAIM_TIMEOUT",
            defaults.claim_timeout,
        ) {
            Ok(d) => d,
            Err(e) => {
                return Err(e);
            },
        };
        if interval.is_zero() {
            return Err(
                ConfigError(
                    "sutra.instance.sweep-interval must be positive (a zero interval would hot-loop the stuck-instance scanner)".to_owned(),
                ),
            );
        }
        if claim_timeout.is_zero() {
            return Err(
                ConfigError(
                    "sutra.instance.claim-timeout must be positive (a zero timeout would reclaim every instance the instant a replica claims it, re-opening the double-resume window the claim exists to close)".to_owned(),
                ),
            );
        }
        if !interval.shorter_than(&claim_timeout) {
            return Err(
                ConfigError(
                    text::text5(
                        "sutra.instance.claim-timeout (",
                        &claim_timeout.to_debug_text(),
                        ") must be strictly greater than sutra.instance.sweep-interval (",
                        &interval.to_debug_text(),
                        ") — a claim that expires within one sweep tick can be cleared while its owner is still mid-step",
                    ),
                ),
            );
        }
        Ok(StuckInstanceScannerConfig { interval, claim_timeout })
    }

    fn engine_shards(&self) -> (r: Result<EngineShardConfig, ConfigError>)
        requires
            self.ready(),
        ensures
            forall|m: Inputs| #[trigger]
                self.are(m) ==> sources::plain_outcome(r) == engine_shards(m),
    {
        let defaults = EngineShardConfig::default();
        let shards: u32 = match self.number_key(
            "sutra.engine.shards",
            "SUTRA_ENGINE_SHARDS",
            1,
            4294967295,
            "is not an integer >= 1 (1 = the single-lane default)",
        ) {
            Err(e) => {
                return Err(e);
            },
            Ok(None) => defaults.shards,
            Ok(Some(n)) => n as u32,
        };
        let queue_capacity: Option<usize> = match self.number_key(
            "sutra.engine.shard-queue-capacity",
            "SUTRA_ENGINE_SHARD_QUEUE_CAPACITY",
            1,
            usize::MAX as u64,
            "is not an integer >= 1 (leave the key unset for an unbounded queue)",
        ) {
            Err(e) => {
                return Err(e);
            },
            Ok(None) => defaults.queue_capacity,
            Ok(Some(n)) => Some(n as usize),
        };
        Ok(EngineShardConfig { shards, queue_capacity })
    }

    fn instance_retention(&self) -> (r: Result<TerminalRetentionConfig, ConfigError>)
        requires
            self.ready(),
        ensures
            forall|m: Inputs| #[trigger]
                self.are(m) ==> sources::plain_outcome(r) == instance_retention(m),
    {
        let defaults = TerminalRetentionConfig::default();
        let retention = match self.duration_key(
            "sutra.instance.retention",
            "SUTRA_INSTANCE_RETENTION",
            defaults.retention,
        ) {
            Ok(d) => d,
            Err(e) => {
                return Err(e);
            },
        };
        let interval = match self.duration_key(
            "sutra.instance.retention-sweep-interval",
            "SUTRA_INSTANCE_RETENTION_SWEEP_INTERVAL",
            defaults.interval,
        ) {
            Ok(d) => d,
            Err(e) => {
                return Err(e);
            },
        };
        if interval.is_zero() {
            return Err(
                ConfigError(
                    "sutra.instance.retention-sweep-interval must be positive (a zero interval would hot-loop the terminal-retention purge). To keep NO history at all, set sutra.instance.retention=PT0S instead — that deletes at the terminal step and leaves the sweep with nothing to do".to_owned(),
                ),
            );
        }
        Ok(TerminalRetentionConfig { retention, interval })
    }

    fn payload_cap(&self) -> (r: Result<u64, ConfigError>)
        requires
            self.ready(),
        ensures
            forall|m: Inputs| #[trigger]
                self.are(m) ==> sources::plain_outcome(r) == payload_cap(m),
    {
        match self.number_key(
            "sutra.codec.max-payload-bytes",
            "SUTRA_CODEC_MAX_PAYLOAD_BYTES",
            0,
            u64::MAX,
            "is not a non-negative byte count (use 0 to disable the global cap)",
        ) {
            Err(e) => Err(e),
            Ok(None) => Ok(DEFAULT_MAX_PAYLOAD_BYTES),
            Ok(Some(n)) => Ok(n),
        }
    }

    fn crypto(&self) -> (r: Result<(Option<String>, CryptoEnvelopeConfig), ConfigError>)
        requires
            self.ready(),
        ensures
            forall|m: Inputs| #[trigger]
                self.are(m) ==> match r {
                    Ok(keys) => crypto(m) == Ok::<
                        (Option<Seq<char>>, CryptoEnvelopeView),
                        Seq<char>,
                    >((sources::opt(keys.0), keys.1@)),
                    Err(e) => crypto(m) == Err::<
                        (Option<Seq<char>>, CryptoEnvelopeView),
                        Seq<char>,
                    >(e.0@),
                },
    {
        let master = match self.value("sutra.crypto.master-key", "SUTRA_CRYPTO_MASTER_KEY") {
            Ok(v) => v,
            Err(e) => {
                return Err(e);
            },
        };
        let enabled = match self.flag_key(
            "sutra.crypto.envelope.enabled",
            "SUTRA_CRYPTO_ENVELOPE_ENABLED",
            false,
        ) {
            Ok(b) => b,
            Err(e) => {
                return Err(e);
            },
        };
        let kek_ref = match self.nonblank_key(
            "sutra.crypto.envelope.kek",
            "SUTRA_CRYPTO_ENVELOPE_KEK",
        ) {
            Ok(v) => v,
            Err(e) => {
                return Err(e);
            },
        };
        if enabled {
            if master.is_some() {
                return Err(
                    ConfigError(
                        "sutra.crypto.envelope.enabled=true is mutually exclusive with sutra.crypto.master-key — set exactly one key source (the envelope KEK unwraps DEKs from the data_key store; the master key HKDF-derives them). Refusing to boot.".to_owned(),
                    ),
                );
            }
            if kek_ref.is_none() {
                return Err(
                    ConfigError(
                        "sutra.crypto.envelope.enabled=true requires sutra.crypto.envelope.kek (a secret:/env:/vault:/aws-secrets: reference to the key-encryption key). Refusing to boot.".to_owned(),
                    ),
                );
            }
        }
        Ok((master, CryptoEnvelopeConfig { enabled, kek_ref }))
    }

    fn audit(&self) -> (r: Result<AuditConfig, ConfigError>)
        requires
            self.ready(),
        ensures
            forall|m: Inputs| #[trigger] self.are(m) ==> viewed(r) == audit(m),
    {
        let jsonl_path = match self.value("sutra.audit.jsonl.path", "SUTRA_AUDIT_JSONL") {
            Ok(v) => v,
            Err(e) => {
                return Err(e);
            },
        };
        let otel_endpoint = match self.trimmed_key(
            "sutra.audit.otel.endpoint",
            "SUTRA_AUDIT_OTEL_ENDPOINT",
        ) {
            Ok(v) => v,
            Err(e) => {
                return Err(e);
            },
        };
        let sql = match self.flag_key("sutra.audit.sql", "SUTRA_AUDIT_SQL", false) {
            Ok(b) => b,
            Err(e) => {
                return Err(e);
            },
        };
        Ok(AuditConfig { jsonl_path, otel_endpoint, sql })
    }

    fn admin_auth(&self) -> (r: Result<AdminAuthConfig, ConfigError>)
        requires
            self.ready(),
        ensures
            forall|m: Inputs| #[trigger] self.are(m) ==> viewed(r) == admin_auth(m),
    {
        let issuer = match self.trimmed_key("sutra.admin.oidc.issuer", "SUTRA_ADMIN_OIDC_ISSUER") {
            Ok(v) => v,
            Err(e) => {
                return Err(e);
            },
        };
        let audience = match self.trimmed_key(
            "sutra.admin.oidc.audience",
            "SUTRA_ADMIN_OIDC_AUDIENCE",
        ) {
            Ok(v) => v,
            Err(e) => {
                return Err(e);
            },
        };
        let jwks = match self.nonblank_key("sutra.admin.oidc.jwks", "SUTRA_ADMIN_OIDC_JWKS") {
            Ok(v) => v,
            Err(e) => {
                return Err(e);
            },
        };
        let role_claim = match self.trimmed_key(
            "sutra.admin.oidc.role-claim",
            "SUTRA_ADMIN_OIDC_ROLE_CLAIM",
        ) {
            Ok(Some(v)) => v,
            Ok(None) => "roles".to_owned(),
            Err(e) => {
                return Err(e);
            },
        };
        let required_role = match self.trimmed_key(
            "sutra.admin.oidc.required-role",
            "SUTRA_ADMIN_OIDC_REQUIRED_ROLE",
        ) {
            Ok(Some(v)) => v,
            Ok(None) => "sutra-admin".to_owned(),
            Err(e) => {
                return Err(e);
            },
        };
        let dev_disabled = match self.flag_key(
            "sutra.admin.oidc.dev-disabled",
            "SUTRA_ADMIN_OIDC_DEV_DISABLED",
            false,
        ) {
            Ok(b) => b,
            Err(e) => {
                return Err(e);
            },
        };
        let auth_scheme = match self.trimmed_key(
            "sutra.admin.auth.scheme",
            "SUTRA_ADMIN_AUTH_SCHEME",
        ) {
            Ok(v) => v,
            Err(e) => {
                return Err(e);
            },
        };
        let auth_key_ref = match self.nonblank_key(
            "sutra.admin.auth.key-ref",
            "SUTRA_ADMIN_AUTH_KEY_REF",
        ) {
            Ok(v) => v,
            Err(e) => {
                return Err(e);
            },
        };
        let auth_header = match self.trimmed_key(
            "sutra.admin.auth.header",
            "SUTRA_ADMIN_AUTH_HEADER",
        ) {
            Ok(v) => v,
            Err(e) => {
                return Err(e);
            },
        };
        Ok(
            AdminAuthConfig {
                issuer,
                audience,
                jwks,
                role_claim,
                required_role,
                dev_disabled,
                auth_scheme,
                auth_key_ref,
                auth_header,
            },
        )
    }
}

impl EngineConfig {
    /// The defaults of every key, with no deployments source. The pull surface's own defaults are
    /// the caller's.
    pub fn defaults(limits: ExternalTaskLimits) -> (r: EngineConfig)
        ensures
            r@.deployment_source == DeploymentSourceKind::Dir,
            r@.deployments_dir is None,
            r@.deployments_poll_interval == Duration::of_secs(2),
            r@.http_port == 8080,
            r@.datasource_url is None,
            r@.datasource_username is None,
            r@.datasource_password is None,
            r@.crypto_master_key is None,
            r@.crypto_envelope == (CryptoEnvelopeView { enabled: false, kek_ref: None }),
            !r@.incident_sql,
            r@.outbox_tick_interval == Duration::of_secs(5),
            r@.outbox_retry == retry_defaults(),
            r@.deferred_ack == ack_defaults(),
            r@.external_task == limits,
            r@.instance_sweep == sweep_defaults(),
            r@.engine_shards == shard_defaults(),
            r@.instance_retention == retention_defaults(),
            r@.payload_cap_bytes == DEFAULT_MAX_PAYLOAD_BYTES,
            r@.rls_bypass_check_enabled,
            r@.audit == (AuditView { jsonl_path: None, otel_endpoint: None, sql: false }),
            !r@.telemetry.active(),
            r@.admin_auth == admin_defaults(),
            r@.now_override is None,
    {
        EngineConfig {
            deployment_source: DeploymentSourceKind::Dir,
            deployments_dir: None,
            deployments_poll_interval: Duration::from_secs(2),
            http_port: 8080,
            datasource_url: None,
            datasource_username: None,
            datasource_password: None,
            crypto_master_key: None,
            crypto_envelope: CryptoEnvelopeConfig::default(),
            incident_sql: false,
            outbox_tick_interval: Duration::from_secs(5),
            outbox_retry: RetryConfig::default(),
            deferred_ack: DeferredAckConfig::default(),
            external_task: limits,
            instance_sweep: StuckInstanceScannerConfig::default(),
            engine_shards: EngineShardConfig::default(),
            instance_retention: TerminalRetentionConfig::default(),
            payload_cap_bytes: DEFAULT_MAX_PAYLOAD_BYTES,
            rls_bypass_check_enabled: true,
            audit: AuditConfig::default(),
            telemetry: TelemetryConfig::default(),
            admin_auth: AdminAuthConfig::default(),
            now_override: None,
        }
    }

    /// Resolve the configuration from explicit sources. `limits` are the pull surface's own
    /// defaults.
    #[verifier::rlimit(60)]
    pub fn from_sources<
        'a,
        E: Fn(&str) -> Option<String>,
        R: Fn(&str) -> Result<String, String>,
        M: Fn(&str, u64) -> Option<u64>,
    >(from: &Sources<'a, E, R, M>, limits: ExternalTaskLimits) -> (r: Result<
        EngineConfig,
        ConfigError,
    >)
        requires
            from.ready(),
        ensures
            forall|m: Inputs| #[trigger] from.are(m) ==> viewed(r) == engine_config(m, limits),
    {
        let deployment_source = match from.source_kind() {
            Ok(v) => v,
            Err(e) => {
                return Err(e);
            },
        };
        let deployments_dir = match from.archive_dir(deployment_source) {
            Ok(v) => v,
            Err(e) => {
                return Err(e);
            },
        };
        let deployments_poll_interval = match from.duration_key(
            "sutra.deployments.poll-interval",
            "SUTRA_DEPLOYMENTS_POLL_INTERVAL",
            Duration::from_secs(2),
        ) {
            Ok(v) => v,
            Err(e) => {
                return Err(e);
            },
        };
        let http_port: u16 = match from.port() {
            Ok(v) => v,
            Err(e) => {
                return Err(e);
            },
        };
        let outbox_tick_interval = match from.duration_key(
            "sutra.outbox.tick-interval",
            "SUTRA_OUTBOX_TICK_INTERVAL",
            Duration::from_secs(5),
        ) {
            Ok(v) => v,
            Err(e) => {
                return Err(e);
            },
        };
        let outbox_retry = match parse_retry(from, "outbox", "OUTBOX", RetryConfig::default()) {
            Ok(v) => v,
            Err(e) => {
                return Err(e);
            },
        };
        let deferred_ack = match from.deferred_ack() {
            Ok(v) => v,
            Err(e) => {
                return Err(e);
            },
        };
        let external_task = match from.external_task(limits) {
            Ok(v) => v,
            Err(e) => {
                return Err(e);
            },
        };
        let instance_sweep = match from.instance_sweep() {
            Ok(v) => v,
            Err(e) => {
                return Err(e);
            },
        };
        let engine_shards = match from.engine_shards() {
            Ok(v) => v,
            Err(e) => {
                return Err(e);
            },
        };
        let instance_retention = match from.instance_retention() {
            Ok(v) => v,
            Err(e) => {
                return Err(e);
            },
        };
        let payload_cap_bytes: u64 = match from.payload_cap() {
            Ok(v) => v,
            Err(e) => {
                return Err(e);
            },
        };
        let rls_bypass_check_enabled = match from.flag_key(
            "sutra.persistence.rls-bypass-check.enabled",
            "SUTRA_PERSISTENCE_RLS_BYPASS_CHECK_ENABLED",
            true,
        ) {
            Ok(v) => v,
            Err(e) => {
                return Err(e);
            },
        };
        let (crypto_master_key, crypto_envelope) = match from.crypto() {
            Ok(v) => v,
            Err(e) => {
                return Err(e);
            },
        };
        let incident_sql = match from.flag_key("sutra.incident.sql", "SUTRA_INCIDENT_SQL", false) {
            Ok(v) => v,
            Err(e) => {
                return Err(e);
            },
        };
        let datasource_url = match from.value("sutra.datasource.url", "SUTRA_DATASOURCE_URL") {
            Ok(v) => v,
            Err(e) => {
                return Err(e);
            },
        };
        let datasource_username = match from.value(
            "sutra.datasource.username",
            "SUTRA_DATASOURCE_USERNAME",
        ) {
            Ok(v) => v,
            Err(e) => {
                return Err(e);
            },
        };
        let datasource_password = match from.value(
            "sutra.datasource.password",
            "SUTRA_DATASOURCE_PASSWORD",
        ) {
            Ok(v) => v,
            Err(e) => {
                return Err(e);
            },
        };
        let audit = match from.audit() {
            Ok(v) => v,
            Err(e) => {
                return Err(e);
            },
        };
        let telemetry = TelemetryConfig::from_sources(from);
        let admin_auth = match from.admin_auth() {
            Ok(v) => v,
            Err(e) => {
                return Err(e);
            },
        };
        Ok(
            EngineConfig {
                deployment_source,
                deployments_dir,
                deployments_poll_interval,
                http_port,
                datasource_url,
                datasource_username,
                datasource_password,
                crypto_master_key,
                crypto_envelope,
                incident_sql,
                outbox_tick_interval,
                outbox_retry,
                deferred_ack,
                external_task,
                instance_sweep,
                engine_shards,
                instance_retention,
                payload_cap_bytes,
                rls_bypass_check_enabled,
                audit,
                telemetry,
                admin_auth,
                now_override: None,
            },
        )
    }
}

} // verus!
