//! What contracts speak of when they speak of a value: its fields, each as itself.

use vstd::prelude::*;

use crate::admin::{AdminKeyGate, OidcVerifier};
use crate::assembly::{DeploymentPlan, OutboundChannel, PlannedRules, PlannedStores, StoreBinding};
use crate::config::{AdminAuthConfig, AuditConfig, EngineConfig};
use crate::deploy::ArchiveFile;
use crate::diag::Diagnostic;
use crate::graph::NodeShape;
use crate::metrics::{CoverageMeta, CoverageState};
use crate::migrate::MigrationPlan;
use crate::otel::TelemetryConfig;
use crate::schedules::TimerScheduleArming;
use crate::sources;
use crate::status::DeploymentStatusSnapshot;
use crate::text;
use crate::transports::{ChannelDefinition, Namespace};

verus! {

/// What contracts say of an `AdminKeyGate` is what its fields hold.
pub proof fn admin_key_gate_is_its_fields(x: AdminKeyGate)
    ensures
        x@.scheme == x.scheme,
        x@.header == x.header@,
        x@.expected == x.expected@,
{
}

/// What contracts say of an `OidcVerifier` is what its fields hold.
pub proof fn oidc_verifier_is_its_fields(x: OidcVerifier)
    ensures
        x@.issuer == x.issuer@,
        x@.audience == x.audience@,
        x@.role_claim == x.role_claim@,
        x@.required_role == x.required_role@,
{
}

/// What contracts say of an `OutboundChannel` is what its fields hold.
pub proof fn outbound_channel_is_its_fields(x: OutboundChannel)
    ensures
        x@.name == x.name@,
        x@.transport == x.transport@,
        x@.destination == x.destination@,
        x@.auth_scheme == sources::opt(x.auth_scheme),
        x@.secret_ref == sources::opt(x.secret_ref),
        x@.header == sources::opt(x.header),
        x@.cloud_events_mode == x.cloud_events_mode@,
{
}

/// What contracts say of a `StoreBinding` is what its fields hold.
pub proof fn store_binding_is_its_fields(x: StoreBinding)
    ensures
        x@.name == x.name@,
        x@.dialect == x.dialect,
        x@.migrations == text::texts(x.migrations@),
{
}

/// What contracts say of a `DeploymentPlan` is what its fields hold.
pub proof fn deployment_plan_is_its_fields(x: DeploymentPlan)
    ensures
        x@.dep == x.dep@,
        x@.namespace == x.namespace@,
        x@.modules == x.modules@,
        x@.templates == text::pairs(x.templates@),
        x@.scripts == text::pairs(x.scripts@),
        x@.decisions == text::pairs(x.decisions@),
        x@.srl_validators == text::pairs(x.srl_validators@),
        x@.redactors == text::pairs(x.redactors@),
        x@.codec_bundles == text::pairs(x.codec_bundles@),
        x@.coverage == x.coverage,
        x@.coverage_fault == sources::opt(x.coverage_fault),
        x@.openapi_spec == x.openapi_spec@,
{
}

/// What contracts say of a `PlannedRules` is what its fields hold.
pub proof fn planned_rules_is_its_fields(x: PlannedRules)
    ensures
        x@.decisions == text::pairs(x.decisions@),
        x@.srl == text::pairs(x.srl@),
{
}

/// What contracts say of a `PlannedStores` is what its fields hold.
pub proof fn planned_stores_is_its_fields(x: PlannedStores)
    ensures
        x@.coverage == x.coverage,
        x@.fault == sources::opt(x.fault),
{
}

/// What contracts say of an `AuditConfig` is what its fields hold.
pub proof fn audit_config_is_its_fields(x: AuditConfig)
    ensures
        x@.jsonl_path == sources::opt(x.jsonl_path),
        x@.otel_endpoint == sources::opt(x.otel_endpoint),
        x@.sql == x.sql,
{
}

/// What contracts say of an `AdminAuthConfig` is what its fields hold.
pub proof fn admin_auth_config_is_its_fields(x: AdminAuthConfig)
    ensures
        x@.issuer == sources::opt(x.issuer),
        x@.audience == sources::opt(x.audience),
        x@.jwks == sources::opt(x.jwks),
        x@.role_claim == x.role_claim@,
        x@.required_role == x.required_role@,
        x@.dev_disabled == x.dev_disabled,
        x@.auth_scheme == sources::opt(x.auth_scheme),
        x@.auth_key_ref == sources::opt(x.auth_key_ref),
        x@.auth_header == sources::opt(x.auth_header),
{
}

/// What contracts say of an `EngineConfig` is what its fields hold.
pub proof fn engine_config_is_its_fields(x: EngineConfig)
    ensures
        x@.deployment_source == x.deployment_source,
        x@.deployments_dir == sources::opt(x.deployments_dir),
        x@.deployments_poll_interval == x.deployments_poll_interval,
        x@.http_port == x.http_port,
        x@.datasource_url == sources::opt(x.datasource_url),
        x@.datasource_username == sources::opt(x.datasource_username),
        x@.datasource_password == sources::opt(x.datasource_password),
        x@.crypto_master_key == sources::opt(x.crypto_master_key),
        x@.crypto_envelope == x.crypto_envelope@,
        x@.incident_sql == x.incident_sql,
        x@.outbox_tick_interval == x.outbox_tick_interval,
        x@.outbox_retry == x.outbox_retry,
        x@.deferred_ack == x.deferred_ack,
        x@.external_task == x.external_task,
        x@.instance_sweep == x.instance_sweep,
        x@.engine_shards == x.engine_shards,
        x@.instance_retention == x.instance_retention,
        x@.payload_cap_bytes == x.payload_cap_bytes,
        x@.rls_bypass_check_enabled == x.rls_bypass_check_enabled,
        x@.audit == x.audit@,
        x@.telemetry == x.telemetry@,
        x@.admin_auth == x.admin_auth@,
        x@.now_override == x.now_override,
{
}

/// What contracts say of an `ArchiveFile` is what its fields hold.
pub proof fn archive_file_is_its_fields(x: ArchiveFile)
    ensures
        x@.stamp == x.stamp,
        x@.current == sources::opt(x.current),
        x@.last_error == sources::opt(x.last_error),
{
}

/// What contracts say of a `Diagnostic` is what its fields hold.
pub proof fn diagnostic_is_its_fields(x: Diagnostic)
    ensures
        x@.code == x.code,
        x@.message == x.message@,
{
}

/// What contracts say of a `NodeShape` is what its fields hold.
pub proof fn node_shape_is_its_fields(x: NodeShape)
    ensures
        x@.construct == x.construct@,
        x@.relay_resumable == x.relay_resumable,
        x@.timer_capable == x.timer_capable,
        x@.retryable_task == x.retryable_task,
        x@.continue_reply == x.continue_reply,
        x@.start_event == x.start_event,
{
}

/// What contracts say of a `CoverageMeta` is what its fields hold.
pub proof fn coverage_meta_is_its_fields(x: CoverageMeta)
    ensures
        x@.deployment_id == x.deployment_id@,
        x@.process_id == x.process_id@,
        x@.declared_paths == text::texts(x.declared_paths@),
        x@.tenant == sources::opt(x.tenant),
        x@.module == sources::opt(x.module),
        x@.version == sources::opt(x.version),
{
}

/// What contracts say of a `CoverageState` is what its fields hold.
pub proof fn coverage_state_is_its_fields(x: CoverageState)
    ensures
        x@.deployment_id == x.deployment_id@,
        x@.process_id == x.process_id@,
        x@.declared_paths == text::texts(x.declared_paths@),
        x@.covered == x.covered@,
{
}

/// What contracts say of a `MigrationPlan` is what its fields hold.
pub proof fn migration_plan_is_its_fields(x: MigrationPlan)
    ensures
        x@.mapping == x.mapping@,
        x@.target_process_id == sources::opt(x.target_process_id),
        x@.dry_run == x.dry_run,
        x@.resume == x.resume,
{
}

/// What contracts say of a `TelemetryConfig` is what its fields hold.
pub proof fn telemetry_config_is_its_fields(x: TelemetryConfig)
    ensures
        x@.otlp_endpoint == sources::opt(x.otlp_endpoint),
        x@.service_name == x.service_name@,
        x@.metrics_temporality == x.metrics_temporality,
        x@.metrics_export_interval_ms == x.metrics_export_interval_ms,
        x@.metric_labels == text::texts(x.metric_labels@),
        x@.enabled == x.enabled,
        x@.warnings == text::texts(x.warnings@),
{
}

/// What contracts say of a `TimerScheduleArming` is what its fields hold.
pub proof fn timer_schedule_arming_is_its_fields(x: TimerScheduleArming)
    ensures
        x@.process_id == x.process_id@,
        x@.node_id == x.node_id@,
        x@.tenant == x.tenant@,
        x@.module_key == x.module_key@,
        x@.kind == x.kind@,
        x@.spec == x.spec@,
        x@.next_due_at == x.next_due_at,
        x@.remaining_fires == x.remaining_fires,
{
}

/// What contracts say of a `DeploymentStatusSnapshot` is what its fields hold.
pub proof fn deployment_status_snapshot_is_its_fields(x: DeploymentStatusSnapshot)
    ensures
        x@.active == text::pairs(x.active@),
        x@.pending == text::pairs(x.pending@),
        x@.draining == text::texts(x.draining@),
        x@.failed == text::pairs(x.failed@),
{
}

/// What contracts say of a `Namespace` is what its fields hold.
pub proof fn namespace_is_its_fields(x: Namespace)
    ensures
        x@.tenant == x.tenant@,
        x@.module == x.module@,
        x@.version == x.version@,
{
}

/// What contracts say of a `ChannelDefinition` is what its fields hold.
pub proof fn channel_definition_is_its_fields(x: ChannelDefinition)
    ensures
        x@.channel_name == x.channel_name@,
        x@.namespace == x.namespace@,
        x@.deployment == x.deployment@,
        x@.outbound == x.outbound,
        x@.transport == sources::opt(x.transport),
        x@.bind_spec == sources::opt(x.bind_spec),
        x@.auth_scheme == sources::opt(x.auth_scheme),
        x@.cloud_events_mode == sources::opt(x.cloud_events_mode),
        x@.on_complete_ack == x.on_complete_ack,
        x@.properties == x.properties@,
{
}

} // verus!
