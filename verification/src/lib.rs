pub mod activation;
pub mod admin;
pub mod admin_laws;
pub mod assembly;
pub mod assembly_laws;
pub mod audit;
pub mod base64;
pub mod batch;
pub mod bridge;
pub mod concurrency;
pub mod config;
pub mod config_laws;
pub mod deploy;
pub mod deploy_laws;
pub mod diag;
pub mod duration;
pub mod endings;
pub mod engine;
pub mod engine_laws;
pub mod external_task;
pub mod graph;
pub mod instance_laws;
pub mod instances;
pub mod json;
pub mod keyed;
pub mod lanes;
pub mod lifecycle;
pub mod lifecycle_laws;
pub mod metrics;
pub mod migrate;
pub mod migrate_laws;
pub mod otel;
pub mod outside;
pub mod parking;
pub mod parking_laws;
pub mod plan_laws;
pub mod registries;
pub mod report_laws;
pub mod schedules;
pub mod setting_laws;
pub mod signal_laws;
pub mod sources;
pub mod status;
pub mod status_laws;
pub mod store_laws;
pub mod stores;
pub mod task_laws;
pub mod telemetry;
pub mod text;
pub mod text_laws;
pub mod transports;
pub mod view_laws;
