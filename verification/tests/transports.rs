//! Transport governance, in-process routing and data stores.

use sutra_engine::keyed::{TextMap, TextSet};
use sutra_engine::stores::{
    archive_migrations, build_store_backend, datastore_dialect, resolve_projected_store,
    ProjectedColumn, ProjectionAnswer, StoreDefinition, StoreDialect, StructureRef,
};
use sutra_engine::transports::{
    allowed_transports, expand_local_destination, reject_disallowed_transports, ChannelDefinition,
    Namespace,
};

fn channel(name: &str, transport: Option<&str>) -> ChannelDefinition {
    ChannelDefinition {
        channel_name: name.to_string(),
        namespace: Namespace {
            tenant: "acme".to_string(),
            module: "pay".to_string(),
            version: "v1".to_string(),
        },
        deployment: String::new(),
        outbound: false,
        transport: transport.map(str::to_string),
        bind_spec: None,
        auth_scheme: None,
        cloud_events_mode: None,
        on_complete_ack: false,
        properties: TextMap::new(),
    }
}

fn allowed(items: &[&str]) -> TextSet {
    let mut s = TextSet::new();
    for item in items {
        s.insert(item.to_string());
    }
    s
}

const DEP: &str = "dep-0000000000000000000000a2";

#[test]
fn a_permitted_transport_passes() {
    let defs = vec![channel("in", Some("file")), channel("out", Some("http"))];
    assert!(reject_disallowed_transports(&defs, &allowed(&["file", "http"]), DEP).is_ok());
}

#[test]
fn a_forbidden_transport_is_rejected_closed() {
    // A hardened (file-only) engine must reject a kafka channel, not silently drop it.
    let defs = vec![channel("pay", Some("kafka"))];
    let message = reject_disallowed_transports(&defs, &allowed(&["file"]), DEP)
        .expect_err("a non-permitted transport must fail the deployment closed");
    assert!(message.contains("kafka"), "{message}");
    assert!(message.contains("not permitted"), "{message}");
}

#[test]
fn a_channel_without_a_declared_transport_is_left_to_the_existing_checks() {
    let defs = vec![channel("in", None)];
    assert!(reject_disallowed_transports(&defs, &allowed(&[]), DEP).is_ok());
}

#[test]
fn local_transport_is_always_permitted() {
    // Even a hardened file-only engine must permit in-process routing.
    let defs = vec![channel("demoflow-in", Some("local"))];
    assert!(reject_disallowed_transports(&defs, &allowed(&["file"]), DEP).is_ok());
}

#[test]
fn a_bare_local_bind_expands_to_the_qualified_in_process_destination() {
    assert_eq!(
        expand_local_destination("local://demoflow-in", "acme/demoflow/1.0.0"),
        "local://acme/demoflow/1.0.0/demoflow-in"
    );
    // An already-qualified local path is left verbatim.
    assert_eq!(
        expand_local_destination(
            "local://acme/demoflow/1.0.0/demoflow-in",
            "acme/demoflow/1.0.0"
        ),
        "local://acme/demoflow/1.0.0/demoflow-in"
    );
    // A non-local destination is untouched.
    assert_eq!(
        expand_local_destination("https://host/cb", "acme/demoflow/1.0.0"),
        "https://host/cb"
    );
}

#[test]
fn expanding_a_destination_again_changes_nothing() {
    let once = expand_local_destination("local://in", "a/b/c");
    assert_eq!(expand_local_destination(&once, "a/b/c"), once);
    assert_eq!(expand_local_destination(&once, "x/y/z"), once);
}

#[test]
fn a_list_narrows_the_bundled_transports() {
    let bundled = vec!["file".to_string(), "http".to_string(), "kafka".to_string()];
    let all = allowed_transports(&bundled, &None);
    assert!(all.contains("kafka") && all.contains("http") && all.contains("file"));
    let some = allowed_transports(&bundled, &Some(" file , amqp".to_string()));
    assert!(some.contains("file"));
    assert!(!some.contains("kafka"), "not listed");
    assert!(!some.contains("amqp"), "not bundled");
}

// ---- stores -------------------------------------------------------------------------------------

#[test]
fn dialect_is_selected_by_url_scheme() {
    for url in ["postgres://h/db", "postgresql://h/db", "postgresql://h:5432/db"] {
        assert_eq!(datastore_dialect(url).unwrap(), StoreDialect::Postgres, "{url}");
    }
    for url in ["mysql://h/db", "mysql://h:3306/db", "mariadb://h/db"] {
        assert_eq!(datastore_dialect(url).unwrap(), StoreDialect::Mysql, "{url}");
    }
    for url in ["mssql://h/db", "sqlserver://h;database=db"] {
        assert_eq!(datastore_dialect(url).unwrap(), StoreDialect::Mssql, "{url}");
    }
}

#[test]
fn unsupported_scheme_fails_closed() {
    assert!(datastore_dialect("mongodb://h/db").is_err());
    assert!(datastore_dialect("cassandra:mem:test").is_err());
    // A definition with no resolvable connection is an error, not a silent default.
    assert!(build_store_backend("no-conn", &Ok(None), &Ok(())).is_err());
}

#[test]
fn a_store_that_cannot_be_opened_is_an_error() {
    let url = Ok(Some("mysql://h/db".to_string()));
    assert_eq!(build_store_backend("s", &url, &Ok(())).unwrap(), StoreDialect::Mysql);
    let err = build_store_backend("s", &url, &Err("refused".to_string())).unwrap_err();
    assert!(err.contains("refused"), "{err}");
    let err = build_store_backend("s", &Err("no secret".to_string()), &Ok(())).unwrap_err();
    assert!(err.contains("no secret"), "{err}");
}

fn structure(declared_type: &str) -> StructureRef {
    StructureRef {
        schema: "urn:accounts".to_string(),
        declared_type: declared_type.to_string(),
    }
}

fn provided() -> Vec<String> {
    vec!["accounts".to_string()]
}

fn column(field: &str, column: &str, nullable: bool) -> ProjectedColumn {
    ProjectedColumn { field: field.to_string(), column: column.to_string(), nullable }
}

fn account_columns() -> ProjectionAnswer {
    ProjectionAnswer::Columns(vec![
        column("accountId", "account_id", false),
        column("balance", "balance", false),
        column("openedAt", "opened_at", true),
    ])
}

#[test]
fn a_flat_structure_resolves_to_its_column_projection() {
    let projected = resolve_projected_store(
        &provided(),
        &store_def("accounts", None),
        &structure("AccountRecord"),
        &account_columns(),
    )
    .expect("a flat type projects");
    assert_eq!(projected.table, "accounts", "table defaults to the store");
    assert_eq!(
        projected.columns.iter().map(|c| c.column.as_str()).collect::<Vec<_>>(),
        vec!["account_id", "balance", "opened_at"],
        "declared order, lowerCamel folded to snake_case"
    );
    assert!(
        projected.columns.iter().find(|c| c.field == "openedAt").unwrap().nullable,
        "minOccurs=0 is a nullable column"
    );
}

#[test]
fn sql_table_overrides_the_physical_table() {
    let projected = resolve_projected_store(
        &provided(),
        &store_def("accounts", Some("ledger_rows")),
        &structure("AccountRecord"),
        &account_columns(),
    )
    .expect("projects");
    assert_eq!(projected.table, "ledger_rows");
}

#[test]
fn a_non_flat_structure_is_a_fail_closed_deploy_error() {
    let err = resolve_projected_store(
        &provided(),
        &store_def("accounts", None),
        &structure("NestedRecord"),
        &ProjectionAnswer::NotProjectable(
            "STRUCTURE_NOT_FLAT".to_string(),
            "address, tag".to_string(),
        ),
    )
    .expect_err("nested + repeated content cannot be projected");
    assert!(err.contains("STRUCTURE_NOT_FLAT"), "{err}");
    assert!(err.contains("address"), "{err}");
    assert!(err.contains("tag"), "{err}");
}

#[test]
fn an_unknown_schema_or_type_is_a_fail_closed_deploy_error() {
    let err = resolve_projected_store(
        &provided(),
        &store_def("accounts", None),
        &StructureRef {
            schema: "urn:nowhere".to_string(),
            declared_type: "AccountRecord".to_string(),
        },
        &ProjectionAnswer::Columns(vec![]),
    )
    .expect_err("an unresolvable schema refuses the deploy");
    assert!(err.contains("no XSD codec"), "{err}");

    let err = resolve_projected_store(
        &provided(),
        &store_def("accounts", None),
        &structure("Nope"),
        &ProjectionAnswer::UnknownType,
    )
    .expect_err("an unresolvable type refuses the deploy");
    assert!(err.contains("neither as a type nor as a root element"), "{err}");
}

#[test]
fn a_schema_that_does_not_compile_or_serve_refuses_the_store() {
    let err = resolve_projected_store(
        &provided(),
        &store_def("accounts", None),
        &structure("T"),
        &ProjectionAnswer::Uncompilable("bad facet".to_string()),
    )
    .unwrap_err();
    assert!(err.contains("does not compile: bad facet"), "{err}");
    let err = resolve_projected_store(
        &provided(),
        &store_def("accounts", None),
        &structure("T"),
        &ProjectionAnswer::Unusable("no table".to_string()),
    )
    .unwrap_err();
    assert_eq!(err, "no table");
}

fn store_def(name: &str, table: Option<&str>) -> StoreDefinition {
    let mut properties = TextMap::new();
    properties.insert("sql.url".to_string(), "postgres://h/db".to_string());
    if let Some(table) = table {
        properties.insert("sql.table".to_string(), table.to_string());
    }
    StoreDefinition {
        name: name.to_string(),
        store_type: "sql".to_string(),
        properties,
        structure: None,
    }
}

#[test]
fn a_store_without_a_structure_carries_no_projection() {
    let def = store_def("accounts", None);
    assert!(def.structure.is_none());
    let url = Ok(def.properties.get("sql.url").cloned());
    let backend = build_store_backend(&def.name, &url, &Ok(())).expect("builds");
    assert_eq!(backend, StoreDialect::Postgres);
}

#[test]
fn a_store_without_archived_migrations_has_none() {
    let got = archive_migrations("dep-1", &TextMap::new(), &store_def("accounts", None));
    assert_eq!(got.unwrap(), Vec::<String>::new());
}
