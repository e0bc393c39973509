//! Module-owned data stores: the dialect a connection names, the migrations a package carries, and
//! the structures that rows are projected from.

use vstd::prelude::*;

use crate::keyed;
use crate::keyed::TextMap;
use crate::sources;
use crate::text;

verus! {

/// The name of the reserved coverage store.
pub const COVERAGE_STORE_NAME: &'static str = "coverage";

/// The connection dialects.
#[derive(Debug, Clone, Copy, PartialEq, Eq, Structural)]
pub enum StoreDialect {
    Postgres,
    Mysql,
    Mssql,
}

/// A type that a store's rows are projected from.
pub struct StructureRef {
    pub schema: String,
    pub declared_type: String,
}

/// A declared data store.
pub struct StoreDefinition {
    pub name: String,
    pub store_type: String,
    pub properties: TextMap<String>,
    pub structure: Option<StructureRef>,
}

// ---- the dialect -------------------------------------------------------------------------------

/// The scheme of a connection URL: what stands before the first colon or slash, in lower case.
pub open spec fn connection_scheme(url: Seq<char>) -> Seq<char> {
    let colon = text::first_at(url, ':');
    let slash = text::first_at(url, '/');
    text::lowered(
        url.take(
            if colon < slash {
                colon
            } else {
                slash
            },
        ),
    )
}

/// The dialect that a connection URL names.
pub open spec fn dialect(url: Seq<char>) -> Result<StoreDialect, Seq<char>> {
    let scheme = connection_scheme(url);
    if scheme == "postgres"@ || scheme == "postgresql"@ {
        Ok(StoreDialect::Postgres)
    } else if scheme == "mysql"@ || scheme == "mariadb"@ {
        Ok(StoreDialect::Mysql)
    } else if scheme == "sqlserver"@ || scheme == "mssql"@ {
        Ok(StoreDialect::Mssql)
    } else {
        Err(
            "unsupported data-store connection scheme '"@ + scheme
                + "' (expected one of postgres/postgresql, mysql/mariadb, sqlserver/mssql)"@,
        )
    }
}

/// Classify a connection URL by its scheme.
pub fn datastore_dialect(url: &str) -> (r: Result<StoreDialect, String>)
    ensures
        match r {
            Ok(d) => dialect(url@) == Ok::<StoreDialect, Seq<char>>(d),
            Err(e) => dialect(url@) == Err::<StoreDialect, Seq<char>>(e@),
        },
{
    let chars = text::chars_of(url);
    let colon: usize = text::find_char(&chars, ':');
    let slash: usize = text::find_char(&chars, '/');
    proof {
        text::first_at_is_least(url@, ':');
        text::first_at_is_least(url@, '/');
    }
    let end: usize = if colon < slash {
        colon
    } else {
        slash
    };
    let head = text::text_of(&chars, 0, end);
    assert(head@ =~= url@.take(end as int));
    let scheme = text::to_lower(&head);
    if text::same(&scheme, "postgres") || text::same(&scheme, "postgresql") {
        Ok(StoreDialect::Postgres)
    } else if text::same(&scheme, "mysql") || text::same(&scheme, "mariadb") {
        Ok(StoreDialect::Mysql)
    } else if text::same(&scheme, "sqlserver") || text::same(&scheme, "mssql") {
        Ok(StoreDialect::Mssql)
    } else {
        Err(
            text::text3(
                "unsupported data-store connection scheme '",
                &scheme,
                "' (expected one of postgres/postgresql, mysql/mariadb, sqlserver/mssql)",
            ),
        )
    }
}

/// The dialect under which a store is opened. `url` is what its connection resolved to, `opened`
/// what opening it there answered.
pub open spec fn backend(
    name: Seq<char>,
    url: Result<Option<Seq<char>>, Seq<char>>,
    opened: Result<(), Seq<char>>,
) -> Result<StoreDialect, Seq<char>> {
    match url {
        Err(e) => Err(e),
        Ok(url) => if url is None || text::trimmed(url->0).len() == 0 {
            Err(
                "data store '"@ + name
                    + "' declares no usable connection in datastores.yaml (sql.url + credentials, or *-ref pointing at a set env var)"@,
            )
        } else {
            match dialect(url->0) {
                Err(e) => Err(e),
                Ok(d) => match opened {
                    Err(e) => Err(e),
                    Ok(_) => Ok(d),
                },
            }
        },
    }
}

/// What the answer about a connection holds.
pub open spec fn url_answer(r: Result<Option<String>, String>) -> Result<
    Option<Seq<char>>,
    Seq<char>,
> {
    match r {
        Ok(u) => Ok(sources::opt(u)),
        Err(e) => Err(e@),
    }
}

/// What an answer without a value holds.
pub open spec fn unit_answer(r: Result<(), String>) -> Result<(), Seq<char>> {
    match r {
        Ok(_) => Ok(()),
        Err(e) => Err(e@),
    }
}

/// Pick the dialect of a store's connection, and pass on what opening it answered.
pub fn build_store_backend(
    name: &str,
    url: &Result<Option<String>, String>,
    opened: &Result<(), String>,
) -> (r: Result<StoreDialect, String>)
    ensures
        match r {
            Ok(d) => backend(name@, url_answer(*url), unit_answer(*opened)) == Ok::<
                StoreDialect,
                Seq<char>,
            >(d),
            Err(e) => backend(name@, url_answer(*url), unit_answer(*opened)) == Err::<
                StoreDialect,
                Seq<char>,
            >(e@),
        },
{
    let found = match url {
        Err(e) => {
            return Err(e.clone());
        },
        Ok(u) => u,
    };
    match found {
        Some(u) => {
            if !text::trim(u).as_str().is_empty() {
                let d = match datastore_dialect(u) {
                    Ok(d) => d,
                    Err(e) => {
                        return Err(e);
                    },
                };
                return match opened {
                    Ok(_) => Ok(d),
                    Err(e) => Err(e.clone()),
                };
            }
        },
        None => {},
    }
    Err(
        text::text3(
            "data store '",
            name,
            "' declares no usable connection in datastores.yaml (sql.url + credentials, or *-ref pointing at a set env var)",
        ),
    )
}

// ---- migrations --------------------------------------------------------------------------------

/// `s` without the slashes at its end.
pub open spec fn unslashed(s: Seq<char>) -> Seq<char>
    decreases s.len(),
{
    if s.len() > 0 && s.last() == '/' {
        unslashed(s.drop_last())
    } else {
        s
    }
}

/// The scripts under a folder, in the order of their paths.
pub open spec fn scripts_under(
    migrations: Seq<(Seq<char>, Seq<char>)>,
    prefix: Seq<char>,
) -> Seq<Seq<char>>
    decreases migrations.len(),
{
    if migrations.len() == 0 {
        Seq::empty()
    } else {
        let rest = scripts_under(migrations.drop_last(), prefix);
        let last = migrations.last();
        if text::begins(last.0, prefix) && text::finishes(last.0, ".sql"@) {
            rest.push(last.1)
        } else {
            rest
        }
    }
}

/// The migrations of a store from those that its package carries.
pub open spec fn package_migrations(
    dep: Seq<char>,
    migrations: Seq<(Seq<char>, Seq<char>)>,
    def: StoreDefinition,
) -> Result<Seq<Seq<char>>, Seq<char>> {
    match keyed::lookup(def.properties@, "sql.migrations"@) {
        None => Ok(Seq::empty()),
        Some(rel) => if text::trimmed(rel).len() == 0 {
            Ok(Seq::empty())
        } else if !text::begins(text::trimmed(rel), "migrations/"@) {
            Err(
                "data store '"@ + def.name@ + "' of deployment "@ + dep
                    + " declares migrations at '"@ + rel
                    + "'; a sealed archive requires the canonical 'migrations/<store>' form"@,
            )
        } else {
            let dir = text::trimmed(rel).skip("migrations/"@.len() as int);
            let scripts = scripts_under(migrations, unslashed(dir) + "/"@);
            if scripts.len() == 0 {
                Err(
                    "data store '"@ + def.name@ + "' of deployment "@ + dep
                        + " declares migrations at '"@ + rel
                        + "' but the archive carries no scripts under it"@,
                )
            } else {
                Ok(scripts)
            }
        },
    }
}

/// Drop the slashes at the end of a path.
fn without_end_slashes(s: &str) -> (r: String)
    ensures
        r@ == unslashed(s@),
{
    let chars = text::chars_of(s);
    let mut end: usize = chars.len();
    assert(s@.take(end as int) =~= s@);
    while end > 0 && chars[end - 1] == '/'
        invariant
            end <= chars.len(),
            chars@ == s@,
            unslashed(s@) == unslashed(s@.take(end as int)),
        decreases end,
    {
        assert(s@.take(end as int).drop_last() =~= s@.take(end - 1));
        end = end - 1;
    }
    assert(end == 0 || s@.take(end as int).last() == s@[end - 1]);
    let r = text::text_of(&chars, 0, end);
    assert(r@ =~= s@.take(end as int));
    r
}

/// The migrations of a store from the `migrations/**` that a sealed archive carries, keyed by their
/// paths below that folder.
pub fn archive_migrations(
    dep: &str,
    migrations: &TextMap<String>,
    def: &StoreDefinition,
) -> (r: Result<Vec<String>, String>)
    ensures
        match r {
            Ok(v) => package_migrations(dep@, migrations@, *def) == Ok::<
                Seq<Seq<char>>,
                Seq<char>,
            >(text::texts(v@)),
            Err(e) => package_migrations(dep@, migrations@, *def) == Err::<
                Seq<Seq<char>>,
                Seq<char>,
            >(e@),
        },
{
    let none: Vec<String> = Vec::new();
    assert(text::texts(none@) =~= Seq::empty());
    let rel = match def.properties.get("sql.migrations") {
        None => {
            return Ok(none);
        },
        Some(v) => v,
    };
    let place = text::trim(rel);
    if place.as_str().is_empty() {
        return Ok(none);
    }
    let dir = match text::strip_prefix(&place, "migrations/") {
        None => {
            let head = text::text4("data store '", &def.name, "' of deployment ", dep);
            return Err(
                text::text4(
                    &head,
                    " declares migrations at '",
                    rel,
                    "'; a sealed archive requires the canonical 'migrations/<store>' form",
                ),
            );
        },
        Some(d) => d,
    };
    let prefix = text::text2(&without_end_slashes(&dir), "/");
    let mut out: Vec<String> = Vec::new();
    let ghost all = migrations@;
    let mut i: usize = 0;
    assert(text::texts(out@) =~= scripts_under(all.take(0), prefix@));
    while i < migrations.len()
        invariant
            i <= all.len(),
            all == migrations@,
            text::texts(out@) == scripts_under(all.take(i as int), prefix@),
        decreases all.len() - i,
    {
        let ghost next = all.take(i + 1);
        let ghost prior = out@;
        assert(next.drop_last() =~= all.take(i as int));
        assert(next.last() == all[i as int]);
        let key = migrations.key_at(i);
        if text::starts_with(key, &prefix) && text::ends_with(key, ".sql") {
            out.push(migrations.value_at(i).clone());
            assert(text::texts(out@) =~= text::texts(prior).push(all[i as int].1));
        }
        i = i + 1;
    }
    assert(all.take(all.len() as int) =~= all);
    if out.len() == 0 {
        let head = text::text4("data store '", &def.name, "' of deployment ", dep);
        return Err(
            text::text4(
                &head,
                " declares migrations at '",
                rel,
                "' but the archive carries no scripts under it",
            ),
        );
    }
    Ok(out)
}

// ---- projections -------------------------------------------------------------------------------

/// A column that a field of a structure is projected to.
#[derive(Debug, PartialEq, Eq)]
pub struct ProjectedColumn {
    pub field: String,
    pub column: String,
    /// Whether the field may be absent.
    pub nullable: bool,
}

/// The contents of a [`ProjectedColumn`].
pub struct ColumnView {
    pub field: Seq<char>,
    pub column: Seq<char>,
    pub nullable: bool,
}

impl View for ProjectedColumn {
    type V = ColumnView;

    open spec fn view(&self) -> ColumnView {
        ColumnView { field: self.field@, column: self.column@, nullable: self.nullable }
    }
}

/// What a row of columns holds.
pub open spec fn columns(v: Seq<ProjectedColumn>) -> Seq<ColumnView> {
    v.map_values(|c: ProjectedColumn| c@)
}

/// A store whose rows are typed columns of a table.
#[derive(Debug, PartialEq, Eq)]
pub struct ProjectedStore {
    pub store: String,
    pub table: String,
    pub columns: Vec<ProjectedColumn>,
}

/// The contents of a [`ProjectedStore`].
pub struct ProjectedView {
    pub store: Seq<char>,
    pub table: Seq<char>,
    pub columns: Seq<ColumnView>,
}

impl View for ProjectedStore {
    type V = ProjectedView;

    open spec fn view(&self) -> ProjectedView {
        ProjectedView { store: self.store@, table: self.table@, columns: columns(self.columns@) }
    }
}

/// The table that a store's rows stand in: the one that `sql.table` names, else the one of the
/// store's own name.
pub open spec fn physical_table(def: StoreDefinition) -> Seq<char> {
    match keyed::lookup(def.properties@, "sql.table"@) {
        Some(t) => t,
        None => def.name@,
    }
}

/// The table that a store's rows stand in.
pub fn table_for(def: &StoreDefinition) -> (r: String)
    ensures
        r@ == physical_table(*def),
{
    match def.properties.get("sql.table") {
        Some(t) => t.clone(),
        None => def.name.clone(),
    }
}

fn copy_columns(v: &Vec<ProjectedColumn>) -> (r: Vec<ProjectedColumn>)
    ensures
        columns(r@) == columns(v@),
{
    let mut out: Vec<ProjectedColumn> = Vec::new();
    let mut i: usize = 0;
    while i < v.len()
        invariant
            i <= v.len(),
            columns(out@) == columns(v@).take(i as int),
        decreases v.len() - i,
    {
        let ghost prior = columns(out@);
        out.push(
            ProjectedColumn {
                field: v[i].field.clone(),
                column: v[i].column.clone(),
                nullable: v[i].nullable,
            },
        );
        assert(columns(out@) =~= prior.push(columns(v@)[i as int]));
        assert(columns(v@).take(i + 1) =~= columns(v@).take(i as int).push(
            columns(v@)[i as int],
        ));
        i = i + 1;
    }
    assert(columns(v@).take(v.len() as int) =~= columns(v@));
    out
}

/// What the schema compiler answered about a store's structure.
pub enum ProjectionAnswer {
    /// The schema does not compile, and why.
    Uncompilable(String),
    /// The schema declares no such type.
    UnknownType,
    /// The type cannot be projected: a code and an explanation.
    NotProjectable(String, String),
    /// The projection cannot be served, and why.
    Unusable(String),
    /// The projected columns.
    Columns(Vec<ProjectedColumn>),
}

/// The folder that a structure's schema reference names.
pub open spec fn schema_folder(schema: Seq<char>) -> Seq<char> {
    let reference = text::trimmed(schema);
    if text::begins(reference, "urn:"@) {
        reference.skip("urn:"@.len() as int)
    } else {
        reference
    }
}

/// The table and the columns that a store's structure gives, or why the deployment is refused.
/// `provided` are the package's own schema folders that hold a schema.
pub open spec fn projection(
    provided: Seq<Seq<char>>,
    def: StoreDefinition,
    structure: StructureRef,
    answer: ProjectionAnswer,
) -> Result<ProjectedView, Seq<char>> {
    let store = def.name@;
    let local = schema_folder(structure.schema@);
    if !provided.contains(local) {
        Err(
            "data store '"@ + store + "' declares structure schema '"@ + structure.schema@
                + "', which this package provides no XSD codec for. A projected store's type must be declared by a schemas/<folder> XSD codec of the same package — only XSD carries the declared facets a typed column is checked against."@,
        )
    } else {
        match answer {
            ProjectionAnswer::Uncompilable(e) => Err(
                "data store '"@ + store + "' declares structure schema '"@ + structure.schema@
                    + "', which does not compile: "@ + e@,
            ),
            ProjectionAnswer::UnknownType => Err(
                "data store '"@ + store + "' declares structure type '"@ + structure.declared_type@
                    + "', which schema '"@ + local
                    + "' declares neither as a type nor as a root element."@,
            ),
            ProjectionAnswer::NotProjectable(code, e) => Err(
                "data store '"@ + store + "' cannot be projected: ["@ + code@ + "] "@ + e@,
            ),
            ProjectionAnswer::Unusable(e) => Err(e@),
            ProjectionAnswer::Columns(c) => Ok(
                ProjectedView { store, table: physical_table(def), columns: columns(c@) },
            ),
        }
    }
}

/// Resolve a store's structure from what the schema compiler answered. Every failure refuses the
/// deployment: no environment mends a structure that cannot be projected.
pub fn resolve_projected_store(
    provided: &Vec<String>,
    def: &StoreDefinition,
    structure: &StructureRef,
    answer: &ProjectionAnswer,
) -> (r: Result<ProjectedStore, String>)
    ensures
        match r {
            Ok(p) => projection(text::texts(provided@), *def, *structure, *answer) == Ok::<
                ProjectedView,
                Seq<char>,
            >(p@),
            Err(e) => projection(text::texts(provided@), *def, *structure, *answer) == Err::<
                ProjectedView,
                Seq<char>,
            >(e@),
        },
{
    let store = def.name.as_str();
    let reference = text::trim(&structure.schema);
    let local = match text::strip_prefix(&reference, "urn:") {
        Some(l) => l,
        None => reference,
    };
    if !text::contains(provided, &local) {
        let head = text::text4(
            "data store '",
            store,
            "' declares structure schema '",
            &structure.schema,
        );
        return Err(
            text::text2(
                &head,
                "', which this package provides no XSD codec for. A projected store's type must be declared by a schemas/<folder> XSD codec of the same package — only XSD carries the declared facets a typed column is checked against.",
            ),
        );
    }
    match answer {
        ProjectionAnswer::Uncompilable(e) => {
            let head = text::text4(
                "data store '",
                store,
                "' declares structure schema '",
                &structure.schema,
            );
            Err(text::text3(&head, "', which does not compile: ", e))
        },
        ProjectionAnswer::UnknownType => {
            let head = text::text4(
                "data store '",
                store,
                "' declares structure type '",
                &structure.declared_type,
            );
            Err(
                text::text4(
                    &head,
                    "', which schema '",
                    &local,
                    "' declares neither as a type nor as a root element.",
                ),
            )
        },
        ProjectionAnswer::NotProjectable(code, e) => {
            let head = text::text4("data store '", store, "' cannot be projected: [", code);
            Err(text::text3(&head, "] ", e))
        },
        ProjectionAnswer::Unusable(e) => Err(e.clone()),
        ProjectionAnswer::Columns(c) => Ok(
            ProjectedStore {
                store: def.name.clone(),
                table: table_for(def),
                columns: copy_columns(c),
            },
        ),
    }
}

} // verus!
