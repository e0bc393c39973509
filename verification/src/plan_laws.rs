//! What a deployment's plan holds of its package.

use vstd::prelude::*;

use crate::assembly;
use crate::assembly::{
    Answers, ArtifactType, CodecFolder, DeclaredStore, DeploymentPlan, LoadedDeployment, PlanView,
    RedactorArtifact, RuleArtifact, RulesView, StoreContext, StoresView, ValidatorView,
};
use crate::keyed;
use crate::stores;
use crate::text;
use crate::transports;
use crate::transports::ChannelView;

verus! {

// ---- templates and scripts ---------------------------------------------------------------------

/// A plan holds the package's templates and scripts and no others: at each place the key that
/// outside gives the id as an artifact of its kind, and the contents that the package has under that
/// id.
pub proof fn artifacts_keep_their_contents(
    d: LoadedDeployment,
    allowed: Seq<Seq<char>>,
    m: Answers,
    plan: DeploymentPlan,
)
    requires
        assembly::planned(d, allowed, m) == Ok::<PlanView, Seq<char>>(plan@),
    ensures
        plan.templates@.len() == d.templates@.len(),
        forall|i: int|
            0 <= i < plan.templates@.len() ==> (#[trigger] plan.templates@[i]).0@ == (m.key)(
                ArtifactType::Template,
                d.templates@[i].0,
            ) && plan.templates@[i].1@ == d.templates@[i].1,
        plan.scripts@.len() == d.scripts@.len(),
        forall|i: int|
            0 <= i < plan.scripts@.len() ==> (#[trigger] plan.scripts@[i]).0@ == (m.key)(
                ArtifactType::Script,
                d.scripts@[i].0,
            ) && plan.scripts@[i].1@ == d.scripts@[i].1,
{
    let t = text::pairs(plan.templates@);
    let s = text::pairs(plan.scripts@);
    assert(t.len() == plan.templates@.len() && s.len() == plan.scripts@.len());
    assert(plan@.templates == t && plan@.scripts == s);
    assert forall|i: int| 0 <= i < plan.templates@.len() implies (#[trigger] plan.templates@[i]).0@
        == (m.key)(ArtifactType::Template, d.templates@[i].0) && plan.templates@[i].1@
        == d.templates@[i].1 by {
        assert(t[i] == (plan.templates@[i].0@, plan.templates@[i].1@));
    }
    assert forall|i: int| 0 <= i < plan.scripts@.len() implies (#[trigger] plan.scripts@[i]).0@
        == (m.key)(ArtifactType::Script, d.scripts@[i].0) && plan.scripts@[i].1@
        == d.scripts@[i].1 by {
        assert(s[i] == (plan.scripts@[i].0@, plan.scripts@[i].1@));
    }
}

/// Whatever the package holds under a template id, or a script id, the plan has under that id's key.
pub proof fn each_artifact_is_found_by_its_id(
    d: LoadedDeployment,
    allowed: Seq<Seq<char>>,
    m: Answers,
    plan: DeploymentPlan,
    id: Seq<char>,
)
    requires
        assembly::planned(d, allowed, m) == Ok::<PlanView, Seq<char>>(plan@),
    ensures
        keyed::lookup(d.templates@, id) matches Some(contents) ==> exists|i: int|
            0 <= i < plan.templates@.len() && (#[trigger] plan.templates@[i]).0@ == (m.key)(
                ArtifactType::Template,
                id,
            ) && plan.templates@[i].1@ == contents,
        keyed::lookup(d.scripts@, id) matches Some(contents) ==> exists|i: int|
            0 <= i < plan.scripts@.len() && (#[trigger] plan.scripts@[i]).0@ == (m.key)(
                ArtifactType::Script,
                id,
            ) && plan.scripts@[i].1@ == contents,
{
    artifacts_keep_their_contents(d, allowed, m, plan);
    if keyed::has(d.templates@, id) {
        let i = keyed::lookup_some(d.templates@, id);
        assert(plan.templates@[i].0@ == (m.key)(ArtifactType::Template, id));
    }
    if keyed::has(d.scripts@, id) {
        let i = keyed::lookup_some(d.scripts@, id);
        assert(plan.scripts@[i].0@ == (m.key)(ArtifactType::Script, id));
    }
}

/// A plan is of its package: its id, its namespace, its modules and its published interface.
pub proof fn a_plan_is_of_its_package(
    d: LoadedDeployment,
    allowed: Seq<Seq<char>>,
    m: Answers,
    plan: DeploymentPlan,
)
    requires
        assembly::planned(d, allowed, m) == Ok::<PlanView, Seq<char>>(plan@),
    ensures
        plan.dep@ == d.id@,
        plan.namespace@ == d.namespace@,
        plan.modules@ == d.modules@,
        plan.openapi_spec@ == d.api@,
        match d.channels {
            None => plan.definitions@.len() == 0,
            Some(Ok(v)) => plan.definitions@.len() == v@.len() && forall|i: int|
                0 <= i < v@.len() ==> (#[trigger] plan.definitions@[i])@ == (ChannelView {
                    deployment: d.id@,
                    ..v@[i]@
                }),
            Some(Err(_)) => false,
        },
        d.datastores is None ==> plan.stores@.len() == 0 && !plan.coverage
            && plan.coverage_fault is None,
        !(d.datastores matches Some(Err(_))),
        d.bundles is Ok,
{
    let c = transports::channels(plan.definitions@);
    assert(plan@.definitions == c && c.len() == plan.definitions@.len());
    assert(plan@.stores.len() == plan.stores@.len());
    match d.channels {
        Some(Ok(v)) => {
            assert forall|i: int| 0 <= i < v@.len() implies (#[trigger] plan.definitions@[i])@ == (
            ChannelView { deployment: d.id@, ..v@[i]@ }) by {
                assert(c[i] == plan.definitions@[i]@);
                assert(transports::channels(v@)[i] == v@[i]@);
            }
        },
        _ => {},
    }
}

// ---- ids and names -----------------------------------------------------------------------------

/// A path becomes an id by turning every slash into a colon and leaving all else in its place; a
/// redactor's id leaves the ending of its file out.
pub proof fn a_path_becomes_an_id(path: Seq<char>)
    ensures
        assembly::colons(path).len() == path.len(),
        forall|i: int|
            0 <= i < path.len() ==> (#[trigger] assembly::colons(path)[i]) == if path[i] == '/' {
                ':'
            } else {
                path[i]
            },
        assembly::redactor_id(path + ".hbs"@) == assembly::colons(path),
        !text::finishes(path, ".hbs"@) ==> assembly::redactor_id(path) == assembly::colons(path),
{
    let whole = path + ".hbs"@;
    assert(whole.take(path.len() as int) =~= path);
    assert(whole.skip(path.len() as int) =~= ".hbs"@);
    assert(text::finishes(whole, ".hbs"@));
}

/// Two artifacts of one kind and deployment have one name only where their local ids are one.
pub proof fn names_tell_artifacts_apart(
    kind: Seq<char>,
    a: Seq<char>,
    b: Seq<char>,
    dep: Seq<char>,
)
    ensures
        assembly::archive_urn(kind, a, dep) == assembly::archive_urn(kind, b, dep) <==> a == b,
        assembly::archive_urn(kind, a, dep) == "urn:sutra:"@ + kind + ":"@ + a + ":"@ + dep,
{
    let x = assembly::archive_urn(kind, a, dep);
    let y = assembly::archive_urn(kind, b, dep);
    if x == y {
        reveal_strlit("urn:sutra:");
        reveal_strlit(":");
        let at = 11 + kind.len();
        assert(x.len() == y.len());
        assert(a.len() == b.len());
        assert forall|i: int| 0 <= i < a.len() implies a[i] == b[i] by {
            assert(x[at + i] == a[i]);
            assert(y[at + i] == b[i]);
        }
        assert(a =~= b);
    }
}

// ---- redactors ---------------------------------------------------------------------------------

/// Every redactor that compiles is planned, in its place, under its own name and with its own
/// contents; one that does not refuses them all.
pub proof fn redactors_keep_their_contents(redactors: Seq<RedactorArtifact>, dep: Seq<char>)
    ensures
        match assembly::redactors_planned(redactors, dep) {
            Ok(v) => v.len() == redactors.len() && forall|i: int|
                0 <= i < v.len() ==> (#[trigger] v[i]).0 == "urn:sutra:"@ + "redactor"@ + ":"@
                    + assembly::redactor_id(redactors[i].id@) + ":"@ + dep && v[i].1
                    == redactors[i].content@ && redactors[i].compiled is Ok,
            Err(_) => exists|i: int|
                0 <= i < redactors.len() && (#[trigger] redactors[i]).compiled is Err,
        },
    decreases redactors.len(),
{
    if redactors.len() > 0 {
        let rest = redactors.drop_last();
        let n = redactors.len() - 1;
        redactors_keep_their_contents(rest, dep);
        assert(redactors[n] == redactors.last());
        match assembly::redactors_planned(rest, dep) {
            Err(_) => {
                let i = choose|i: int|
                    0 <= i < rest.len() && (#[trigger] rest[i]).compiled is Err;
                assert(redactors[i] == rest[i]);
            },
            Ok(v) => match assembly::redactors_planned(redactors, dep) {
                Ok(w) => {
                    assert forall|i: int| 0 <= i < w.len() implies (#[trigger] w[i]).0
                        == "urn:sutra:"@ + "redactor"@ + ":"@ + assembly::redactor_id(
                        redactors[i].id@,
                    ) + ":"@ + dep && w[i].1 == redactors[i].content@
                        && redactors[i].compiled is Ok by {
                        if i < n {
                            assert(w[i] == v[i]);
                            assert(rest[i] == redactors[i]);
                        }
                    }
                },
                Err(_) => {},
            },
        }
    }
}

// ---- rules -------------------------------------------------------------------------------------

/// The validators of a decision table: one for each of its decisions, in their order, and one more
/// under the table's own name where it has a single decision.
pub proof fn a_table_validates_by_each_decision(
    rule: Seq<char>,
    ids: Seq<Seq<char>>,
    dep: Seq<char>,
)
    ensures
        ({
            let v = assembly::table_validators(rule, ids, dep);
            &&& v.len() == ids.len() + if ids.len() == 1 {
                1int
            } else {
                0
            }
            &&& forall|i: int|
                0 <= i < ids.len() ==> (#[trigger] v[i]).key == "urn:sutra:"@ + "rule"@ + ":"@
                    + ids[i] + ":"@ + dep && v[i].rule == rule && v[i].decision == ids[i]
            &&& ids.len() == 1 ==> v[1].key == "urn:sutra:"@ + "rule"@ + ":"@ + assembly::colons(
                rule,
            ) + ":"@ + dep && v[1].rule == rule && v[1].decision == ids[0]
        }),
{
}

/// Planning one rule more adds what that rule gives and changes nothing of the rest: a decision
/// under its own key with its own contents, and validators for a table or the contents under the
/// rule's name for a rule set; a file that is neither adds nothing; one that cannot be parsed
/// refuses them all.
pub proof fn each_rule_adds_its_own(
    rules: Seq<RuleArtifact>,
    rule: RuleArtifact,
    dep: Seq<char>,
    m: Answers,
    before: RulesView,
)
    requires
        assembly::rules_planned(rules, dep, m) == Ok::<RulesView, Seq<char>>(before),
    ensures
        ({
            let after = assembly::rules_planned(rules.push(rule), dep, m);
            let table = text::finishes(rule.id@, ".dmn"@);
            let ruleset = text::finishes(rule.id@, ".srl"@);
            match rule.parsed {
                Err(_) => after is Err <==> table || ruleset,
                Ok(ids) => {
                    &&& after is Ok
                    &&& !table && !ruleset ==> after->Ok_0 == before
                    &&& table || ruleset ==> after->Ok_0.decisions == before.decisions + seq![
                        ((m.key)(ArtifactType::Decision, rule.id@), rule.content@),
                    ]
                    &&& table ==> after->Ok_0.srl == before.srl && after->Ok_0.validators
                        == before.validators + assembly::table_validators(
                        rule.id@,
                        text::texts(ids@),
                        dep,
                    )
                    &&& ruleset && !table ==> after->Ok_0.validators == before.validators
                        && after->Ok_0.srl == before.srl + seq![
                        (
                            "urn:sutra:"@ + "rule"@ + ":"@ + assembly::colons(rule.id@) + ":"@
                                + dep,
                            rule.content@,
                        ),
                    ]
                },
            }
        }),
        assembly::rules_planned(Seq::<RuleArtifact>::empty(), dep, m) matches Ok(v)
            && v.decisions.len() == 0 && v.validators.len() == 0 && v.srl.len() == 0,
{
    let all = rules.push(rule);
    assert(all.drop_last() =~= rules);
    assert(all.last() == rule);
    assert(assembly::rules_planned(all, dep, m) == assembly::rule_planned(before, rule, dep, m));
}

/// A rule that refuses its deployment goes on refusing it whatever follows.
pub proof fn a_refused_rule_stays_refused(
    rules: Seq<RuleArtifact>,
    rule: RuleArtifact,
    dep: Seq<char>,
    m: Answers,
)
    requires
        assembly::rules_planned(rules, dep, m) is Err,
    ensures
        assembly::rules_planned(rules.push(rule), dep, m) == assembly::rules_planned(rules, dep, m),
{
    let all = rules.push(rule);
    assert(all.drop_last() =~= rules);
}

// ---- codecs ------------------------------------------------------------------------------------

/// Every bundle that loaded is named for its folder, in its place.
pub proof fn bundles_are_named_for_their_folders(folders: Seq<Seq<char>>, dep: Seq<char>)
    ensures
        assembly::bundles_planned(folders, dep).len() == folders.len(),
        forall|i: int|
            0 <= i < folders.len() ==> (#[trigger] assembly::bundles_planned(folders, dep)[i]).0
                == "urn:sutra:"@ + "codec"@ + ":"@ + folders[i] + ":"@ + dep
                && assembly::bundles_planned(folders, dep)[i].1 == folders[i],
{
}

/// A folder that no bundle claims is planned under its own name with its own schemas; a claimed one
/// is left to its bundle.
pub proof fn only_unclaimed_folders_are_codecs(
    a: Seq<CodecFolder>,
    b: Seq<CodecFolder>,
    folder: CodecFolder,
    claimed: Seq<Seq<char>>,
)
    ensures
        assembly::codecs_planned(a + b, claimed) == assembly::codecs_planned(a, claimed)
            + assembly::codecs_planned(b, claimed),
        claimed.contains(folder.name@) ==> assembly::codecs_planned(seq![folder], claimed).len()
            == 0,
        !claimed.contains(folder.name@) ==> assembly::codecs_planned(seq![folder], claimed)
            == seq![("urn:"@ + folder.name@, text::texts(folder.schemas@))],
    decreases b.len(),
{
    let none = Seq::<CodecFolder>::empty();
    assert(seq![folder].drop_last() =~= none);
    assert(assembly::codecs_planned(none, claimed) =~= Seq::<
        (Seq<char>, Seq<Seq<char>>),
    >::empty());
    assert(Seq::<(Seq<char>, Seq<Seq<char>>)>::empty().push(
        ("urn:"@ + folder.name@, text::texts(folder.schemas@)),
    ) =~= seq![("urn:"@ + folder.name@, text::texts(folder.schemas@))]);
    if b.len() == 0 {
        assert(a + b =~= a);
        assert(assembly::codecs_planned(a, claimed) + assembly::codecs_planned(b, claimed)
            =~= assembly::codecs_planned(a, claimed));
    } else {
        only_unclaimed_folders_are_codecs(a, b.drop_last(), folder, claimed);
        assert((a + b).drop_last() =~= a + b.drop_last());
        assert((a + b).last() == b.last());
        let x = assembly::codecs_planned(a, claimed);
        let y = assembly::codecs_planned(b.drop_last(), claimed);
        let e = ("urn:"@ + b.last().name@, text::texts(b.last().schemas@));
        assert((x + y).push(e) =~= x + y.push(e));
    }
}

/// The folders that projections may name are those with a schema, in their order.
pub proof fn schema_folders_hold_schemas(
    a: Seq<CodecFolder>,
    b: Seq<CodecFolder>,
    folder: CodecFolder,
)
    ensures
        assembly::schema_folders(a + b) == assembly::schema_folders(a) + assembly::schema_folders(
            b,
        ),
        folder.schemas@.len() == 0 ==> assembly::schema_folders(seq![folder]).len() == 0,
        folder.schemas@.len() > 0 ==> assembly::schema_folders(seq![folder]) == seq![folder.name@],
    decreases b.len(),
{
    let none = Seq::<CodecFolder>::empty();
    assert(seq![folder].drop_last() =~= none);
    assert(assembly::schema_folders(none) =~= Seq::<Seq<char>>::empty());
    assert(Seq::<Seq<char>>::empty().push(folder.name@) =~= seq![folder.name@]);
    if b.len() == 0 {
        assert(a + b =~= a);
        assert(assembly::schema_folders(a) + assembly::schema_folders(b)
            =~= assembly::schema_folders(a));
    } else {
        schema_folders_hold_schemas(a, b.drop_last(), folder);
        assert((a + b).drop_last() =~= a + b.drop_last());
        assert((a + b).last() == b.last());
        let x = assembly::schema_folders(a);
        let y = assembly::schema_folders(b.drop_last());
        assert((x + y).push(b.last().name@) =~= x + y.push(b.last().name@));
    }
}

// ---- outbound channels -------------------------------------------------------------------------

/// An outbound channel goes where its binding resolves to, under its own name, by the transport it
/// declares, with the secret and the header that its properties name; it is refused exactly where it
/// declares no transport, no destination, one that does not resolve, or one without a scheme.
pub proof fn an_outbound_channel_goes_where_it_is_bound(
    def: ChannelView,
    dep: Seq<char>,
    m: Answers,
)
    ensures
        ({
            let spoken = def.transport matches Some(t) && text::trimmed(t).len() > 0;
            let bound = def.bind_spec matches Some(b) && text::trimmed(b).len() > 0;
            let target = (m.resolve)(text::trimmed(def.bind_spec->Some_0));
            match assembly::outbound_resolved(def, dep, m) {
                Ok(o) => {
                    &&& spoken && bound && target is Ok && (m.schemed)(target->Ok_0)
                    &&& o.name == def.channel_name
                    &&& Some(o.transport) == def.transport
                    &&& o.destination == transports::expanded(
                        target->Ok_0,
                        def.namespace.module_key(),
                    )
                    &&& o.auth_scheme == def.auth_scheme
                    &&& o.secret_ref == keyed::lookup(def.properties, "secret-ref"@)
                    &&& o.header == keyed::lookup(def.properties, "header"@)
                    &&& def.cloud_events_mode matches Some(mode) ==> o.cloud_events_mode == mode
                    &&& def.cloud_events_mode is None ==> o.cloud_events_mode == "none"@
                },
                Err(_) => !spoken || !bound || target is Err || !(m.schemed)(target->Ok_0),
            }
        }),
{
}

/// Planning one channel more adds that channel where it is outbound, and nothing where it is not.
pub proof fn only_outbound_channels_are_planned(
    defs: Seq<ChannelView>,
    def: ChannelView,
    dep: Seq<char>,
    m: Answers,
)
    requires
        assembly::outbound_planned(defs, dep, m) is Ok,
    ensures
        !def.outbound ==> assembly::outbound_planned(defs.push(def), dep, m)
            == assembly::outbound_planned(defs, dep, m),
        def.outbound ==> match assembly::outbound_resolved(def, dep, m) {
            Ok(o) => assembly::outbound_planned(defs.push(def), dep, m) matches Ok(v) && v
                == assembly::outbound_planned(defs, dep, m)->Ok_0 + seq![o],
            Err(e) => assembly::outbound_planned(defs.push(def), dep, m) matches Err(f) && f == e,
        },
        assembly::outbound_planned(Seq::<ChannelView>::empty(), dep, m) matches Ok(v) && v.len()
            == 0,
{
    let all = defs.push(def);
    assert(all.drop_last() =~= defs);
    assert(all.last() == def);
}

// ---- stores ------------------------------------------------------------------------------------

/// Planning one store more leaves every store before it as it was. A store that is not relational
/// adds nothing; the coverage store turns coverage on, or says why not; any other is bound under its
/// own name in the dialect of its address, or passed over where it cannot be reached.
pub proof fn each_store_adds_its_own(
    declared: Seq<DeclaredStore>,
    d: DeclaredStore,
    c: StoreContext,
    before: StoresView,
)
    requires
        assembly::stores_planned(declared, c) == Ok::<StoresView, Seq<char>>(before),
    ensures
        ({
            let after = assembly::stores_planned(declared.push(d), c);
            if d.def.store_type@ != "sql"@ {
                after == Ok::<StoresView, Seq<char>>(before)
            } else if d.def.name@ == stores::COVERAGE_STORE_NAME@ {
                after matches Ok(v) && v.stores == before.stores && match d.coverage {
                    Ok(_) => v.coverage && v.fault == before.fault,
                    Err(e) => v.coverage == before.coverage && v.fault == Some(e@),
                }
            } else {
                match after {
                    Ok(v) => {
                        &&& v.coverage == before.coverage && v.fault == before.fault
                        &&& assembly::store_migrations(d, c) is Ok
                        &&& assembly::store_projection(d, c) is Ok
                        &&& match stores::backend(
                            d.def.name@,
                            stores::url_answer(d.url),
                            stores::unit_answer(d.opened),
                        ) {
                            Err(_) => v.stores == before.stores,
                            Ok(dialect) => {
                                &&& v.stores.len() == before.stores.len() + 1
                                &&& v.stores.drop_last() == before.stores
                                &&& v.stores.last().name == d.def.name@
                                &&& v.stores.last().dialect == dialect
                                &&& v.stores.last().migrations == assembly::store_migrations(
                                    d,
                                    c,
                                )->Ok_0
                                &&& v.stores.last().projected == assembly::store_projection(
                                    d,
                                    c,
                                )->Ok_0
                            },
                        }
                    },
                    Err(_) => assembly::store_migrations(d, c) is Err || assembly::store_projection(
                        d,
                        c,
                    ) is Err,
                }
            }
        }),
        assembly::stores_planned(Seq::<DeclaredStore>::empty(), c) matches Ok(v) && v.stores.len()
            == 0 && !v.coverage && v.fault is None,
{
    let all = declared.push(d);
    assert(all.drop_last() =~= declared);
    assert(all.last() == d);
    match assembly::stores_planned(all, c) {
        Ok(v) => {
            if v.stores.len() == before.stores.len() + 1 {
                assert(v.stores.drop_last() =~= before.stores);
            }
        },
        Err(_) => {},
    }
}

/// A sealed package brings its own migrations; an unsealed one takes what is on disk.
pub proof fn migrations_come_from_the_package_or_the_disk(d: DeclaredStore, c: StoreContext)
    ensures
        !c.sealed ==> match d.on_disk {
            Ok(v) => assembly::store_migrations(d, c) matches Ok(w) && w == text::texts(v@),
            Err(_) => assembly::store_migrations(d, c) is Err,
        },
        c.sealed ==> assembly::store_migrations(d, c) == stores::package_migrations(
            c.dep,
            c.migrations,
            d.def,
        ),
        d.def.structure is None ==> (assembly::store_projection(d, c) matches Ok(p) && p is None),
        d.def.structure matches Some(s) ==> match stores::projection(
            c.folders,
            d.def,
            s,
            d.projection,
        ) {
            Ok(v) => assembly::store_projection(d, c) matches Ok(p) && p == Some(v),
            Err(_) => assembly::store_projection(d, c) is Err,
        },
{
}

/// A deployment's stores are planned with the deployment's own id, migrations, seal and folders.
pub proof fn stores_are_planned_for_their_deployment(d: LoadedDeployment)
    ensures
        match d.datastores {
            None => assembly::datastores_planned(d) matches Ok(s) && s.stores.len() == 0
                && !s.coverage && s.fault is None,
            Some(Ok(v)) => exists|c: StoreContext|
                c.dep == d.id@ && c.migrations == d.migrations@ && c.sealed == d.sealed && c.folders
                    == assembly::schema_folders(d.codecs@) && #[trigger] assembly::stores_planned(
                    v@,
                    c,
                ) == assembly::datastores_planned(d),
            Some(Err(_)) => assembly::datastores_planned(d) is Err,
        },
{
    let c = StoreContext {
        dep: d.id@,
        migrations: d.migrations@,
        sealed: d.sealed,
        folders: assembly::schema_folders(d.codecs@),
    };
    match d.datastores {
        Some(Ok(v)) => {
            assert(assembly::stores_planned(v@, c) == assembly::datastores_planned(d));
        },
        _ => {},
    }
}

/// Each part of a plan is what its own rules give of the package, and a plan is refused exactly
/// where one of them refuses it.
pub proof fn a_plan_is_made_of_its_parts(
    d: LoadedDeployment,
    allowed: Seq<Seq<char>>,
    m: Answers,
)
    ensures
        match assembly::planned(d, allowed, m) {
            Ok(p) => {
                &&& assembly::rules_planned(d.rules@, d.id@, m) matches Ok(r) && p.decisions
                    == r.decisions && p.validators == r.validators && p.srl_validators == r.srl
                &&& assembly::redactors_planned(d.redactors@, d.id@) matches Ok(r) && p.redactors
                    == r
                &&& d.bundles matches Ok(f) && p.codecs == assembly::codecs_planned(
                    d.codecs@,
                    text::texts(f@),
                ) && p.codec_bundles == assembly::bundles_planned(text::texts(f@), d.id@)
                &&& assembly::outbound_planned(p.definitions, d.id@, m) matches Ok(o) && p.outbound
                    == o
                &&& transports::first_refusal(p.definitions, allowed, d.id@) is None
                &&& assembly::datastores_planned(d) matches Ok(s) && p.stores == s.stores
                    && p.coverage == s.coverage && p.coverage_fault == s.fault
            },
            Err(_) => {
                ||| assembly::rules_planned(d.rules@, d.id@, m) is Err
                ||| assembly::redactors_planned(d.redactors@, d.id@) is Err
                ||| d.bundles is Err
                ||| d.channels matches Some(Err(_))
                ||| assembly::channels_loaded(d) matches Ok(defs) && (transports::first_refusal(
                    defs,
                    allowed,
                    d.id@,
                ) is Some || assembly::outbound_planned(defs, d.id@, m) is Err)
                ||| assembly::datastores_planned(d) is Err
            },
        },
{
}

/// A validator of a plan keeps its name, its rule and its decision.
pub proof fn a_validator_is_what_it_says(v: assembly::RuleValidator)
    ensures
        v@ == (ValidatorView { key: v.key@, rule: v.rule@, decision: v.decision@ }),
{
}

} // verus!
