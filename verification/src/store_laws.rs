//! What stores, transports, process graphs and batches are made of.

use vstd::prelude::*;

use crate::batch;
use crate::batch::{BatchFilter, BatchFilterView, InstanceAttempt, InstanceAttemptView, MigrationOutcome};
use crate::graph;
use crate::graph::{BoundaryKind, Node, NodeKind, ProcessDefinition, ProcessModule, Shapes};
use crate::json;
use crate::json::JsonView;
use crate::keyed;
use crate::migrate::MigrationPlanView;
use crate::sources;
use crate::stores;
use crate::stores::{ProjectionAnswer, StoreDefinition, StoreDialect, StructureRef};
use crate::text;
use crate::text_laws;
use crate::transports;
use crate::transports::ChannelView;

verus! {

// ---- stores ------------------------------------------------------------------------------------

/// The scheme of an address is what stands before its first colon or slash, in small letters.
pub proof fn a_scheme_stands_before_the_colon(scheme: Seq<char>, rest: Seq<char>)
    requires
        !scheme.contains(':'),
        !scheme.contains('/'),
    ensures
        stores::connection_scheme(scheme + seq![':'] + rest) == text::lowered(scheme),
        stores::connection_scheme(scheme + seq!['/'] + rest) == text::lowered(scheme),
        stores::connection_scheme(scheme) == text::lowered(scheme),
{
    let a = scheme + seq![':'] + rest;
    let b = scheme + seq!['/'] + rest;
    let n = scheme.len() as int;
    text::first_at_is_least(a, ':');
    text::first_at_is_least(a, '/');
    text::first_at_is_least(b, ':');
    text::first_at_is_least(b, '/');
    text::first_at_is_least(scheme, ':');
    text::first_at_is_least(scheme, '/');
    assert(a[n] == ':' && b[n] == '/');
    assert forall|i: int| 0 <= i < n implies (#[trigger] scheme[i]) != ':' && scheme[i]
        != '/' && a[i] == scheme[i] && b[i] == scheme[i] by {}
    let ac = text::first_at(a, ':');
    let as_ = text::first_at(a, '/');
    let bc = text::first_at(b, ':');
    let bs = text::first_at(b, '/');
    if ac < n {
        assert(a[ac] == scheme[ac]);
    }
    if as_ < n {
        assert(a[as_] == scheme[as_]);
    }
    if as_ == n {
        assert(a[n] == '/');
    }
    if bc < n {
        assert(b[bc] == scheme[bc]);
    }
    if bs < n {
        assert(b[bs] == scheme[bs]);
    }
    assert(a.take(n) =~= scheme);
    assert(b.take(n) =~= scheme);
    assert(scheme.take(n) =~= scheme);
    let sc = text::first_at(scheme, ':');
    let ss = text::first_at(scheme, '/');
    if sc < n {
        assert(scheme[sc] == ':');
    }
    if ss < n {
        assert(scheme[ss] == '/');
    }
}

/// Each scheme has its dialect, and no other scheme has one.
pub proof fn a_scheme_has_its_dialect(url: Seq<char>)
    ensures
        ({
            let s = stores::connection_scheme(url);
            match stores::dialect(url) {
                Ok(StoreDialect::Postgres) => s == "postgres"@ || s == "postgresql"@,
                Ok(StoreDialect::Mysql) => s == "mysql"@ || s == "mariadb"@,
                Ok(StoreDialect::Mssql) => s == "sqlserver"@ || s == "mssql"@,
                Err(_) => s != "postgres"@ && s != "postgresql"@ && s != "mysql"@ && s
                    != "mariadb"@ && s != "sqlserver"@ && s != "mssql"@,
            }
        }),
{
}

/// A store has a backend exactly where its address resolves to a text, is not blank, has a known
/// dialect and opens; the dialect is the address's.
pub proof fn a_backend_needs_an_address_that_opens(
    name: Seq<char>,
    url: Result<Option<Seq<char>>, Seq<char>>,
    opened: Result<(), Seq<char>>,
)
    ensures
        match stores::backend(name, url, opened) {
            Ok(d) => opened is Ok && (url matches Ok(Some(u)) && text::trimmed(u).len() > 0
                && stores::dialect(u) == Ok::<StoreDialect, Seq<char>>(d)),
            Err(_) => match url {
                Ok(Some(u)) => text::trimmed(u).len() == 0 || stores::dialect(u) is Err
                    || opened is Err,
                _ => true,
            },
        },
{
}

/// The slashes at the end of a path are taken off, and nothing else.
pub proof fn only_ending_slashes_are_taken_off(s: Seq<char>)
    ensures
        stores::unslashed(s + seq!['/']) == stores::unslashed(s),
        s.len() == 0 || s.last() != '/' ==> stores::unslashed(s) == s,
{
    assert((s + seq!['/']).drop_last() =~= s);
    assert((s + seq!['/']).last() == '/');
}

/// The scripts of a folder are the contents of the files under it that end as scripts do, in their
/// order.
pub proof fn scripts_are_taken_from_their_folder(
    a: Seq<(Seq<char>, Seq<char>)>,
    b: Seq<(Seq<char>, Seq<char>)>,
    p: (Seq<char>, Seq<char>),
    prefix: Seq<char>,
)
    ensures
        stores::scripts_under(a + b, prefix)
            == stores::scripts_under(a, prefix) + stores::scripts_under(b, prefix),
        stores::scripts_under(seq![p], prefix) == if text::begins(p.0, prefix) && text::finishes(
            p.0,
            ".sql"@,
        ) {
            seq![p.1]
        } else {
            Seq::empty()
        },
    decreases b.len(),
{
    let none = Seq::<(Seq<char>, Seq<char>)>::empty();
    assert(seq![p].drop_last() =~= none);
    assert(seq![p].last() == p);
    assert(stores::scripts_under(none, prefix) =~= Seq::<Seq<char>>::empty());
    assert(Seq::<Seq<char>>::empty().push(p.1) =~= seq![p.1]);
    if b.len() == 0 {
        assert(a + b =~= a);
        assert(stores::scripts_under(a, prefix) + stores::scripts_under(b, prefix) =~= stores::scripts_under(a, prefix));
    } else {
        scripts_are_taken_from_their_folder(a, b.drop_last(), p, prefix);
        assert((a + b).drop_last() =~= a + b.drop_last());
        assert((a + b).last() == b.last());
        let x = stores::scripts_under(a, prefix);
        let y = stores::scripts_under(b.drop_last(), prefix);
        assert((x + y).push(b.last().1) =~= x + y.push(b.last().1));
    }
}

/// A sealed package's store has the scripts of the folder that it names: none where it names none,
/// refused where the folder is not one for migrations or holds no script.
pub proof fn a_sealed_store_brings_its_scripts(
    dep: Seq<char>,
    migrations: Seq<(Seq<char>, Seq<char>)>,
    def: StoreDefinition,
    folder: Seq<char>,
)
    ensures
        ({
            let m = stores::package_migrations(dep, migrations, def);
            match keyed::lookup(def.properties@, "sql.migrations"@) {
                None => m == Ok::<Seq<Seq<char>>, Seq<char>>(Seq::empty()),
                Some(rel) => {
                    &&& text::trimmed(rel).len() == 0 ==> m == Ok::<Seq<Seq<char>>, Seq<char>>(
                        Seq::empty(),
                    )
                    &&& text::trimmed(rel).len() > 0 && !text::begins(
                        text::trimmed(rel),
                        "migrations/"@,
                    ) ==> m is Err
                    &&& text::trimmed(rel) == "migrations/"@ + folder ==> ({
                        let s = stores::scripts_under(
                            migrations,
                            stores::unslashed(folder) + "/"@,
                        );
                        (s.len() == 0 ==> m is Err) && (s.len() > 0 ==> m == Ok::<
                            Seq<Seq<char>>,
                            Seq<char>,
                        >(s))
                    })
                },
            }
        }),
{
    let whole = "migrations/"@ + folder;
    reveal_strlit("migrations/");
    text_laws::a_whole_begins_and_ends_with_its_parts("migrations/"@, folder, 0);
    assert(whole.skip("migrations/"@.len() as int) =~= folder);
}

/// A store's table is the one it names, else its own name; a schema is found by its folder, with or
/// without the prefix of a name.
pub proof fn a_table_is_named_or_the_stores_own(
    def: StoreDefinition,
    folder: Seq<char>,
    schema: Seq<char>,
)
    ensures
        stores::physical_table(def) == match keyed::lookup(def.properties@, "sql.table"@) {
            Some(t) => t,
            None => def.name@,
        },
        text::trimmed(schema) == "urn:"@ + folder ==> stores::schema_folder(schema) == folder,
        !text::begins(text::trimmed(schema), "urn:"@) ==> stores::schema_folder(schema)
            == text::trimmed(schema),
{
    text_laws::a_whole_begins_and_ends_with_its_parts("urn:"@, folder, 0);
    assert(("urn:"@ + folder).skip("urn:"@.len() as int) =~= folder);
}

/// A store is projected exactly where the package provides the schema and the schema gives columns;
/// it then has its own name, its table and those columns, in their order.
pub proof fn a_projection_has_the_schemas_columns(
    provided: Seq<Seq<char>>,
    def: StoreDefinition,
    structure: StructureRef,
    answer: ProjectionAnswer,
)
    ensures
        ({
            let known = provided.contains(stores::schema_folder(structure.schema@));
            match stores::projection(provided, def, structure, answer) {
                Ok(v) => known && v.store == def.name@ && v.table == stores::physical_table(def)
                    && (answer matches ProjectionAnswer::Columns(c) && v.columns.len() == c@.len()
                    && forall|i: int|
                    0 <= i < c@.len() ==> (#[trigger] v.columns[i]).field == c@[i].field@
                        && v.columns[i].column == c@[i].column@ && v.columns[i].nullable
                        == c@[i].nullable),
                Err(_) => !known || !(answer is Columns),
            }
        }),
{
}

// ---- transports --------------------------------------------------------------------------------

/// A name stands in a list exactly where one of the parts between commas is that name, trimmed.
pub proof fn a_name_is_listed_between_commas(list: Seq<char>, name: Seq<char>, rest: Seq<char>)
    ensures
        transports::listed(list, name) ==> name.len() > 0 && exists|i: int|
            0 <= i < text::pieces(list, ',').len() && text::trimmed(
                #[trigger] text::pieces(list, ',')[i],
            ) == name,
        name.len() > 0 && !list.contains(',') && text::trimmed(list) == name ==> transports::listed(
            list,
            name,
        ),
        name.len() > 0 && !list.contains(',') && text::trimmed(list) == name ==> transports::listed(
            list + seq![','] + rest,
            name,
        ),
{
    let whole = list + seq![','] + rest;
    if name.len() > 0 && !list.contains(',') && text::trimmed(list) == name {
        text::first_at_is_least(list, ',');
        assert(text::pieces(list, ',') == seq![list]);
        assert(text::pieces(list, ',')[0] == list);
        text::first_at_is_least(whole, ',');
        let at = text::first_at(whole, ',');
        assert(whole[list.len() as int] == ',');
        if at < list.len() {
            assert(list[at] == whole[at]);
        }
        assert(whole.take(at) =~= list);
        assert(text::pieces(whole, ',')[0] == list);
    }
}

/// A channel is forbidden exactly where it declares a transport that is neither internal nor allowed;
/// the transport is the declared one, trimmed, and a blank one is none.
pub proof fn only_an_allowed_transport_is_permitted(def: ChannelView, allowed: Seq<Seq<char>>)
    ensures
        transports::forbidden(def, allowed) <==> (def.transport matches Some(t) && text::trimmed(
            t,
        ).len() > 0 && text::trimmed(t) != "local"@ && text::trimmed(t) != "pull"@
            && !allowed.contains(text::trimmed(t))),
        transports::declared(def) matches Some(t) ==> def.transport is Some && t == text::trimmed(
            def.transport->0,
        ) && t.len() > 0,
{
}

/// The channels of a deployment are refused exactly where one is forbidden, for the first that is.
pub proof fn the_first_forbidden_channel_is_named(
    defs: Seq<ChannelView>,
    allowed: Seq<Seq<char>>,
    dep: Seq<char>,
)
    ensures
        match transports::first_refusal(defs, allowed, dep) {
            Some(words) => exists|i: int|
                0 <= i < defs.len() && transports::forbidden(#[trigger] defs[i], allowed) && words
                    == transports::refusal(defs[i], allowed, dep) && forall|j: int|
                    0 <= j < i ==> !transports::forbidden(#[trigger] defs[j], allowed),
            None => forall|i: int|
                0 <= i < defs.len() ==> !transports::forbidden(#[trigger] defs[i], allowed),
        },
    decreases defs.len(),
{
    if defs.len() > 0 {
        if transports::forbidden(defs[0], allowed) {
        } else {
            let rest = defs.drop_first();
            the_first_forbidden_channel_is_named(rest, allowed, dep);
            match transports::first_refusal(rest, allowed, dep) {
                Some(words) => {
                    let i = choose|i: int|
                        0 <= i < rest.len() && transports::forbidden(#[trigger] rest[i], allowed)
                            && words == transports::refusal(rest[i], allowed, dep) && forall|j: int|
                            0 <= j < i ==> !transports::forbidden(#[trigger] rest[j], allowed);
                    assert(defs[i + 1] == rest[i]);
                    assert forall|j: int| 0 <= j < i + 1 implies !transports::forbidden(
                        #[trigger] defs[j],
                        allowed,
                    ) by {
                        if j > 0 {
                            assert(rest[j - 1] == defs[j]);
                        }
                    }
                },
                None => {
                    assert forall|i: int| 0 <= i < defs.len() implies !transports::forbidden(
                        #[trigger] defs[i],
                        allowed,
                    ) by {
                        if i > 0 {
                            assert(rest[i - 1] == defs[i]);
                        }
                    }
                },
            }
        }
    }
}

/// An internal destination that names a channel alone is taken to be of the same module version; one
/// that names a module version, and any other destination, stays as it is.
pub proof fn a_bare_internal_destination_is_completed(
    name: Seq<char>,
    other: Seq<char>,
    module_key: Seq<char>,
)
    requires
        name.len() > 0,
        !name.contains('/'),
    ensures
        transports::expanded("local"@ + "://"@ + name, module_key) == "local"@ + "://"@ + module_key
            + "/"@ + name,
        transports::expanded("pull"@ + "://"@ + name, module_key) == "pull"@ + "://"@ + module_key
            + "/"@ + name,
        !text::begins(other, "local"@ + "://"@) && !text::begins(other, "pull"@ + "://"@)
            ==> transports::expanded(other, module_key) == other,
        other.contains('/') ==> transports::expanded("local"@ + "://"@ + other, module_key)
            == "local"@ + "://"@ + other,
{
    let l = "local"@ + "://"@;
    let p = "pull"@ + "://"@;
    reveal_strlit("local");
    reveal_strlit("pull");
    text_laws::a_whole_begins_and_ends_with_its_parts(l, name, 0);
    text_laws::a_whole_begins_and_ends_with_its_parts(p, name, 0);
    text_laws::a_whole_begins_and_ends_with_its_parts(l, other, 0);
    assert((l + name).skip(l.len() as int) =~= name);
    assert((p + name).skip(p.len() as int) =~= name);
    assert((l + other).skip(l.len() as int) =~= other);
    assert((p + name)[0] == 'p' && l[0] == 'l');
    text_laws::a_whole_begins_and_ends_with_its_parts(p + name, l, 0);
}

// ---- process graphs ----------------------------------------------------------------------------

/// What a node can host follows from the node: a wait that is no timer can be resumed by a relay, a
/// timer catch or a timer boundary has a timer, a node with a retry policy retries, a node with a
/// continuing reply continues, and a start event starts.
pub proof fn a_node_hosts_what_it_is(process: ProcessDefinition, node: Node)
    ensures
        ({
            let s = graph::shape(process, node);
            &&& s.relay_resumable <==> node.wait_state && node.kind != NodeKind::TimerCatchEvent
            &&& s.timer_capable <==> node.kind == NodeKind::TimerCatchEvent || node.kind
                == NodeKind::BoundaryEvent(BoundaryKind::Timer)
            &&& s.retryable_task <==> exists|i: int|
                0 <= i < process.retry_policies@.len() && (#[trigger] process.retry_policies@[i])@
                    == node.id@
            &&& s.continue_reply <==> exists|i: int|
                0 <= i < process.continue_replies@.len() && (
                #[trigger] process.continue_replies@[i])@ == node.id@
            &&& s.start_event <==> node.kind == NodeKind::StartEvent
            &&& s.construct == graph::construct_of(node.kind)
        }),
{
    let r = text::texts(process.retry_policies@);
    let c = text::texts(process.continue_replies@);
    if r.contains(node.id@) {
        let i = choose|i: int| 0 <= i < r.len() && r[i] == node.id@;
        assert(process.retry_policies@[i]@ == node.id@);
    }
    if exists|i: int|
        0 <= i < process.retry_policies@.len() && (#[trigger] process.retry_policies@[i])@
            == node.id@ {
        let i = choose|i: int|
            0 <= i < process.retry_policies@.len() && (#[trigger] process.retry_policies@[i])@
                == node.id@;
        assert(r[i] == node.id@);
    }
    if c.contains(node.id@) {
        let i = choose|i: int| 0 <= i < c.len() && c[i] == node.id@;
        assert(process.continue_replies@[i]@ == node.id@);
    }
    if exists|i: int|
        0 <= i < process.continue_replies@.len() && (#[trigger] process.continue_replies@[i])@
            == node.id@ {
        let i = choose|i: int|
            0 <= i < process.continue_replies@.len() && (#[trigger] process.continue_replies@[i])@
                == node.id@;
        assert(c[i] == node.id@);
    }
}

/// Every kind of node has a name of its own that reports give it.
pub proof fn a_construct_is_named_for_its_kind(inner: Box<ProcessDefinition>, node: Box<Node>)
    ensures
        graph::construct_of(NodeKind::StartEvent) == "startEvent"@,
        graph::construct_of(NodeKind::EndEvent) == "endEvent"@,
        graph::construct_of(NodeKind::TerminateEndEvent) == "terminateEndEvent"@,
        graph::construct_of(NodeKind::ErrorEvent) == "errorEndEvent"@,
        graph::construct_of(NodeKind::IntermediateThrowEvent) == "intermediateThrowEvent"@,
        graph::construct_of(NodeKind::LinkCatchEvent) == "linkCatchEvent"@,
        graph::construct_of(NodeKind::MessageCatchEvent) == "messageCatchEvent"@,
        graph::construct_of(NodeKind::TimerCatchEvent) == "timerCatchEvent"@,
        graph::construct_of(NodeKind::BoundaryEvent(BoundaryKind::Timer)) == "boundaryEvent"@,
        graph::construct_of(NodeKind::ServiceTask) == "serviceTask"@,
        graph::construct_of(NodeKind::DataTask) == "dataTask"@,
        graph::construct_of(NodeKind::ScriptTask) == "scriptTask"@,
        graph::construct_of(NodeKind::ManualTask) == "manualTask"@,
        graph::construct_of(NodeKind::SendTask) == "sendTask"@,
        graph::construct_of(NodeKind::BusinessRuleTask) == "businessRuleTask"@,
        graph::construct_of(NodeKind::UserTask) == "userTask"@,
        graph::construct_of(NodeKind::CallActivity) == "callActivity"@,
        graph::construct_of(NodeKind::SubProcess(inner)) == "subProcess"@,
        graph::construct_of(NodeKind::TransactionSubProcess(inner)) == "transaction"@,
        graph::construct_of(NodeKind::AdHocSubProcess(inner)) == "adHocSubProcess"@,
        graph::construct_of(NodeKind::EventSubProcess(inner)) == "eventSubProcess"@,
        graph::construct_of(NodeKind::CancelEndEvent) == "cancelEndEvent"@,
        graph::construct_of(NodeKind::ExclusiveGateway) == "exclusiveGateway"@,
        graph::construct_of(NodeKind::InclusiveGateway) == "inclusiveGateway"@,
        graph::construct_of(NodeKind::ParallelGateway) == "parallelGateway"@,
        graph::construct_of(NodeKind::ComplexGateway) == "complexGateway"@,
        graph::construct_of(NodeKind::MultiInstance(node)) == "multiInstance"@,
        graph::construct_of(NodeKind::StandardLoop(node)) == "standardLoop"@,
{
}

/// Every node of a process is in its index, with its own shape unless a later node or one nested in
/// it has the same id; what was there before stays where no node has its id. A sub-process brings
/// the nodes inside it, and a loop or a multi-instance the one node that it repeats.
pub proof fn a_process_indexes_each_node(
    process: ProcessDefinition,
    n: nat,
    out: Shapes,
    id: Seq<char>,
)
    requires
        0 < n <= process.nodes@.len(),
    ensures
        ({
            let node = process.nodes@[n - 1];
            let before = graph::indexed(process, (n - 1) as nat, out);
            let after = graph::indexed(process, n, out);
            match node.kind {
                NodeKind::SubProcess(inner) => exists|mid: Shapes|
                    keyed::lookup(mid, node.id@) == Some(graph::shape(process, node)) && (id
                        != node.id@ ==> keyed::lookup(mid, id) == keyed::lookup(before, id))
                        && after == #[trigger] graph::indexed(*inner, inner.nodes@.len(), mid),
                NodeKind::TransactionSubProcess(inner) => exists|mid: Shapes|
                    keyed::lookup(mid, node.id@) == Some(graph::shape(process, node)) && (id
                        != node.id@ ==> keyed::lookup(mid, id) == keyed::lookup(before, id))
                        && after == #[trigger] graph::indexed(*inner, inner.nodes@.len(), mid),
                NodeKind::AdHocSubProcess(inner) => exists|mid: Shapes|
                    keyed::lookup(mid, node.id@) == Some(graph::shape(process, node)) && (id
                        != node.id@ ==> keyed::lookup(mid, id) == keyed::lookup(before, id))
                        && after == #[trigger] graph::indexed(*inner, inner.nodes@.len(), mid),
                NodeKind::EventSubProcess(inner) => exists|mid: Shapes|
                    keyed::lookup(mid, node.id@) == Some(graph::shape(process, node)) && (id
                        != node.id@ ==> keyed::lookup(mid, id) == keyed::lookup(before, id))
                        && after == #[trigger] graph::indexed(*inner, inner.nodes@.len(), mid),
                NodeKind::MultiInstance(inner) => {
                    &&& keyed::lookup(after, inner.id@) == Some(graph::shape(process, *inner))
                    &&& inner.id@ != node.id@ ==> keyed::lookup(after, node.id@) == Some(
                        graph::shape(process, node),
                    )
                    &&& id != node.id@ && id != inner.id@ ==> keyed::lookup(after, id)
                        == keyed::lookup(before, id)
                },
                NodeKind::StandardLoop(inner) => {
                    &&& keyed::lookup(after, inner.id@) == Some(graph::shape(process, *inner))
                    &&& inner.id@ != node.id@ ==> keyed::lookup(after, node.id@) == Some(
                        graph::shape(process, node),
                    )
                    &&& id != node.id@ && id != inner.id@ ==> keyed::lookup(after, id)
                        == keyed::lookup(before, id)
                },
                _ => {
                    &&& keyed::lookup(after, node.id@) == Some(graph::shape(process, node))
                    &&& id != node.id@ ==> keyed::lookup(after, id) == keyed::lookup(before, id)
                },
            }
        }),
        graph::indexed(process, 0, out) == out,
{
    let node = process.nodes@[n - 1];
    let before = graph::indexed(process, (n - 1) as nat, out);
    let mid = keyed::put(before, node.id@, graph::shape(process, node));
    keyed::lookup_put(before, node.id@, graph::shape(process, node), id);
    keyed::lookup_put(before, node.id@, graph::shape(process, node), node.id@);
    let after = graph::indexed(process, n, out);
    match node.kind {
        NodeKind::SubProcess(inner) => {
            assert(after == graph::indexed(*inner, inner.nodes@.len(), mid));
        },
        NodeKind::TransactionSubProcess(inner) => {
            assert(after == graph::indexed(*inner, inner.nodes@.len(), mid));
        },
        NodeKind::AdHocSubProcess(inner) => {
            assert(after == graph::indexed(*inner, inner.nodes@.len(), mid));
        },
        NodeKind::EventSubProcess(inner) => {
            assert(after == graph::indexed(*inner, inner.nodes@.len(), mid));
        },
        NodeKind::MultiInstance(inner) => {
            keyed::lookup_put(mid, inner.id@, graph::shape(process, *inner), id);
            keyed::lookup_put(mid, inner.id@, graph::shape(process, *inner), node.id@);
            keyed::lookup_put(mid, inner.id@, graph::shape(process, *inner), inner.id@);
        },
        NodeKind::StandardLoop(inner) => {
            keyed::lookup_put(mid, inner.id@, graph::shape(process, *inner), id);
            keyed::lookup_put(mid, inner.id@, graph::shape(process, *inner), node.id@);
            keyed::lookup_put(mid, inner.id@, graph::shape(process, *inner), inner.id@);
        },
        _ => {},
    }
}

/// A process is found under its own id with all its nodes; the processes of a later module stand
/// over those of an earlier.
pub proof fn a_process_is_found_by_its_id(
    processes: Seq<ProcessDefinition>,
    p: ProcessDefinition,
    out: Seq<(Seq<char>, Shapes)>,
    modules: Seq<ProcessModule>,
    last: ProcessModule,
    other: Seq<char>,
)
    ensures
        keyed::lookup(graph::with_processes(processes.push(p), out), p.id@) == Some(
            graph::indexed(p, p.nodes@.len(), Seq::empty()),
        ),
        other != p.id@ ==> keyed::lookup(graph::with_processes(processes.push(p), out), other)
            == keyed::lookup(graph::with_processes(processes, out), other),
        graph::with_processes(Seq::<ProcessDefinition>::empty(), out) == out,
        graph::with_modules(modules.push(last)) == graph::with_processes(
            last.processes@,
            graph::with_modules(modules),
        ),
        graph::with_modules(Seq::<ProcessModule>::empty()).len() == 0,
{
    assert(processes.push(p).drop_last() =~= processes);
    assert(processes.push(p).last() == p);
    assert(modules.push(last).drop_last() =~= modules);
    assert(modules.push(last).last() == last);
    let before = graph::with_processes(processes, out);
    keyed::lookup_put(before, p.id@, graph::shapes(p), p.id@);
    keyed::lookup_put(before, p.id@, graph::shapes(p), other);
}

// ---- batches -----------------------------------------------------------------------------------

/// Every outcome has a name of its own.
pub proof fn an_outcome_has_its_name()
    ensures
        MigrationOutcome::Migrated.label_view() == "MIGRATED"@,
        MigrationOutcome::DryRunValid.label_view() == "VALID"@,
        MigrationOutcome::Refused.label_view() == "REFUSED"@,
        MigrationOutcome::Bounced.label_view() == "BOUNCED"@,
        MigrationOutcome::NotFound.label_view() == "NOT_FOUND"@,
        MigrationOutcome::Error.label_view() == "ERROR"@,
{
}

/// An attempt counts once under its own outcome, and once as resumed where it was; two batches count
/// together what each counts.
pub proof fn an_attempt_counts_once(
    a: Seq<InstanceAttemptView>,
    b: Seq<InstanceAttemptView>,
    p: InstanceAttemptView,
    want: MigrationOutcome,
)
    ensures
        batch::count(a + b, want) == batch::count(a, want) + batch::count(b, want),
        batch::count(seq![p], want) == if p.outcome == want {
            1int
        } else {
            0
        },
        batch::count_resumed(a + b) == batch::count_resumed(a) + batch::count_resumed(b),
        batch::count_resumed(seq![p]) == if p.resumed {
            1int
        } else {
            0
        },
    decreases b.len(),
{
    let none = Seq::<InstanceAttemptView>::empty();
    assert(seq![p].drop_last() =~= none);
    assert(seq![p].last() == p);
    assert(batch::count(none, want) == 0);
    assert(batch::count_resumed(none) == 0);
    if b.len() == 0 {
        assert(a + b =~= a);
    } else {
        an_attempt_counts_once(a, b.drop_last(), p, want);
        assert((a + b).drop_last() =~= a + b.drop_last());
        assert((a + b).last() == b.last());
    }
}

/// An entry is the attempt's report with the instance, the outcome's name, and whether asking again
/// is safe, which it is only where the attempt bounced.
pub proof fn an_entry_says_whether_to_ask_again(a: InstanceAttempt, name: Seq<char>)
    requires
        a.report@ is Object,
    ensures
        ({
            let d = a@.entry();
            &&& d.text_member("instanceId"@) == Some(a.instance_id@)
            &&& d.text_member("outcome"@) == Some(a.outcome.label_view())
            &&& d.member("retrySafe"@) == Some(
                JsonView::Bool(a.outcome == MigrationOutcome::Bounced),
            )
            &&& name != "instanceId"@ && name != "outcome"@ && name != "retrySafe"@ ==> d.member(
                name,
            ) == a.report@.member(name)
        }),
{
    reveal_strlit("instanceId");
    reveal_strlit("outcome");
    reveal_strlit("retrySafe");
    let j = a.report@;
    json::members_with(j, "instanceId"@, JsonView::Text(a.instance_id@));
    let j1 = j.with("instanceId"@, JsonView::Text(a.instance_id@));
    json::members_with(j1, "outcome"@, JsonView::Text(a.outcome.label_view()));
    let j2 = j1.with("outcome"@, JsonView::Text(a.outcome.label_view()));
    json::members_with(
        j2,
        "retrySafe"@,
        JsonView::Bool(a.outcome == MigrationOutcome::Bounced),
    );
    let j3 = j2.with("retrySafe"@, JsonView::Bool(a.outcome == MigrationOutcome::Bounced));
    assert(a@.entry() == j3);
    assert("instanceId"@.len() == 10 && "outcome"@.len() == 7 && "retrySafe"@.len() == 9);
    assert(j3.member("instanceId"@) == Some(JsonView::Text(a.instance_id@)));
    assert(j3.member("outcome"@) == Some(JsonView::Text(a.outcome.label_view())));
    assert(j3.member(name) == if name == "retrySafe"@ {
        Some(JsonView::Bool(a.outcome == MigrationOutcome::Bounced))
    } else {
        j2.member(name)
    });
}

/// A filter is told as it was asked.
pub proof fn a_filter_is_told_as_asked(filter: BatchFilter)
    ensures
        ({
            let d = filter@.json();
            &&& d.text_member("sourceDeploymentId"@) == Some(filter.source_deployment_id@)
            &&& d.text_member("processId"@) == sources::opt(filter.process_id)
            &&& d.text_member("status"@) == sources::opt(filter.status)
            &&& d.member("includeTerminal"@) == Some(JsonView::Bool(filter.include_terminal))
            &&& d.member("limit"@) == Some(JsonView::Int(filter.limit as int))
        }),
{
    reveal_strlit("sourceDeploymentId");
    reveal_strlit("processId");
    reveal_strlit("status");
    reveal_strlit("includeTerminal");
    reveal_strlit("limit");
    let f = filter@;
    json::members_with(JsonView::empty(), "sourceDeploymentId"@, JsonView::Text(f.source_deployment_id));
    let j1 = JsonView::empty().with("sourceDeploymentId"@, JsonView::Text(f.source_deployment_id));
    json::members_with(j1, "processId"@, json::optional(f.process_id));
    let j2 = j1.with("processId"@, json::optional(f.process_id));
    json::members_with(j2, "status"@, json::optional(f.status));
    let j3 = j2.with("status"@, json::optional(f.status));
    json::members_with(j3, "includeTerminal"@, JsonView::Bool(f.include_terminal));
    let j4 = j3.with("includeTerminal"@, JsonView::Bool(f.include_terminal));
    json::members_with(j4, "limit"@, JsonView::Int(f.limit as int));
    let j5 = j4.with("limit"@, JsonView::Int(f.limit as int));
}

/// The totals count each outcome under its own name.
pub proof fn totals_count_each_outcome(v: Seq<InstanceAttemptView>)
    ensures
        ({
            let d = batch::totals(v);
            &&& d.member("migrated"@) == Some(
                JsonView::Int(batch::count(v, MigrationOutcome::Migrated) as int),
            )
            &&& d.member("valid"@) == Some(
                JsonView::Int(batch::count(v, MigrationOutcome::DryRunValid) as int),
            )
            &&& d.member("refused"@) == Some(
                JsonView::Int(batch::count(v, MigrationOutcome::Refused) as int),
            )
            &&& d.member("bounced"@) == Some(
                JsonView::Int(batch::count(v, MigrationOutcome::Bounced) as int),
            )
            &&& d.member("notFound"@) == Some(
                JsonView::Int(batch::count(v, MigrationOutcome::NotFound) as int),
            )
            &&& d.member("errors"@) == Some(
                JsonView::Int(batch::count(v, MigrationOutcome::Error) as int),
            )
            &&& d.member("resumed"@) == Some(JsonView::Int(batch::count_resumed(v) as int))
        }),
{
    reveal_strlit("migrated");
    reveal_strlit("valid");
    reveal_strlit("refused");
    reveal_strlit("bounced");
    reveal_strlit("notFound");
    reveal_strlit("errors");
    reveal_strlit("resumed");
    assert("refused"@[0] == 'r' && "refused"@[2] == 'f');
    assert("bounced"@[0] == 'b');
    assert("resumed"@[0] == 'r' && "resumed"@[2] == 's');
    assert("migrated"@[0] == 'm' && "notFound"@[0] == 'n');
    json::members_with(JsonView::empty(), "migrated"@, JsonView::Int(batch::count(v, MigrationOutcome::Migrated) as int));
    let j1 = JsonView::empty().with("migrated"@, JsonView::Int(batch::count(v, MigrationOutcome::Migrated) as int));
    json::members_with(j1, "valid"@, JsonView::Int(batch::count(v, MigrationOutcome::DryRunValid) as int));
    let j2 = j1.with("valid"@, JsonView::Int(batch::count(v, MigrationOutcome::DryRunValid) as int));
    json::members_with(j2, "refused"@, JsonView::Int(batch::count(v, MigrationOutcome::Refused) as int));
    let j3 = j2.with("refused"@, JsonView::Int(batch::count(v, MigrationOutcome::Refused) as int));
    json::members_with(j3, "bounced"@, JsonView::Int(batch::count(v, MigrationOutcome::Bounced) as int));
    let j4 = j3.with("bounced"@, JsonView::Int(batch::count(v, MigrationOutcome::Bounced) as int));
    json::members_with(j4, "notFound"@, JsonView::Int(batch::count(v, MigrationOutcome::NotFound) as int));
    let j5 = j4.with("notFound"@, JsonView::Int(batch::count(v, MigrationOutcome::NotFound) as int));
    json::members_with(j5, "errors"@, JsonView::Int(batch::count(v, MigrationOutcome::Error) as int));
    let j6 = j5.with("errors"@, JsonView::Int(batch::count(v, MigrationOutcome::Error) as int));
    json::members_with(j6, "resumed"@, JsonView::Int(batch::count_resumed(v) as int));
    let j7 = j6.with("resumed"@, JsonView::Int(batch::count_resumed(v) as int));
}

/// The report of a batch says from where to where, how, for what filter, and of every attempt.
pub proof fn a_batch_is_told_in_full(
    f: BatchFilterView,
    target: Seq<char>,
    plan: MigrationPlanView,
    v: Seq<InstanceAttemptView>,
)
    ensures
        ({
            let d = batch::batch(f, target, plan, v);
            &&& d.text_member("fromDeploymentId"@) == Some(f.source_deployment_id)
            &&& d.text_member("toDeploymentId"@) == Some(target)
            &&& d.text_member("toProcessId"@) == plan.target_process_id
            &&& d.member("dryRun"@) == Some(JsonView::Bool(plan.dry_run))
            &&& d.member("resume"@) == Some(JsonView::Bool(plan.resume))
            &&& d.text_member("mappingSource"@) == Some(plan.source())
            &&& d.member("filter"@) == Some(f.json())
            &&& d.member("selected"@) == Some(JsonView::Int(v.len() as int))
            &&& d.member("totals"@) == Some(batch::totals(v))
            &&& d.member("instances"@) matches Some(JsonView::List(w)) && w.len() == v.len()
                && forall|i: int| 0 <= i < v.len() ==> (#[trigger] w[i]) == v[i].entry()
            &&& d.text_member("note"@) == Some(batch::note(v))
        }),
{
    reveal_strlit("fromDeploymentId");
    reveal_strlit("toDeploymentId");
    reveal_strlit("toProcessId");
    reveal_strlit("dryRun");
    reveal_strlit("resume");
    reveal_strlit("mappingSource");
    reveal_strlit("filter");
    reveal_strlit("selected");
    reveal_strlit("totals");
    reveal_strlit("instances");
    reveal_strlit("note");
    let list = JsonView::List(v.map_values(|a: InstanceAttemptView| a.entry()));
    json::members_with(JsonView::empty(), "fromDeploymentId"@, JsonView::Text(f.source_deployment_id));
    let j1 = JsonView::empty().with("fromDeploymentId"@, JsonView::Text(f.source_deployment_id));
    json::members_with(j1, "toDeploymentId"@, JsonView::Text(target));
    let j2 = j1.with("toDeploymentId"@, JsonView::Text(target));
    json::members_with(j2, "toProcessId"@, json::optional(plan.target_process_id));
    let j3 = j2.with("toProcessId"@, json::optional(plan.target_process_id));
    json::members_with(j3, "dryRun"@, JsonView::Bool(plan.dry_run));
    let j4 = j3.with("dryRun"@, JsonView::Bool(plan.dry_run));
    json::members_with(j4, "resume"@, JsonView::Bool(plan.resume));
    let j5 = j4.with("resume"@, JsonView::Bool(plan.resume));
    json::members_with(j5, "mappingSource"@, JsonView::Text(plan.source()));
    let j6 = j5.with("mappingSource"@, JsonView::Text(plan.source()));
    json::members_with(j6, "filter"@, f.json());
    let j7 = j6.with("filter"@, f.json());
    json::members_with(j7, "selected"@, JsonView::Int(v.len() as int));
    let j8 = j7.with("selected"@, JsonView::Int(v.len() as int));
    json::members_with(j8, "totals"@, batch::totals(v));
    let j9 = j8.with("totals"@, batch::totals(v));
    json::members_with(j9, "instances"@, list);
    let j10 = j9.with("instances"@, list);
    json::members_with(j10, "note"@, JsonView::Text(batch::note(v)));
    let j11 = j10.with("note"@, JsonView::Text(batch::note(v)));
}

/// A note speaks of bounced instances exactly where there are some, and says how many.
pub proof fn a_note_counts_the_bounced(v: Seq<InstanceAttemptView>)
    ensures
        ({
            let base = "each instance was validated, claimed and committed on its own — a refusal or a bounce moves nothing and leaves that instance exactly as it was."@;
            let n = batch::count(v, MigrationOutcome::Bounced);
            &&& n == 0 ==> batch::note(v) == base
            &&& n > 0 ==> text::begins(batch::note(v), base + " "@ + text::decimal(n))
        }),
{
    let base = "each instance was validated, claimed and committed on its own — a refusal or a bounce moves nothing and leaves that instance exactly as it was."@;
    let n = batch::count(v, MigrationOutcome::Bounced);
    if n > 0 {
        let head = base + " "@ + text::decimal(n);
        assert(batch::note(v).take(head.len() as int) =~= head);
    }
}

/// An attempt that moved or would move succeeds, a refused one cannot be processed, a bounced one is
/// a conflict and alone is safe to ask again, a missing instance is not found, and anything else is
/// the engine's own failure.
pub proof fn an_outcome_has_its_status(o: MigrationOutcome)
    ensures
        o.status_view() == 200 <==> o == MigrationOutcome::Migrated || o
            == MigrationOutcome::DryRunValid,
        o.status_view() == 422 <==> o == MigrationOutcome::Refused,
        o.status_view() == 409 <==> o == MigrationOutcome::Bounced,
        o.status_view() == 404 <==> o == MigrationOutcome::NotFound,
        o.status_view() == 500 <==> o == MigrationOutcome::Error,
        o.safe_view() <==> o.status_view() == 409,
{
}

} // verus!
