//! What an engine says of its deployments, and what a directory of archives makes of them.

use vstd::prelude::*;

use crate::assembly::PlanView;
use crate::deploy;
use crate::deploy::{DirectoryView, FileStamp, FileView, SeenArchive};
use crate::bridge::ReplyMode;
use crate::json;
use crate::json::JsonView;
use crate::keyed;
use crate::outside;
use crate::registries;
use crate::sources;
use crate::status;
use crate::status::{CloudEventLite, Completion, SnapshotView};
use crate::text;

verus! {

// ---- documents ---------------------------------------------------------------------------------

/// A deployment is told with its id, its slot, its phase and whether it is ready.
pub proof fn a_deployment_is_told_with_its_slot(
    id: Seq<char>,
    slot: Seq<char>,
    phase: Seq<char>,
    ready: bool,
)
    ensures
        ({
            let d = status::slotted(id, slot, phase, ready);
            &&& d.text_member("deploymentId"@) == Some(id)
            &&& d.text_member("slot"@) == Some(slot)
            &&& d.text_member("phase"@) == Some(phase)
            &&& d.member("ready"@) == Some(JsonView::Bool(ready))
        }),
{
    reveal_strlit("deploymentId");
    reveal_strlit("slot");
    reveal_strlit("phase");
    reveal_strlit("ready");
    json::members_with(JsonView::empty(), "deploymentId"@, JsonView::Text(id));
    let j1 = JsonView::empty().with("deploymentId"@, JsonView::Text(id));
    json::members_with(j1, "slot"@, JsonView::Text(slot));
    let j2 = j1.with("slot"@, JsonView::Text(slot));
    json::members_with(j2, "phase"@, JsonView::Text(phase));
    let j3 = j2.with("phase"@, JsonView::Text(phase));
    json::members_with(j3, "ready"@, JsonView::Bool(ready));
    let j4 = j3.with("ready"@, JsonView::Bool(ready));
}

/// A failure is told with its slot and its own words.
pub proof fn a_failure_is_told_with_its_slot(slot: Seq<char>, error: Seq<char>)
    ensures
        ({
            let d = status::failure(slot, error);
            &&& d.text_member("slot"@) == Some(slot)
            &&& d.text_member("phase"@) == Some("Failed"@)
            &&& d.text_member("error"@) == Some(error)
        }),
{
    reveal_strlit("slot");
    reveal_strlit("phase");
    reveal_strlit("error");
    json::members_with(JsonView::empty(), "slot"@, JsonView::Text(slot));
    let j1 = JsonView::empty().with("slot"@, JsonView::Text(slot));
    json::members_with(j1, "phase"@, JsonView::Text("Failed"@));
    let j2 = j1.with("phase"@, JsonView::Text("Failed"@));
    json::members_with(j2, "error"@, JsonView::Text(error));
    let j3 = j2.with("error"@, JsonView::Text(error));
}

/// The status document lists the active, the pending, the draining and the failed ones each under
/// its own member, in their order: active ones as ready, pending ones as not.
pub proof fn the_status_document_lists_everything(s: SnapshotView)
    ensures
        ({
            let d = s.document();
            &&& d.member("active"@) matches Some(JsonView::List(v)) && v.len() == s.active.len()
                && forall|i: int|
                0 <= i < v.len() ==> (#[trigger] v[i]) == status::slotted(
                    s.active[i].0,
                    s.active[i].1,
                    "Active"@,
                    true,
                )
            &&& d.member("pending"@) matches Some(JsonView::List(v)) && v.len() == s.pending.len()
                && forall|i: int|
                0 <= i < v.len() ==> (#[trigger] v[i]) == status::slotted(
                    s.pending[i].0,
                    s.pending[i].1,
                    "Pending"@,
                    false,
                )
            &&& d.member("draining"@) matches Some(JsonView::List(v)) && v.len() == s.draining.len()
                && forall|i: int|
                0 <= i < v.len() ==> (#[trigger] v[i]) == JsonView::Text(s.draining[i])
            &&& d.member("failed"@) matches Some(JsonView::List(v)) && v.len() == s.failed.len()
                && forall|i: int|
                0 <= i < v.len() ==> (#[trigger] v[i]) == status::failure(
                    s.failed[i].0,
                    s.failed[i].1,
                )
        }),
{
    reveal_strlit("active");
    reveal_strlit("pending");
    reveal_strlit("draining");
    reveal_strlit("failed");
    let a = JsonView::List(
        s.active.map_values(|e: (Seq<char>, Seq<char>)| status::slotted(e.0, e.1, "Active"@, true)),
    );
    let p = JsonView::List(
        s.pending.map_values(
            |e: (Seq<char>, Seq<char>)| status::slotted(e.0, e.1, "Pending"@, false),
        ),
    );
    let g = JsonView::List(s.draining.map_values(|d: Seq<char>| JsonView::Text(d)));
    let f = JsonView::List(
        s.failed.map_values(|e: (Seq<char>, Seq<char>)| status::failure(e.0, e.1)),
    );
    json::members_with(JsonView::empty(), "active"@, a);
    let j1 = JsonView::empty().with("active"@, a);
    json::members_with(j1, "pending"@, p);
    let j2 = j1.with("pending"@, p);
    json::members_with(j2, "draining"@, g);
    let j3 = j2.with("draining"@, g);
    json::members_with(j3, "failed"@, f);
    assert(s.document() == j3.with("failed"@, f));
}

proof fn first_slot(v: Seq<(Seq<char>, Seq<char>)>, id: Seq<char>)
    ensures
        match status::slot_in(v, id) {
            Some(slot) => exists|i: int|
                0 <= i < v.len() && #[trigger] v[i] == (id, slot) && forall|j: int|
                    0 <= j < i ==> (#[trigger] v[j]).0 != id,
            None => forall|i: int| 0 <= i < v.len() ==> (#[trigger] v[i]).0 != id,
        },
    decreases v.len(),
{
    if v.len() > 0 && v[0].0 != id {
        let rest = v.drop_first();
        first_slot(rest, id);
        match status::slot_in(rest, id) {
            Some(slot) => {
                let i = choose|i: int|
                    0 <= i < rest.len() && #[trigger] rest[i] == (id, slot) && forall|j: int|
                        0 <= j < i ==> (#[trigger] rest[j]).0 != id;
                assert(v[i + 1] == (id, slot));
                assert forall|j: int| 0 <= j < i + 1 implies (#[trigger] v[j]).0 != id by {
                    if j > 0 {
                        assert(rest[j - 1] == v[j]);
                    }
                }
            },
            None => {
                assert forall|i: int| 0 <= i < v.len() implies (#[trigger] v[i]).0 != id by {
                    if i > 0 {
                        assert(rest[i - 1] == v[i]);
                    }
                }
            },
        }
    } else if v.len() > 0 {
        assert(v[0] == (id, v[0].1));
    }
}

/// A slot is found in a list exactly where an entry of that id stands there, and it is the first
/// such entry's.
pub proof fn a_slot_is_the_first_of_its_id(v: Seq<(Seq<char>, Seq<char>)>, id: Seq<char>)
    ensures
        match status::slot_in(v, id) {
            Some(slot) => exists|i: int|
                0 <= i < v.len() && #[trigger] v[i] == (id, slot) && forall|j: int|
                    0 <= j < i ==> (#[trigger] v[j]).0 != id,
            None => forall|i: int| 0 <= i < v.len() ==> (#[trigger] v[i]).0 != id,
        },
{
    first_slot(v, id);
}

/// A deployment is answered as active before pending before draining, and not at all where it is
/// none of these; only an active one is ready.
pub proof fn a_deployment_is_in_one_phase(s: SnapshotView, id: Seq<char>)
    ensures
        ({
            let active = exists|i: int| 0 <= i < s.active.len() && (#[trigger] s.active[i]).0 == id;
            let pending = exists|i: int|
                0 <= i < s.pending.len() && (#[trigger] s.pending[i]).0 == id;
            match s.status_of(id) {
                Some(d) => {
                    &&& d.text_member("deploymentId"@) == Some(id)
                    &&& d.text_member("phase"@) == Some(
                        if active {
                            "Active"@
                        } else if pending {
                            "Pending"@
                        } else {
                            "Draining"@
                        },
                    )
                    &&& d.member("ready"@) == Some(JsonView::Bool(active))
                    &&& active || pending || s.draining.contains(id)
                },
                None => !active && !pending && !s.draining.contains(id),
            }
        }),
{
    first_slot(s.active, id);
    first_slot(s.pending, id);
    match status::slot_in(s.active, id) {
        Some(slot) => {
            a_deployment_is_told_with_its_slot(id, slot, "Active"@, true);
        },
        None => match status::slot_in(s.pending, id) {
            Some(slot) => {
                a_deployment_is_told_with_its_slot(id, slot, "Pending"@, false);
            },
            None => {
                reveal_strlit("deploymentId");
                reveal_strlit("phase");
                reveal_strlit("ready");
                json::members_with(JsonView::empty(), "deploymentId"@, JsonView::Text(id));
                let j1 = JsonView::empty().with("deploymentId"@, JsonView::Text(id));
                json::members_with(j1, "phase"@, JsonView::Text("Draining"@));
                let j2 = j1.with("phase"@, JsonView::Text("Draining"@));
                json::members_with(j2, "ready"@, JsonView::Bool(false));
            },
        },
    }
}

// ---- changes of the snapshot -------------------------------------------------------------------

/// Accepting a deployment puts it last among the pending ones, once, unless it is pending or active
/// already; nothing else changes.
pub proof fn accepting_makes_pending_once(s: SnapshotView, id: Seq<char>, slot: Seq<char>)
    ensures
        ({
            let n = status::accepted(s, id, slot);
            let known = (exists|i: int|
                0 <= i < s.active.len() && (#[trigger] s.active[i]).0 == id) || (exists|i: int|
                0 <= i < s.pending.len() && (#[trigger] s.pending[i]).0 == id);
            &&& known ==> n == s
            &&& !known ==> n.pending == s.pending + seq![(id, slot)] && n.active == s.active
                && n.draining == s.draining && n.failed == s.failed
        }),
{
    first_slot(s.active, id);
    first_slot(s.pending, id);
}

/// Taking an id out of a list takes out every entry of that id and leaves the others in their order.
pub proof fn the_others_stay_in_order(
    a: Seq<(Seq<char>, Seq<char>)>,
    b: Seq<(Seq<char>, Seq<char>)>,
    p: (Seq<char>, Seq<char>),
    id: Seq<char>,
)
    ensures
        status::others(a + b, id) == status::others(a, id) + status::others(b, id),
        status::others(seq![p], id) == if p.0 == id {
            Seq::empty()
        } else {
            seq![p]
        },
    decreases b.len(),
{
    let none = Seq::<(Seq<char>, Seq<char>)>::empty();
    assert(seq![p].drop_last() =~= none);
    assert(seq![p].last() == p);
    assert(status::others(none, id) =~= Seq::<(Seq<char>, Seq<char>)>::empty());
    assert(Seq::<(Seq<char>, Seq<char>)>::empty().push(p) =~= seq![p]);
    if b.len() == 0 {
        assert(a + b =~= a);
        assert(status::others(a, id) + status::others(b, id) =~= status::others(a, id));
    } else {
        the_others_stay_in_order(a, b.drop_last(), p, id);
        assert((a + b).drop_last() =~= a + b.drop_last());
        assert((a + b).last() == b.last());
        let x = status::others(a, id);
        let y = status::others(b.drop_last(), id);
        assert((x + y).push(b.last()) =~= x + y.push(b.last()));
    }
}

/// A pending deployment that fails is pending no longer, and its slot is told as failed with its
/// words, unless the slot was told before; nothing else changes.
pub proof fn a_failed_deployment_is_told_once(
    s: SnapshotView,
    id: Seq<char>,
    slot: Seq<char>,
    error: Seq<char>,
)
    ensures
        ({
            let n = status::failed_pending(s, id, slot, error);
            let told = exists|i: int| 0 <= i < s.failed.len() && (#[trigger] s.failed[i]).0 == slot;
            &&& n.pending == status::others(s.pending, id)
            &&& told ==> n.failed == s.failed
            &&& !told ==> n.failed == s.failed + seq![(slot, error)]
            &&& n.active == s.active && n.draining == s.draining
        }),
{
    first_slot(s.failed, slot);
}

/// Of the rows of the store, those of served deployments are active, in their order.
pub proof fn rows_of_served_deployments_are_active(
    a: Seq<(Seq<char>, Seq<char>)>,
    b: Seq<(Seq<char>, Seq<char>)>,
    p: (Seq<char>, Seq<char>),
    ids: Seq<Seq<char>>,
)
    ensures
        status::among(a + b, ids) == status::among(a, ids) + status::among(b, ids),
        status::among(seq![p], ids) == if ids.contains(p.0) {
            seq![p]
        } else {
            Seq::empty()
        },
    decreases b.len(),
{
    let none = Seq::<(Seq<char>, Seq<char>)>::empty();
    assert(seq![p].drop_last() =~= none);
    assert(seq![p].last() == p);
    assert(status::among(none, ids) =~= Seq::<(Seq<char>, Seq<char>)>::empty());
    assert(Seq::<(Seq<char>, Seq<char>)>::empty().push(p) =~= seq![p]);
    if b.len() == 0 {
        assert(a + b =~= a);
        assert(status::among(a, ids) + status::among(b, ids) =~= status::among(a, ids));
    } else {
        rows_of_served_deployments_are_active(a, b.drop_last(), p, ids);
        assert((a + b).drop_last() =~= a + b.drop_last());
        assert((a + b).last() == b.last());
        let x = status::among(a, ids);
        let y = status::among(b.drop_last(), ids);
        assert((x + y).push(b.last()) =~= x + y.push(b.last()));
    }
}

/// A pending entry stays pending exactly where no entry of the other list has its id.
pub proof fn what_landed_is_no_longer_pending(
    a: Seq<(Seq<char>, Seq<char>)>,
    b: Seq<(Seq<char>, Seq<char>)>,
    p: (Seq<char>, Seq<char>),
    w: Seq<(Seq<char>, Seq<char>)>,
)
    ensures
        status::not_in(a + b, w) == status::not_in(a, w) + status::not_in(b, w),
        status::not_in(seq![p], w) == if exists|i: int|
            0 <= i < w.len() && (#[trigger] w[i]).0 == p.0 {
            Seq::empty()
        } else {
            seq![p]
        },
    decreases b.len(),
{
    let none = Seq::<(Seq<char>, Seq<char>)>::empty();
    assert(seq![p].drop_last() =~= none);
    assert(seq![p].last() == p);
    assert(status::not_in(none, w) =~= Seq::<(Seq<char>, Seq<char>)>::empty());
    assert(Seq::<(Seq<char>, Seq<char>)>::empty().push(p) =~= seq![p]);
    first_slot(w, p.0);
    if b.len() == 0 {
        assert(a + b =~= a);
        assert(status::not_in(a, w) + status::not_in(b, w) =~= status::not_in(a, w));
    } else {
        what_landed_is_no_longer_pending(a, b.drop_last(), p, w);
        assert((a + b).drop_last() =~= a + b.drop_last());
        assert((a + b).last() == b.last());
        let x = status::not_in(a, w);
        let y = status::not_in(b.drop_last(), w);
        assert((x + y).push(b.last()) =~= x + y.push(b.last()));
    }
}

/// After an activation from the store the served rows are active, the draining ones drain, what
/// landed is pending no longer, and no failure is told.
pub proof fn an_activation_rewrites_the_snapshot(
    s: SnapshotView,
    rows: Seq<(Seq<char>, Seq<char>)>,
    served: Seq<Seq<char>>,
    draining: Seq<Seq<char>>,
)
    ensures
        ({
            let n = status::reactivated(s, rows, served, draining);
            &&& n.active == status::among(rows, served)
            &&& n.pending == status::not_in(s.pending, status::among(rows, served))
            &&& n.draining == draining
            &&& n.failed.len() == 0
        }),
{
}

// ---- completion events -------------------------------------------------------------------------

/// The event of an ending says how it ended, of which deployment, when and as what; the same ending
/// of the same deployment has the same id and the same key, and another ending another.
pub proof fn an_ending_is_announced_as_it_was(
    event: CloudEventLite,
    data: Seq<u8>,
    key: Seq<char>,
    id: Seq<char>,
    slot: Seq<char>,
    revision: i64,
    error: Option<Seq<char>>,
    time: Option<Seq<char>>,
)
    requires
        status::announces(event, data, key, id, slot, revision, error, time),
    ensures
        error is None ==> event.id@ == id + ":"@ + "activated"@ && event.ce_type@
            == "com.sutra.deployment."@ + "activated"@ && key == "dep-complete:"@ + id + ":"@
            + "activated"@,
        error is Some ==> event.id@ == id + ":"@ + "failed"@ && event.ce_type@
            == "com.sutra.deployment."@ + "failed"@ && key == "dep-complete:"@ + id + ":"@
            + "failed"@,
        event.source@ == "urn:sutra:deployment-controller"@,
        event.spec_version@ == "1.0"@,
        event.subject matches Some(s) && s@ == id,
        sources::opt(event.time) == time,
        event.data_content_type matches Some(s) && s@ == "application/json"@,
        data == status::object_bytes(
            status::completion_texts(id, slot, error),
            "revision"@,
            revision as int,
        ),
{
}

/// The body of a completion says the deployment, the slot, how it ended, and the words of a failure.
pub proof fn an_ending_says_its_words(id: Seq<char>, slot: Seq<char>, error: Option<Seq<char>>)
    ensures
        ({
            let t = status::completion_texts(id, slot, error);
            &&& t[0] == ("deploymentId"@, id)
            &&& t[1] == ("slot"@, slot)
            &&& error is None ==> t.len() == 3 && t[2] == ("status"@, "activated"@)
            &&& error matches Some(e) ==> t.len() == 4 && t[2] == ("status"@, "failed"@) && t[3] == (
                "error"@,
                e,
            )
        }),
{
}

/// One outbox row is written for every sink, in their order, to that sink, ready at once; it belongs
/// to no instance, may be lost, and is sent as a structured event.
pub proof fn every_sink_gets_a_row(
    c: Completion,
    id: Seq<char>,
    slot: Seq<char>,
    revision: i64,
    error: Option<Seq<char>>,
    sinks: Seq<Seq<char>>,
    now: i128,
)
    requires
        status::completes(c, id, slot, revision, error, sinks, now),
    ensures
        c.rows@.len() == sinks.len(),
        forall|i: int|
            0 <= i < sinks.len() ==> {
                &&& (#[trigger] c.rows@[i]).destination@ == sinks[i]
                &&& c.rows@[i].deployment@ == id
                &&& c.rows@[i].at == now
                &&& c.rows@[i].instance_id == 0
                &&& c.rows@[i].content_type matches Some(t) && t@ == "application/json"@
                &&& !c.rows@[i].required
                &&& c.rows@[i].mode == ReplyMode::CloudEventStructured
                &&& c.rows@[i].attempt_count == 0
                &&& c.rows@[i].last_diagnostic_json is None
                &&& c.rows@[i].headers@.len() == 0 && c.rows@[i].labels@.len() == 0
                &&& c.rows@[i].auth_ref_json is None && c.rows@[i].traceparent is None
                &&& c.rows@[i].node_id is None
            },
        sources::opt(c.event.time) == outside::rfc3339_text(now),
        c.event.subject matches Some(s) && s@ == id,
{
}

// ---- the directory -----------------------------------------------------------------------------

/// A file is an archive by the ending behind its last dot, in either case of letters; a name that
/// begins with its only dot is none.
pub proof fn an_archive_is_known_by_its_ending(stem: Seq<char>, ending: Seq<char>)
    requires
        stem.len() > 0,
        !ending.contains('.'),
    ensures
        deploy::is_archive(stem + seq!['.'] + ending) <==> text::lowered(ending) == "sutra"@,
        !deploy::is_archive(seq!['.'] + ending),
        !deploy::is_archive(ending),
{
    let name = stem + seq!['.'] + ending;
    last_dot_found(name, stem.len() as int);
    assert(name.skip(stem.len() as int + 1) =~= ending);
    let hidden = seq!['.'] + ending;
    last_dot_found(hidden, 0);
    no_dot(ending);
}

proof fn last_dot_found(name: Seq<char>, at: int)
    requires
        0 <= at < name.len(),
        name[at] == '.',
        !name.skip(at + 1).contains('.'),
    ensures
        deploy::last_dot(name) == at,
    decreases name.len(),
{
    let n = name.len() - 1;
    if at < n {
        assert(name.skip(at + 1)[n - at - 1] == name[n]);
        assert(name.last() != '.');
        let rest = name.drop_last();
        let tail = rest.skip(at + 1);
        assert forall|i: int| 0 <= i < tail.len() implies (#[trigger] tail[i]) != '.' by {
            assert(tail[i] == name.skip(at + 1)[i]);
        }
        last_dot_found(rest, at);
    }
}

proof fn no_dot(name: Seq<char>)
    requires
        !name.contains('.'),
    ensures
        deploy::last_dot(name) == -1,
    decreases name.len(),
{
    if name.len() > 0 {
        assert(name[name.len() - 1] != '.');
        let rest = name.drop_last();
        assert forall|i: int| 0 <= i < rest.len() implies (#[trigger] rest[i]) != '.' by {
            assert(rest[i] == name[i]);
        }
        no_dot(rest);
    }
}

/// Of what a directory holds, the files that are archives are listed, in their order; a directory is
/// none.
pub proof fn only_archive_files_are_listed(
    a: Seq<(Seq<char>, bool)>,
    b: Seq<(Seq<char>, bool)>,
    p: (Seq<char>, bool),
)
    ensures
        deploy::archives_among(a + b) == deploy::archives_among(a) + deploy::archives_among(b),
        deploy::archives_among(seq![p]) == if p.1 && deploy::is_archive(p.0) {
            seq![p.0]
        } else {
            Seq::empty()
        },
    decreases b.len(),
{
    let none = Seq::<(Seq<char>, bool)>::empty();
    assert(seq![p].drop_last() =~= none);
    assert(seq![p].last() == p);
    assert(deploy::archives_among(none) =~= Seq::<Seq<char>>::empty());
    assert(Seq::<Seq<char>>::empty().push(p.0) =~= seq![p.0]);
    if b.len() == 0 {
        assert(a + b =~= a);
        assert(deploy::archives_among(a) + deploy::archives_among(b) =~= deploy::archives_among(a));
    } else {
        only_archive_files_are_listed(a, b.drop_last(), p);
        assert((a + b).drop_last() =~= a + b.drop_last());
        assert((a + b).last() == b.last());
        let x = deploy::archives_among(a);
        let y = deploy::archives_among(b.drop_last());
        assert((x + y).push(b.last().0) =~= x + y.push(b.last().0));
    }
}

/// A file is prepared again exactly where it is new or its stamp has changed.
pub proof fn only_a_changed_file_is_stale(
    files: Seq<(Seq<char>, FileView)>,
    slot: Seq<char>,
    stamp: FileStamp,
)
    ensures
        deploy::stale(files, slot, stamp) <==> match keyed::lookup(files, slot) {
            Some(f) => f.stamp.len != stamp.len || f.stamp.mtime != stamp.mtime,
            None => true,
        },
{
}

/// What is seen of one slot changes that slot alone. An archive that could be prepared contributes
/// its deployment and its plan is kept under that id; one that could not leaves what its slot
/// contributed and says why; an unreadable or unchanged file changes nothing.
pub proof fn what_is_seen_changes_its_slot(d: DirectoryView, s: SeenArchive, other: Seq<char>)
    requires
        keyed::ascending(d.files),
    ensures
        ({
            let n = deploy::noticed(d, s);
            let was = keyed::lookup(d.files, s.slot@);
            let now = keyed::lookup(n.files, s.slot@);
            &&& other != s.slot@ ==> keyed::lookup(n.files, other) == keyed::lookup(d.files, other)
            &&& n.active == d.active && n.draining == d.draining
            &&& s.stamp is None || s.prepared is None || (was matches Some(f) && f.stamp
                == s.stamp->0) ==> n == d
            &&& s.stamp is Some && !(was matches Some(f) && f.stamp == s.stamp->0)
                ==> match s.prepared {
                Some(Ok(plan)) => {
                    &&& now matches Some(f) && f.stamp == s.stamp->0 && f.current == Some(plan.dep@)
                        && f.last_error is None
                    &&& keyed::lookup(n.prepared, plan.dep@) == Some(plan@)
                    &&& other != plan.dep@ ==> keyed::lookup(n.prepared, other) == keyed::lookup(
                        d.prepared,
                        other,
                    )
                },
                Some(Err(e)) => {
                    &&& now matches Some(f) && f.stamp == s.stamp->0 && f.last_error == Some(e@)
                        && f.current == (if was is Some {
                        was->0.current
                    } else {
                        None
                    })
                    &&& n.prepared == d.prepared
                },
                None => n == d,
            }
        }),
{
    match (s.stamp, s.prepared) {
        (Some(stamp), Some(Ok(plan))) => {
            let f = FileView { stamp, current: Some(plan@.dep), last_error: None };
            keyed::lookup_put(d.files, s.slot@, f, other);
            keyed::lookup_put(d.files, s.slot@, f, s.slot@);
            keyed::lookup_put(d.prepared, plan@.dep, plan@, other);
            keyed::lookup_put(d.prepared, plan@.dep, plan@, plan@.dep);
        },
        (Some(stamp), Some(Err(e))) => {
            let f = FileView {
                stamp,
                current: deploy::contribution(d.files, s.slot@),
                last_error: Some(e@),
            };
            keyed::lookup_put(d.files, s.slot@, f, other);
            keyed::lookup_put(d.files, s.slot@, f, s.slot@);
        },
        _ => {},
    }
}

/// A scan notices one file after another and then forgets every slot that it did not see.
pub proof fn a_scan_forgets_what_is_gone(
    d: DirectoryView,
    seen: Seq<SeenArchive>,
    last: SeenArchive,
    slot: Seq<char>,
)
    ensures
        deploy::all_noticed(d, seen.push(last)) == deploy::noticed(
            deploy::all_noticed(d, seen),
            last,
        ),
        deploy::all_noticed(d, Seq::<SeenArchive>::empty()) == d,
        keyed::lookup(deploy::scanned(d, seen).files, slot) == if exists|i: int|
            0 <= i < seen.len() && (#[trigger] seen[i]).slot@ == slot {
            keyed::lookup(deploy::all_noticed(d, seen).files, slot)
        } else {
            None
        },
        deploy::scanned(d, seen).prepared == deploy::all_noticed(d, seen).prepared,
        deploy::scanned(d, seen).active == deploy::all_noticed(d, seen).active,
        deploy::scanned(d, seen).draining == deploy::all_noticed(d, seen).draining,
{
    let all = seen.push(last);
    assert(all.drop_last() =~= seen);
    assert(all.last() == last);
    let names = deploy::slots(seen);
    keyed::lookup_kept(deploy::all_noticed(d, seen).files, keyed::one_of(names), slot);
    if exists|i: int| 0 <= i < seen.len() && (#[trigger] seen[i]).slot@ == slot {
        let i = choose|i: int| 0 <= i < seen.len() && (#[trigger] seen[i]).slot@ == slot;
        assert(names[i] == slot);
    }
    if names.contains(slot) {
        let i = choose|i: int| 0 <= i < names.len() && names[i] == slot;
        assert(seen[i].slot@ == slot);
    }
}

/// A deployment is wanted exactly where a file contributes it.
pub proof fn a_wanted_deployment_is_contributed(
    files: Seq<(Seq<char>, FileView)>,
    id: Seq<char>,
)
    ensures
        deploy::desired(files).contains(id) <==> exists|i: int|
            0 <= i < files.len() && (#[trigger] files[i]).1.current == Some(id),
        deploy::contributed(files, id) <==> exists|i: int|
            0 <= i < files.len() && (#[trigger] files[i]).1.current == Some(id),
{
    contributions_found(files, id);
    text::firsts_hold_the_same(deploy::contributions(files));
    assert(deploy::desired(files).contains(id) == deploy::contributions(files).contains(id));
}

proof fn contributions_found(files: Seq<(Seq<char>, FileView)>, id: Seq<char>)
    ensures
        deploy::contributions(files).contains(id) <==> exists|i: int|
            0 <= i < files.len() && (#[trigger] files[i]).1.current == Some(id),
    decreases files.len(),
{
    if files.len() > 0 {
        let rest = files.drop_first();
        contributions_found(rest, id);
        let inner = deploy::contributions(rest);
        let all = deploy::contributions(files);
        if inner.contains(id) {
            let k = choose|k: int| 0 <= k < inner.len() && inner[k] == id;
            match files[0].1.current {
                Some(_) => {
                    assert(all[k + 1] == id);
                },
                None => {
                    assert(all[k] == id);
                },
            }
            let i = choose|i: int| 0 <= i < rest.len() && (#[trigger] rest[i]).1.current == Some(id);
            assert(files[i + 1] == rest[i]);
        }
        if files[0].1.current == Some(id) {
            assert(all[0] == id);
        }
        if all.contains(id) && !inner.contains(id) {
            let k = choose|k: int| 0 <= k < all.len() && all[k] == id;
            match files[0].1.current {
                Some(_) => {
                    if k > 0 {
                        assert(inner[k - 1] == id);
                    }
                    assert(files[0].1.current == Some(id));
                },
                None => {
                    assert(inner[k] == id);
                },
            }
        }
        if exists|i: int| 0 <= i < files.len() && (#[trigger] files[i]).1.current == Some(id) {
            let i = choose|i: int|
                0 <= i < files.len() && (#[trigger] files[i]).1.current == Some(id);
            if i > 0 {
                assert(rest[i - 1] == files[i]);
                assert(inner.contains(id));
            }
        }
    }
}

/// Activating makes active what the files contribute, in the order of the files, and nothing else of
/// the directory but what drains changes.
pub proof fn activating_follows_the_files(d: DirectoryView, id: Seq<char>)
    ensures
        ({
            let n = deploy::activated(d);
            let wanted = exists|i: int|
                0 <= i < d.files.len() && (#[trigger] d.files[i]).1.current == Some(id);
            &&& n.active.contains(id) <==> wanted
            &&& n.draining.contains(id) <==> !wanted && (d.active.contains(id)
                || d.draining.contains(id))
            &&& deploy::leaving(d).contains(id) <==> d.active.contains(id) && !wanted
                && !d.draining.contains(id)
            &&& n.files == d.files && n.prepared == d.prepared
        }),
{
    a_wanted_deployment_is_contributed(d.files, id);
    let wanted = deploy::desired(d.files);
    text::minus_contains(d.active, wanted + d.draining, id);
    text::minus_contains(d.draining, wanted, id);
    in_either(wanted, d.draining, id);
    in_either(deploy::leaving(d), text::minus(d.draining, wanted), id);
}

proof fn in_either(a: Seq<Seq<char>>, b: Seq<Seq<char>>, x: Seq<char>)
    ensures
        (a + b).contains(x) <==> a.contains(x) || b.contains(x),
{
    let s = a + b;
    if a.contains(x) {
        let i = choose|i: int| 0 <= i < a.len() && a[i] == x;
        assert(s[i] == x);
    }
    if b.contains(x) {
        let i = choose|i: int| 0 <= i < b.len() && b[i] == x;
        assert(s[a.len() + i] == x);
    }
    if s.contains(x) {
        let i = choose|i: int| 0 <= i < s.len() && s[i] == x;
        if i < a.len() {
            assert(a[i] == x);
        } else {
            assert(b[i - a.len()] == x);
        }
    }
}

/// The plans that serve are those kept under the ids, in the order of the ids; an id without a plan is
/// passed over.
pub proof fn plans_are_found_by_their_ids(
    a: Seq<Seq<char>>,
    b: Seq<Seq<char>>,
    p: Seq<char>,
    prepared: Seq<(Seq<char>, PlanView)>,
)
    ensures
        deploy::found(prepared, a + b) == deploy::found(prepared, a) + deploy::found(prepared, b),
        deploy::found(prepared, seq![p]) == match keyed::lookup(prepared, p) {
            Some(plan) => seq![plan],
            None => Seq::empty(),
        },
    decreases b.len(),
{
    let none = Seq::<Seq<char>>::empty();
    assert(seq![p].drop_last() =~= none);
    assert(seq![p].last() == p);
    assert(deploy::found(prepared, none) =~= Seq::<PlanView>::empty());
    match keyed::lookup(prepared, p) {
        Some(plan) => {
            assert(Seq::<PlanView>::empty().push(plan) =~= seq![plan]);
        },
        None => {},
    }
    if b.len() > 0 {
        let x = deploy::found(prepared, a);
        let y = deploy::found(prepared, b.drop_last());
        match keyed::lookup(prepared, b.last()) {
            Some(plan) => {
                assert((x + y).push(plan) =~= x + y.push(plan));
            },
            None => {},
        }
    }
    if b.len() == 0 {
        assert(a + b =~= a);
        assert(deploy::found(prepared, a) + deploy::found(prepared, b) =~= deploy::found(prepared, a));
    } else {
        plans_are_found_by_their_ids(a, b.drop_last(), p, prepared);
        assert((a + b).drop_last() =~= a + b.drop_last());
        assert((a + b).last() == b.last());
        let x = deploy::found(prepared, a);
        let y = deploy::found(prepared, b.drop_last());
    }
}

/// What serves is the active ones and then the draining ones.
pub proof fn the_draining_still_serve(d: DirectoryView)
    ensures
        deploy::live_plans(d) == deploy::found(d.prepared, d.active) + deploy::found(
            d.prepared,
            d.draining,
        ),
{
}

/// Retiring forgets the plan of a retired deployment exactly where nothing contributes it and it is
/// not active; every other plan stays, and so do the files and the active ones.
pub proof fn retiring_forgets_only_what_is_gone(
    d: DirectoryView,
    retired: Seq<Seq<char>>,
    id: Seq<char>,
)
    ensures
        ({
            let n = deploy::retired_state(d, retired);
            let wanted = exists|i: int|
                0 <= i < d.files.len() && (#[trigger] d.files[i]).1.current == Some(id);
            &&& keyed::lookup(n.prepared, id) == if retired.contains(id) && !wanted
                && !d.active.contains(id) {
                None
            } else {
                keyed::lookup(d.prepared, id)
            }
            &&& n.draining.contains(id) <==> d.draining.contains(id) && !retired.contains(id)
            &&& n.files == d.files && n.active == d.active
        }),
{
    a_wanted_deployment_is_contributed(d.files, id);
    text::minus_contains(d.draining, retired, id);
    unregistered_found(d, retired, id);
}

proof fn unregistered_found(d: DirectoryView, retired: Seq<Seq<char>>, id: Seq<char>)
    ensures
        keyed::lookup(deploy::unregistered(d, retired), id) == if retired.contains(id)
            && !deploy::contributed(d.files, id) && !d.active.contains(id) {
            None
        } else {
            keyed::lookup(d.prepared, id)
        },
    decreases retired.len(),
{
    if retired.len() > 0 {
        let rest = retired.drop_last();
        unregistered_found(d, rest, id);
        assert(rest.push(retired.last()) =~= retired);
        text::push_contains(rest, retired.last(), id);
        keyed::lookup_without(deploy::unregistered(d, rest), retired.last(), id);
    }
}

/// The slot of a deployment is that of the first file that contributes it, and none where no file
/// does.
pub proof fn a_slot_is_of_the_contributing_file(
    files: Seq<(Seq<char>, FileView)>,
    id: Seq<char>,
)
    ensures
        (exists|i: int|
            0 <= i < files.len() && (#[trigger] files[i]).1.current == Some(id) && files[i].0
                == deploy::slot_of(files, id) && forall|j: int|
                0 <= j < i ==> (#[trigger] files[j]).1.current != Some(id)) || (deploy::slot_of(
            files,
            id,
        ).len() == 0 && forall|i: int|
            0 <= i < files.len() ==> (#[trigger] files[i]).1.current != Some(id)),
    decreases files.len(),
{
    if files.len() > 0 {
        if files[0].1.current == Some(id) {
            assert(files[0].0 == deploy::slot_of(files, id));
        } else {
            let rest = files.drop_first();
            a_slot_is_of_the_contributing_file(rest, id);
            if exists|i: int|
                0 <= i < rest.len() && (#[trigger] rest[i]).1.current == Some(id) && rest[i].0
                    == deploy::slot_of(rest, id) && forall|j: int|
                    0 <= j < i ==> (#[trigger] rest[j]).1.current != Some(id) {
                let i = choose|i: int|
                    0 <= i < rest.len() && (#[trigger] rest[i]).1.current == Some(id) && rest[i].0
                        == deploy::slot_of(rest, id) && forall|j: int|
                        0 <= j < i ==> (#[trigger] rest[j]).1.current != Some(id);
                assert(files[i + 1] == rest[i]);
                assert forall|j: int| 0 <= j < i + 1 implies (#[trigger] files[j]).1.current
                    != Some(id) by {
                    if j > 0 {
                        assert(rest[j - 1] == files[j]);
                    }
                }
            } else {
                assert forall|i: int| 0 <= i < files.len() implies (#[trigger] files[i]).1.current
                    != Some(id) by {
                    if i > 0 {
                        assert(rest[i - 1] == files[i]);
                    }
                }
            }
        }
    }
}

/// A file is told as failed exactly where its last preparation failed, under its own slot and with
/// its own words.
pub proof fn every_failed_file_is_told(
    a: Seq<(Seq<char>, FileView)>,
    b: Seq<(Seq<char>, FileView)>,
    p: (Seq<char>, FileView),
)
    ensures
        deploy::failures(a + b) == deploy::failures(a) + deploy::failures(b),
        deploy::failures(seq![p]) == match p.1.last_error {
            Some(e) => seq![(p.0, e)],
            None => Seq::empty(),
        },
    decreases b.len(),
{
    let none = Seq::<(Seq<char>, FileView)>::empty();
    assert(seq![p].drop_last() =~= none);
    assert(seq![p].last() == p);
    assert(deploy::failures(none) =~= Seq::<(Seq<char>, Seq<char>)>::empty());
    match p.1.last_error {
        Some(e) => {
            assert(Seq::<(Seq<char>, Seq<char>)>::empty().push((p.0, e)) =~= seq![(p.0, e)]);
        },
        None => {},
    }
    if b.len() > 0 {
        let x = deploy::failures(a);
        let y = deploy::failures(b.drop_last());
        match b.last().1.last_error {
            Some(e) => {
                assert((x + y).push((b.last().0, e)) =~= x + y.push((b.last().0, e)));
            },
            None => {},
        }
    }
    if b.len() == 0 {
        assert(a + b =~= a);
        assert(deploy::failures(a) + deploy::failures(b) =~= deploy::failures(a));
    } else {
        every_failed_file_is_told(a, b.drop_last(), p);
        assert((a + b).drop_last() =~= a + b.drop_last());
        assert((a + b).last() == b.last());
        let x = deploy::failures(a);
        let y = deploy::failures(b.drop_last());
    }
}

/// The snapshot of a directory lists its active plans with their slots, what drains, what failed,
/// and nothing as pending.
pub proof fn a_directory_is_told_as_it_is(d: DirectoryView)
    ensures
        ({
            let s = deploy::snapshot(d);
            let plans = deploy::found(d.prepared, d.active);
            &&& s.active.len() == plans.len()
            &&& forall|i: int|
                0 <= i < plans.len() ==> (#[trigger] s.active[i]) == (
                    plans[i].dep,
                    deploy::slot_of(d.files, plans[i].dep),
                )
            &&& s.pending.len() == 0
            &&& s.draining == d.draining
            &&& s.failed == deploy::failures(d.files)
        }),
{
}

/// Each deployment's interface and nodes are found under its own id.
pub proof fn surfaces_are_found_by_deployment(v: Seq<PlanView>, p: PlanView, other: Seq<char>)
    ensures
        keyed::lookup(deploy::api_surfaces(v.push(p)), p.dep) == Some(p.openapi_spec),
        other != p.dep ==> keyed::lookup(deploy::api_surfaces(v.push(p)), other) == keyed::lookup(
            deploy::api_surfaces(v),
            other,
        ),
        keyed::lookup(deploy::indexes(v.push(p)), p.dep) == Some(
            crate::graph::with_modules(p.modules),
        ),
        other != p.dep ==> keyed::lookup(deploy::indexes(v.push(p)), other) == keyed::lookup(
            deploy::indexes(v),
            other,
        ),
{
    let all = v.push(p);
    let f = |p: PlanView| (p.dep, p.openapi_spec);
    let g = |p: PlanView| (p.dep, crate::graph::with_modules(p.modules));
    let m = all.map_values(f);
    let n = all.map_values(g);
    assert(m.drop_last() =~= v.map_values(f));
    assert(n.drop_last() =~= v.map_values(g));
    assert(m.last() == (p.dep, p.openapi_spec));
    keyed::lookup_put(
        registries::put_all(Seq::empty(), v.map_values(f)),
        p.dep,
        p.openapi_spec,
        p.dep,
    );
    keyed::lookup_put(
        registries::put_all(Seq::empty(), v.map_values(f)),
        p.dep,
        p.openapi_spec,
        other,
    );
    keyed::lookup_put(
        registries::put_all(Seq::empty(), v.map_values(g)),
        p.dep,
        crate::graph::with_modules(p.modules),
        p.dep,
    );
    keyed::lookup_put(
        registries::put_all(Seq::empty(), v.map_values(g)),
        p.dep,
        crate::graph::with_modules(p.modules),
        other,
    );
}

/// A directory serves every active deployment that it has a plan of, and every draining one.
pub proof fn a_directory_serves_active_and_draining(d: DirectoryView, i: int)
    ensures
        ({
            let plans = deploy::found(d.prepared, d.active);
            &&& deploy::live_of(d).len() == plans.len() + d.draining.len()
            &&& 0 <= i < plans.len() ==> deploy::live_of(d)[i] == plans[i].dep
            &&& 0 <= i < d.draining.len() ==> deploy::live_of(d)[plans.len() + i] == d.draining[i]
        }),
{
}

} // verus!
