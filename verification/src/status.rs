//! What is published about deployments, and the events that announce how one ended.

use vstd::prelude::*;

use crate::bridge::ReplyMode;
use crate::json::{Json, JsonView};
use crate::json;
use crate::outside;
use crate::sources;
use crate::text;

verus! {

/// A point-in-time view of the deployments.
pub struct DeploymentStatusSnapshot {
    /// Deployments that serve intake, each with its slot.
    pub active: Vec<(String, String)>,
    /// Deployments that were accepted and are not active yet, each with its slot.
    pub pending: Vec<(String, String)>,
    /// Deployments that were flipped away from and finish their work.
    pub draining: Vec<String>,
    /// Slots whose most recent contents were rejected, each with the error.
    pub failed: Vec<(String, String)>,
}

/// The contents of a [`DeploymentStatusSnapshot`].
pub struct SnapshotView {
    pub active: Seq<(Seq<char>, Seq<char>)>,
    pub pending: Seq<(Seq<char>, Seq<char>)>,
    pub draining: Seq<Seq<char>>,
    pub failed: Seq<(Seq<char>, Seq<char>)>,
}

impl View for DeploymentStatusSnapshot {
    type V = SnapshotView;

    open spec fn view(&self) -> SnapshotView {
        SnapshotView {
            active: text::pairs(self.active@),
            pending: text::pairs(self.pending@),
            draining: text::texts(self.draining@),
            failed: text::pairs(self.failed@),
        }
    }
}

// ---- documents ---------------------------------------------------------------------------------

/// The document of a deployment with a slot.
pub open spec fn slotted(
    id: Seq<char>,
    slot: Seq<char>,
    phase: Seq<char>,
    ready: bool,
) -> JsonView {
    JsonView::empty().with("deploymentId"@, JsonView::Text(id)).with(
        "slot"@,
        JsonView::Text(slot),
    ).with("phase"@, JsonView::Text(phase)).with("ready"@, JsonView::Bool(ready))
}

/// The document of a slot that failed.
pub open spec fn failure(slot: Seq<char>, error: Seq<char>) -> JsonView {
    JsonView::empty().with("slot"@, JsonView::Text(slot)).with(
        "phase"@,
        JsonView::Text("Failed"@),
    ).with("error"@, JsonView::Text(error))
}

/// The slot of a deployment in a row.
pub open spec fn slot_in(v: Seq<(Seq<char>, Seq<char>)>, id: Seq<char>) -> Option<Seq<char>>
    decreases v.len(),
{
    if v.len() == 0 {
        None
    } else if v[0].0 == id {
        Some(v[0].1)
    } else {
        slot_in(v.drop_first(), id)
    }
}

impl SnapshotView {
    /// The whole snapshot as a document.
    pub open spec fn document(self) -> JsonView {
        JsonView::empty().with(
            "active"@,
            JsonView::List(
                self.active.map_values(
                    |e: (Seq<char>, Seq<char>)| slotted(e.0, e.1, "Active"@, true),
                ),
            ),
        ).with(
            "pending"@,
            JsonView::List(
                self.pending.map_values(
                    |e: (Seq<char>, Seq<char>)| slotted(e.0, e.1, "Pending"@, false),
                ),
            ),
        ).with(
            "draining"@,
            JsonView::List(self.draining.map_values(|d: Seq<char>| JsonView::Text(d))),
        ).with(
            "failed"@,
            JsonView::List(
                self.failed.map_values(|e: (Seq<char>, Seq<char>)| failure(e.0, e.1)),
            ),
        )
    }

    /// The document of one deployment: active before pending before draining; none where it was
    /// never seen.
    pub open spec fn status_of(self, id: Seq<char>) -> Option<JsonView> {
        match slot_in(self.active, id) {
            Some(slot) => Some(slotted(id, slot, "Active"@, true)),
            None => match slot_in(self.pending, id) {
                Some(slot) => Some(slotted(id, slot, "Pending"@, false)),
                None => if self.draining.contains(id) {
                    Some(
                        JsonView::empty().with("deploymentId"@, JsonView::Text(id)).with(
                            "phase"@,
                            JsonView::Text("Draining"@),
                        ).with("ready"@, JsonView::Bool(false)),
                    )
                } else {
                    None
                },
            },
        }
    }
}

/// A deployment is reported ready exactly when it is active.
pub proof fn ready_means_active(s: SnapshotView, id: Seq<char>)
    ensures
        slot_in(s.active, id) is Some <==> (s.status_of(id) is Some && s.status_of(id)->0.member(
            "ready"@,
        ) == Some(JsonView::Bool(true))),
{
    match slot_in(s.active, id) {
        Some(slot) => {
            let d = JsonView::empty().with("deploymentId"@, JsonView::Text(id)).with(
                "slot"@,
                JsonView::Text(slot),
            ).with("phase"@, JsonView::Text("Active"@));
            json::member_with(d, "ready"@, JsonView::Bool(true), "ready"@);
        },
        None => {
            match slot_in(s.pending, id) {
                Some(slot) => {
                    let d = JsonView::empty().with("deploymentId"@, JsonView::Text(id)).with(
                        "slot"@,
                        JsonView::Text(slot),
                    ).with("phase"@, JsonView::Text("Pending"@));
                    json::member_with(d, "ready"@, JsonView::Bool(false), "ready"@);
                },
                None => {
                    let d = JsonView::empty().with("deploymentId"@, JsonView::Text(id)).with(
                        "phase"@,
                        JsonView::Text("Draining"@),
                    );
                    json::member_with(d, "ready"@, JsonView::Bool(false), "ready"@);
                },
            }
        },
    }
}

fn slotted_json(id: &str, slot: &str, phase: &str, ready: bool) -> (r: Json)
    ensures
        r@ == slotted(id@, slot@, phase@, ready),
{
    Json::object().with("deploymentId", Json::text(id)).with("slot", Json::text(slot)).with(
        "phase",
        Json::text(phase),
    ).with("ready", Json::truth(ready))
}

fn slotted_list(v: &Vec<(String, String)>, phase: &str, ready: bool) -> (r: Json)
    ensures
        r@ == JsonView::List(
            text::pairs(v@).map_values(
                |e: (Seq<char>, Seq<char>)| slotted(e.0, e.1, phase@, ready),
            ),
        ),
{
    let mut out: Vec<Json> = Vec::new();
    let mut i: usize = 0;
    while i < v.len()
        invariant
            i <= v.len(),
            out.len() == i,
            forall|k: int|
                0 <= k < i ==> (#[trigger] out@[k])@ == slotted(v@[k].0@, v@[k].1@, phase@, ready),
        decreases v.len() - i,
    {
        out.push(slotted_json(&v[i].0, &v[i].1, phase, ready));
        i = i + 1;
    }
    let r = Json::List(out);
    assert(r@->List_0 =~= text::pairs(v@).map_values(
        |e: (Seq<char>, Seq<char>)| slotted(e.0, e.1, phase@, ready),
    ));
    r
}

fn slot_of(v: &Vec<(String, String)>, id: &str) -> (r: Option<String>)
    ensures
        match r {
            Some(s) => slot_in(text::pairs(v@), id@) == Some(s@),
            None => slot_in(text::pairs(v@), id@) is None,
        },
{
    let ghost all = text::pairs(v@);
    let mut i: usize = 0;
    assert(all.skip(0) =~= all);
    while i < v.len()
        invariant
            i <= v.len(),
            all == text::pairs(v@),
            slot_in(all, id@) == slot_in(all.skip(i as int), id@),
        decreases v.len() - i,
    {
        assert(all.skip(i as int)[0] == (v@[i as int].0@, v@[i as int].1@));
        if text::same(&v[i].0, id) {
            return Some(v[i].1.clone());
        }
        assert(all.skip(i as int).drop_first() =~= all.skip(i + 1));
        i = i + 1;
    }
    None
}

impl DeploymentStatusSnapshot {
    /// A snapshot without deployments.
    pub fn new() -> (r: DeploymentStatusSnapshot)
        ensures
            r@ == (SnapshotView {
                active: Seq::empty(),
                pending: Seq::empty(),
                draining: Seq::empty(),
                failed: Seq::empty(),
            }),
    {
        let r = DeploymentStatusSnapshot {
            active: Vec::new(),
            pending: Vec::new(),
            draining: Vec::new(),
            failed: Vec::new(),
        };
        assert(r@.active =~= Seq::empty());
        assert(r@.pending =~= Seq::empty());
        assert(r@.draining =~= Seq::empty());
        assert(r@.failed =~= Seq::empty());
        r
    }

    /// The whole snapshot as a document.
    pub fn to_json(&self) -> (r: Json)
        ensures
            r@ == self@.document(),
    {
        let mut draining: Vec<Json> = Vec::new();
        let mut i: usize = 0;
        while i < self.draining.len()
            invariant
                i <= self.draining.len(),
                draining.len() == i,
                forall|k: int|
                    0 <= k < i ==> (#[trigger] draining@[k])@ == JsonView::Text(
                        self.draining@[k]@,
                    ),
            decreases self.draining.len() - i,
        {
            draining.push(Json::text(&self.draining[i]));
            i = i + 1;
        }
        let mut failed: Vec<Json> = Vec::new();
        let mut j: usize = 0;
        while j < self.failed.len()
            invariant
                j <= self.failed.len(),
                failed.len() == j,
                forall|k: int|
                    0 <= k < j ==> (#[trigger] failed@[k])@ == failure(
                        self.failed@[k].0@,
                        self.failed@[k].1@,
                    ),
            decreases self.failed.len() - j,
        {
            let e = &self.failed[j];
            failed.push(
                Json::object().with("slot", Json::text(&e.0)).with(
                    "phase",
                    Json::text("Failed"),
                ).with("error", Json::text(&e.1)),
            );
            j = j + 1;
        }
        let d = Json::List(draining);
        let f = Json::List(failed);
        assert(d@->List_0 =~= self@.draining.map_values(|d: Seq<char>| JsonView::Text(d)));
        assert(f@->List_0 =~= self@.failed.map_values(
            |e: (Seq<char>, Seq<char>)| failure(e.0, e.1),
        ));
        Json::object().with("active", slotted_list(&self.active, "Active", true)).with(
            "pending",
            slotted_list(&self.pending, "Pending", false),
        ).with("draining", d).with("failed", f)
    }

    /// One deployment's status, where the engine has seen it.
    pub fn lookup(&self, id: &str) -> (r: Option<Json>)
        ensures
            match r {
                Some(j) => self@.status_of(id@) == Some(j@),
                None => self@.status_of(id@) is None,
            },
    {
        match slot_of(&self.active, id) {
            Some(slot) => {
                return Some(slotted_json(id, &slot, "Active", true));
            },
            None => {},
        }
        match slot_of(&self.pending, id) {
            Some(slot) => {
                return Some(slotted_json(id, &slot, "Pending", false));
            },
            None => {},
        }
        if text::contains(&self.draining, id) {
            Some(
                Json::object().with("deploymentId", Json::text(id)).with(
                    "phase",
                    Json::text("Draining"),
                ).with("ready", Json::truth(false)),
            )
        } else {
            None
        }
    }
}

// ---- deferred deployments ----------------------------------------------------------------------

/// The snapshot once a deferred deployment was accepted: it is pending, unless it is known already.
pub open spec fn accepted(s: SnapshotView, id: Seq<char>, slot: Seq<char>) -> SnapshotView {
    if slot_in(s.pending, id) is Some || slot_in(s.active, id) is Some {
        s
    } else {
        SnapshotView { pending: s.pending.push((id, slot)), ..s }
    }
}

/// The entries of `v` that are not about `id`.
pub open spec fn others(v: Seq<(Seq<char>, Seq<char>)>, id: Seq<char>) -> Seq<
    (Seq<char>, Seq<char>),
>
    decreases v.len(),
{
    if v.len() == 0 {
        Seq::empty()
    } else if v.last().0 == id {
        others(v.drop_last(), id)
    } else {
        others(v.drop_last(), id).push(v.last())
    }
}

/// The snapshot once a pending deployment failed: it is pending no longer, and its slot has failed;
/// the first error of a slot stays.
pub open spec fn failed_pending(
    s: SnapshotView,
    id: Seq<char>,
    slot: Seq<char>,
    error: Seq<char>,
) -> SnapshotView {
    SnapshotView {
        pending: others(s.pending, id),
        failed: if slot_in(s.failed, slot) is Some {
            s.failed
        } else {
            s.failed.push((slot, error))
        },
        ..s
    }
}

proof fn others_holds_no_such(v: Seq<(Seq<char>, Seq<char>)>, id: Seq<char>)
    ensures
        forall|i: int| 0 <= i < others(v, id).len() ==> (#[trigger] others(v, id)[i]).0 != id,
    decreases v.len(),
{
    if v.len() > 0 {
        let before = others(v.drop_last(), id);
        let n = others(v, id);
        others_holds_no_such(v.drop_last(), id);
        assert forall|i: int| 0 <= i < n.len() implies (#[trigger] n[i]).0 != id by {
            if i < before.len() {
                assert(n[i] == before[i]);
            }
        }
    }
}

proof fn found_where_it_stands(v: Seq<(Seq<char>, Seq<char>)>, id: Seq<char>)
    ensures
        slot_in(v, id) is Some <==> exists|i: int| 0 <= i < v.len() && (#[trigger] v[i]).0 == id,
    decreases v.len(),
{
    if v.len() > 0 {
        let rest = v.drop_first();
        found_where_it_stands(rest, id);
        if slot_in(rest, id) is Some {
            let i = choose|i: int| 0 <= i < rest.len() && (#[trigger] rest[i]).0 == id;
            assert(v[i + 1].0 == id);
        }
        if exists|i: int| 0 <= i < v.len() && (#[trigger] v[i]).0 == id {
            let i = choose|i: int| 0 <= i < v.len() && (#[trigger] v[i]).0 == id;
            if i > 0 {
                assert(rest[i - 1].0 == id);
            }
        }
    }
}

/// A failed deployment stops being pending, and its slot is reported as failed.
pub proof fn failure_is_reported(
    s: SnapshotView,
    id: Seq<char>,
    slot: Seq<char>,
    error: Seq<char>,
)
    ensures
        slot_in(failed_pending(s, id, slot, error).pending, id) is None,
        slot_in(failed_pending(s, id, slot, error).failed, slot) is Some,
{
    let n = failed_pending(s, id, slot, error);
    others_holds_no_such(s.pending, id);
    found_where_it_stands(n.pending, id);
    found_where_it_stands(n.failed, slot);
    if slot_in(s.failed, slot) is None {
        assert(n.failed[s.failed.len() as int].0 == slot);
    }
}

/// An accepted deployment is known at once: a poller sees it pending, or already active.
pub proof fn accepted_is_known(s: SnapshotView, id: Seq<char>, slot: Seq<char>)
    ensures
        accepted(s, id, slot).status_of(id) is Some,
{
    let n = accepted(s, id, slot);
    found_where_it_stands(n.pending, id);
    if slot_in(s.pending, id) is None && slot_in(s.active, id) is None {
        assert(n.pending[s.pending.len() as int].0 == id);
    }
}

fn without_id(v: &Vec<(String, String)>, id: &str) -> (r: Vec<(String, String)>)
    ensures
        text::pairs(r@) == others(text::pairs(v@), id@),
{
    let ghost all = text::pairs(v@);
    let mut out: Vec<(String, String)> = Vec::new();
    let mut i: usize = 0;
    assert(text::pairs(out@) =~= others(all.take(0), id@));
    while i < v.len()
        invariant
            i <= v.len(),
            all == text::pairs(v@),
            text::pairs(out@) == others(all.take(i as int), id@),
        decreases v.len() - i,
    {
        let ghost prior = text::pairs(out@);
        assert(all.take(i + 1).drop_last() =~= all.take(i as int));
        assert(all.take(i + 1).last() == (v@[i as int].0@, v@[i as int].1@));
        if !text::same(&v[i].0, id) {
            out.push((v[i].0.clone(), v[i].1.clone()));
            assert(text::pairs(out@) =~= prior.push(all[i as int]));
        }
        i = i + 1;
    }
    assert(all.take(v.len() as int) =~= all);
    out
}

impl DeploymentStatusSnapshot {
    /// Note that a deferred deployment was accepted.
    pub fn accept(&mut self, id: &str, slot: &str)
        ensures
            final(self)@ == accepted(old(self)@, id@, slot@),
    {
        if slot_of(&self.pending, id).is_none() && slot_of(&self.active, id).is_none() {
            self.pending.push((id.to_owned(), slot.to_owned()));
            assert(self@.pending =~= old(self)@.pending.push((id@, slot@)));
        }
    }

    /// Note that a pending deployment failed.
    pub fn fail_pending(&mut self, id: &str, slot: &str, error: &str)
        ensures
            final(self)@ == failed_pending(old(self)@, id@, slot@, error@),
    {
        let kept = without_id(&self.pending, id);
        self.pending = kept;
        if slot_of(&self.failed, slot).is_none() {
            self.failed.push((slot.to_owned(), error.to_owned()));
            assert(self@.failed =~= old(self)@.failed.push((slot@, error@)));
        }
    }
}

// ---- reactivation ------------------------------------------------------------------------------

/// The entries of `v` about these deployments.
pub open spec fn among(v: Seq<(Seq<char>, Seq<char>)>, ids: Seq<Seq<char>>) -> Seq<
    (Seq<char>, Seq<char>),
>
    decreases v.len(),
{
    if v.len() == 0 {
        Seq::empty()
    } else if ids.contains(v.last().0) {
        among(v.drop_last(), ids).push(v.last())
    } else {
        among(v.drop_last(), ids)
    }
}

/// The entries of `v` about deployments that are not in `w`.
pub open spec fn not_in(v: Seq<(Seq<char>, Seq<char>)>, w: Seq<(Seq<char>, Seq<char>)>) -> Seq<
    (Seq<char>, Seq<char>),
>
    decreases v.len(),
{
    if v.len() == 0 {
        Seq::empty()
    } else if slot_in(w, v.last().0) is Some {
        not_in(v.drop_last(), w)
    } else {
        not_in(v.drop_last(), w).push(v.last())
    }
}

/// The snapshot after a flip to what the store holds: the active rows that were planned, what is
/// still pending, the draining deployments, and no failures. A stored row that could not be planned
/// is not reported as active.
pub open spec fn reactivated(
    s: SnapshotView,
    rows: Seq<(Seq<char>, Seq<char>)>,
    served: Seq<Seq<char>>,
    draining: Seq<Seq<char>>,
) -> SnapshotView {
    let active = among(rows, served);
    SnapshotView {
        active,
        pending: not_in(s.pending, active),
        draining,
        failed: Seq::empty(),
    }
}

proof fn not_in_holds_no_such(
    v: Seq<(Seq<char>, Seq<char>)>,
    w: Seq<(Seq<char>, Seq<char>)>,
    id: Seq<char>,
)
    requires
        slot_in(w, id) is Some,
    ensures
        slot_in(not_in(v, w), id) is None,
    decreases v.len(),
{
    let n = not_in(v, w);
    found_where_it_stands(n, id);
    if v.len() > 0 {
        let before = not_in(v.drop_last(), w);
        not_in_holds_no_such(v.drop_last(), w, id);
        found_where_it_stands(before, id);
        assert forall|i: int| 0 <= i < n.len() implies (#[trigger] n[i]).0 != id by {
            if i < before.len() {
                assert(n[i] == before[i]);
            }
        }
    }
}

/// A deployment that a flip landed is no longer pending.
pub proof fn a_landed_deployment_is_not_pending(
    s: SnapshotView,
    rows: Seq<(Seq<char>, Seq<char>)>,
    served: Seq<Seq<char>>,
    draining: Seq<Seq<char>>,
    id: Seq<char>,
)
    requires
        slot_in(reactivated(s, rows, served, draining).active, id) is Some,
    ensures
        slot_in(reactivated(s, rows, served, draining).pending, id) is None,
{
    not_in_holds_no_such(s.pending, among(rows, served), id);
}

/// Recompute the snapshot after a flip. `rows` are the store's active rows with their slots,
/// `served` the deployments that were planned from them, `draining` those of the draining tail.
pub fn reactivate(
    s: &DeploymentStatusSnapshot,
    rows: &Vec<(String, String)>,
    served: &Vec<String>,
    draining: &Vec<String>,
) -> (r: DeploymentStatusSnapshot)
    ensures
        r@ == reactivated(s@, text::pairs(rows@), text::texts(served@), text::texts(draining@)),
{
    let ghost all = text::pairs(rows@);
    let ghost ids = text::texts(served@);
    let mut active: Vec<(String, String)> = Vec::new();
    let mut i: usize = 0;
    assert(text::pairs(active@) =~= among(all.take(0), ids));
    while i < rows.len()
        invariant
            i <= rows.len(),
            all == text::pairs(rows@),
            ids == text::texts(served@),
            text::pairs(active@) == among(all.take(i as int), ids),
        decreases rows.len() - i,
    {
        let ghost prior = text::pairs(active@);
        assert(all.take(i + 1).drop_last() =~= all.take(i as int));
        assert(all.take(i + 1).last() == (rows@[i as int].0@, rows@[i as int].1@));
        if text::contains(served, &rows[i].0) {
            active.push((rows[i].0.clone(), rows[i].1.clone()));
            assert(text::pairs(active@) =~= prior.push(all[i as int]));
        }
        i = i + 1;
    }
    assert(all.take(rows.len() as int) =~= all);
    let ghost waiting = text::pairs(s.pending@);
    let mut pending: Vec<(String, String)> = Vec::new();
    let mut j: usize = 0;
    assert(text::pairs(pending@) =~= not_in(waiting.take(0), text::pairs(active@)));
    while j < s.pending.len()
        invariant
            j <= s.pending.len(),
            waiting == text::pairs(s.pending@),
            text::pairs(pending@) == not_in(waiting.take(j as int), text::pairs(active@)),
        decreases s.pending.len() - j,
    {
        let ghost prior = text::pairs(pending@);
        assert(waiting.take(j + 1).drop_last() =~= waiting.take(j as int));
        assert(waiting.take(j + 1).last() == (s.pending@[j as int].0@, s.pending@[j as int].1@));
        if slot_of(&active, &s.pending[j].0).is_none() {
            pending.push((s.pending[j].0.clone(), s.pending[j].1.clone()));
            assert(text::pairs(pending@) =~= prior.push(waiting[j as int]));
        }
        j = j + 1;
    }
    assert(waiting.take(s.pending.len() as int) =~= waiting);
    let r = DeploymentStatusSnapshot {
        active,
        pending,
        draining: text::copy_texts(draining),
        failed: Vec::new(),
    };
    assert(r@.failed =~= Seq::empty());
    r
}

// ---- completion events -------------------------------------------------------------------------

/// The members of a JSON object as bytes: text members and a whole number.
pub uninterp spec fn object_bytes(
    texts: Seq<(Seq<char>, Seq<char>)>,
    name: Seq<char>,
    number: int,
) -> Seq<u8>;

/// `serde_json::to_vec` of an object with these text members and one whole number, named by
/// [`object_bytes`].
#[verifier::external_body]
fn object_to_vec(texts: &Vec<(String, String)>, name: &str, number: i64) -> (r: Vec<u8>)
    ensures
        r@ == object_bytes(text::pairs(texts@), name@, number as int),
{
    let mut map = serde_json::Map::new();
    for (k, v) in texts {
        map.insert(k.clone(), serde_json::Value::String(v.clone()));
    }
    map.insert(name.to_owned(), serde_json::Value::from(number));
    serde_json::to_vec(&serde_json::Value::Object(map)).unwrap_or_default()
}

/// A CloudEvent's attributes.
#[derive(Debug, PartialEq, Eq)]
pub struct CloudEventLite {
    pub id: String,
    pub source: String,
    pub spec_version: String,
    pub ce_type: String,
    pub subject: Option<String>,
    pub time: Option<String>,
    pub data_content_type: Option<String>,
}

/// The error of a deployment that failed.
pub open spec fn error_of(result: Result<(), String>) -> Option<Seq<char>> {
    match result {
        Ok(_) => None,
        Err(e) => Some(e@),
    }
}

/// How a deployment ended, in a word.
pub open spec fn ending(failed: bool) -> Seq<char> {
    if failed {
        "failed"@
    } else {
        "activated"@
    }
}

/// The text members of a completion event's data.
pub open spec fn completion_texts(
    id: Seq<char>,
    slot: Seq<char>,
    error: Option<Seq<char>>,
) -> Seq<(Seq<char>, Seq<char>)> {
    let base = seq![
        ("deploymentId"@, id),
        ("slot"@, slot),
        ("status"@, ending(error is Some)),
    ];
    match error {
        Some(e) => base.push(("error"@, e)),
        None => base,
    }
}

/// Whether this is the event that announces how a deployment ended, its data and the key under which
/// it is sent once. Neither the event's id nor the key depends on the slot, the revision, the words
/// of an error or the time.
pub open spec fn announces(
    event: CloudEventLite,
    data: Seq<u8>,
    key: Seq<char>,
    id: Seq<char>,
    slot: Seq<char>,
    revision: i64,
    error: Option<Seq<char>>,
    time: Option<Seq<char>>,
) -> bool {
    let status = ending(error is Some);
    &&& event.id@ == id + ":"@ + status
    &&& event.source@ == "urn:sutra:deployment-controller"@
    &&& event.spec_version@ == "1.0"@
    &&& event.ce_type@ == "com.sutra.deployment."@ + status
    &&& sources::opt(event.subject) == Some(id)
    &&& sources::opt(event.time) == time
    &&& sources::opt(event.data_content_type) == Some("application/json"@)
    &&& data == object_bytes(completion_texts(id, slot, error), "revision"@, revision as int)
    &&& key == "dep-complete:"@ + id + ":"@ + status
}

/// An ending of a deployment is one event, however often it is announced: two announcements of one
/// deployment that both succeeded, or both failed, have the same id and the same key, whatever their
/// slots, revisions, errors and times are.
pub proof fn an_ending_is_one_event(
    first: (CloudEventLite, Seq<u8>, Seq<char>),
    second: (CloudEventLite, Seq<u8>, Seq<char>),
    id: Seq<char>,
    slots: (Seq<char>, Seq<char>),
    revisions: (i64, i64),
    errors: (Option<Seq<char>>, Option<Seq<char>>),
    times: (Option<Seq<char>>, Option<Seq<char>>),
)
    requires
        announces(first.0, first.1, first.2, id, slots.0, revisions.0, errors.0, times.0),
        announces(second.0, second.1, second.2, id, slots.1, revisions.1, errors.1, times.1),
        errors.0 is Some == errors.1 is Some,
    ensures
        first.0.id@ == second.0.id@,
        first.2 == second.2,
{
}

/// Build the event that announces how a deployment ended, its data and the key under which it is
/// sent once. The key and the event's id are the same whenever the same ending is announced again.
pub fn build_completion_event(
    deployment_id: &str,
    slot: &str,
    revision: i64,
    result: &Result<(), String>,
    time: Option<String>,
) -> (r: (CloudEventLite, Vec<u8>, String))
    ensures
        announces(
            r.0,
            r.1@,
            r.2@,
            deployment_id@,
            slot@,
            revision,
            error_of(*result),
            sources::opt(time),
        ),
{
    let status: &str = match result {
        Ok(_) => "activated",
        Err(_) => "failed",
    };
    let mut texts: Vec<(String, String)> = Vec::new();
    texts.push(("deploymentId".to_owned(), deployment_id.to_owned()));
    texts.push(("slot".to_owned(), slot.to_owned()));
    texts.push(("status".to_owned(), status.to_owned()));
    match result {
        Ok(_) => {},
        Err(e) => {
            texts.push(("error".to_owned(), e.clone()));
        },
    }
    let ghost error = error_of(*result);
    assert(text::pairs(texts@) =~= completion_texts(deployment_id@, slot@, error));
    let body = object_to_vec(&texts, "revision", revision);
    let event = CloudEventLite {
        id: text::text3(deployment_id, ":", status),
        source: "urn:sutra:deployment-controller".to_owned(),
        spec_version: "1.0".to_owned(),
        ce_type: text::text2("com.sutra.deployment.", status),
        subject: Some(deployment_id.to_owned()),
        time,
        data_content_type: Some("application/json".to_owned()),
    };
    let key = text::text4("dep-complete:", deployment_id, ":", status);
    (event, body, key)
}

/// The outbox row of a completion event to one sink.
pub struct CompletionRow {
    pub deployment: String,
    pub entry_id: u128,
    /// The nil UUID: the event originates from no instance.
    pub instance_id: u128,
    pub content_type: Option<String>,
    pub destination: String,
    /// Whether it is an incident that the event cannot be delivered: it is none.
    pub required: bool,
    pub mode: ReplyMode,
    pub headers: Vec<(String, String)>,
    pub labels: Vec<(String, String)>,
    pub auth_ref_json: Option<String>,
    /// When it is created and due, in nanoseconds since the epoch.
    pub at: i128,
    pub attempt_count: u32,
    pub last_diagnostic_json: Option<String>,
    pub traceparent: Option<String>,
    /// The node that sends: there is none.
    pub node_id: Option<String>,
}

/// A completion event on its way: its rows all carry `body` and `event` under `outbox_key`.
pub struct Completion {
    pub event: CloudEventLite,
    pub body: Vec<u8>,
    pub outbox_key: String,
    pub rows: Vec<CompletionRow>,
}

/// Whether a row is that of an event that no instance and no node sent: JSON, framed as a structured
/// event, without headers, labels or credentials, never tried, and no incident where it fails.
pub open spec fn lifecycle_row(row: CompletionRow) -> bool {
    &&& row.instance_id == 0
    &&& sources::opt(row.content_type) == Some("application/json"@)
    &&& !row.required
    &&& row.mode == ReplyMode::CloudEventStructured
    &&& row.headers@.len() == 0
    &&& row.labels@.len() == 0
    &&& row.auth_ref_json is None
    &&& row.attempt_count == 0
    &&& row.last_diagnostic_json is None
    &&& row.traceparent is None
    &&& row.node_id is None
}

/// Whether these are the rows of a completion event: one for each sink, in their order.
pub open spec fn carries(
    rows: Seq<CompletionRow>,
    id: Seq<char>,
    sinks: Seq<Seq<char>>,
    now: i128,
) -> bool {
    rows.len() == sinks.len() && forall|i: int|
        0 <= i < rows.len() ==> {
            &&& (#[trigger] rows[i]).deployment@ == id
            &&& rows[i].destination@ == sinks[i]
            &&& rows[i].at == now
            &&& lifecycle_row(rows[i])
        }
}

/// Whether `c` announces to these sinks, at `now`, how a deployment ended.
pub open spec fn completes(
    c: Completion,
    id: Seq<char>,
    slot: Seq<char>,
    revision: i64,
    error: Option<Seq<char>>,
    sinks: Seq<Seq<char>>,
    now: i128,
) -> bool {
    &&& announces(
        c.event,
        c.body@,
        c.outbox_key@,
        id,
        slot,
        revision,
        error,
        outside::rfc3339_text(now),
    )
    &&& carries(c.rows@, id, sinks, now)
}

/// What announces at `now` how a deployment ended. Nothing is sent where no sink was named, without
/// a database, or for a deployment that it cannot hold rows of.
pub fn completion_at(
    deployment_id: &str,
    slot: &str,
    revision: i64,
    result: &Result<(), String>,
    sinks: &Vec<String>,
    pool: bool,
    storable: bool,
    now: i128,
) -> (r: Option<Completion>)
    ensures
        r is Some <==> sinks@.len() > 0 && pool && storable,
        r matches Some(c) ==> completes(
            c,
            deployment_id@,
            slot@,
            revision,
            error_of(*result),
            text::texts(sinks@),
            now,
        ),
{
    if sinks.len() == 0 || !pool || !storable {
        return None;
    }
    let time = outside::format_rfc3339(now);
    let (event, body, outbox_key) = build_completion_event(
        deployment_id,
        slot,
        revision,
        result,
        time,
    );
    let mut rows: Vec<CompletionRow> = Vec::new();
    let mut i: usize = 0;
    while i < sinks.len()
        invariant
            i <= sinks.len(),
            carries(rows@, deployment_id@, text::texts(sinks@).take(i as int), now),
        decreases sinks.len() - i,
    {
        rows.push(
            CompletionRow {
                deployment: deployment_id.to_owned(),
                entry_id: outside::random_uuid(),
                instance_id: 0,
                content_type: Some("application/json".to_owned()),
                destination: sinks[i].clone(),
                required: false,
                mode: ReplyMode::CloudEventStructured,
                headers: Vec::new(),
                labels: Vec::new(),
                auth_ref_json: None,
                at: now,
                attempt_count: 0,
                last_diagnostic_json: None,
                traceparent: None,
                node_id: None,
            },
        );
        i = i + 1;
    }
    assert(text::texts(sinks@).take(sinks.len() as int) =~= text::texts(sinks@));
    Some(Completion { event, body, outbox_key, rows })
}

/// What announces how a deployment ended, at the clock's time.
pub fn emit_completion(
    deployment_id: &str,
    slot: &str,
    revision: i64,
    result: &Result<(), String>,
    sinks: &Vec<String>,
    pool: bool,
    storable: bool,
) -> (r: Option<Completion>)
    ensures
        r is Some <==> sinks@.len() > 0 && pool && storable,
        r matches Some(c) ==> exists|now: i128| #[trigger]
            completes(
                c,
                deployment_id@,
                slot@,
                revision,
                error_of(*result),
                text::texts(sinks@),
                now,
            ),
{
    let now: i128 = outside::now_nanos();
    completion_at(deployment_id, slot, revision, result, sinks, pool, storable, now)
}

} // verus!
