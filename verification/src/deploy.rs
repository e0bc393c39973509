//! The directory of sealed archives and two-phase activation.
//!
//! Every archive is prepared completely before anything changes. An archive that is rejected changes
//! nothing: its path keeps what it contributed before. Activation moves the active set to what the
//! paths contribute now; a deployment that leaves it drains, so that instances pinned to it keep
//! resuming, and is retired once nothing is pinned to it any more.

use vstd::prelude::*;

use crate::assembly::{DeploymentPlan, PlanView};
use crate::keyed;
use crate::engine;
use crate::graph::DeploymentNodeIndex;
use crate::graph;
use crate::json::{Json, JsonView};
use crate::keyed::{TextMap, TextSet};
use crate::registries;
use crate::sources;
use crate::status::{DeploymentStatusSnapshot, SnapshotView};
use crate::text;

verus! {

/// The deployments directory is missing.
pub const DEPLOY_SOURCE_MISSING: &'static str = "SUTRA.DEPLOY.SOURCE.MISSING";

/// The deployments directory cannot be listed.
pub const DEPLOY_SOURCE_UNREADABLE: &'static str = "SUTRA.DEPLOY.SOURCE.UNREADABLE";

/// Two archives carry one deployment.
pub const DEPLOY_SOURCE_DUPLICATE_ID: &'static str = "SUTRA.DEPLOY.SOURCE.DUPLICATE_ID";

/// A flip touched broker definitions, whose topology is wired at boot.
pub const DEPLOY_ACTIVATE_BROKER_TOPOLOGY_STATIC: &'static str =
    "SUTRA.DEPLOY.ACTIVATE.BROKER_TOPOLOGY_STATIC";

/// The extension of a sealed archive.
pub const ARCHIVE_EXTENSION: &'static str = "sutra";

/// Why an engine does not boot: its deployments directory is missing.
pub fn source_missing(dir: &str) -> (r: String)
    ensures
        r@ == "["@ + DEPLOY_SOURCE_MISSING@ + "] sutra.deployments.dir '"@ + dir@
            + "' is not a directory — the deployments source must exist (it may be empty)"@,
{
    text::text5(
        "[",
        DEPLOY_SOURCE_MISSING,
        "] sutra.deployments.dir '",
        dir,
        "' is not a directory — the deployments source must exist (it may be empty)",
    )
}

/// Why an engine does not boot: its deployments directory cannot be listed.
pub fn source_unreadable(dir: &str, error: &str) -> (r: String)
    ensures
        r@ == "["@ + DEPLOY_SOURCE_UNREADABLE@ + "] sutra.deployments.dir '"@ + dir@
            + "' cannot be listed by the engine user: "@ + error@
            + " — refusing to boot a silently-empty deployments source (check mount permissions; the engine container runs unprivileged)"@,
{
    let head = text::text5(
        "[",
        DEPLOY_SOURCE_UNREADABLE,
        "] sutra.deployments.dir '",
        dir,
        "' cannot be listed by the engine user: ",
    );
    text::text3(
        &head,
        error,
        " — refusing to boot a silently-empty deployments source (check mount permissions; the engine container runs unprivileged)",
    )
}

// ---- archive files -----------------------------------------------------------------------------

/// The change stamp of an archive file: its length, and its modification time in nanoseconds since
/// the epoch where it is known.
#[derive(Debug, Clone, Copy, PartialEq, Eq, Structural)]
pub struct FileStamp {
    pub len: u64,
    pub mtime: Option<i128>,
}

/// A tracked archive file.
pub struct ArchiveFile {
    pub stamp: FileStamp,
    /// The deployment that the file contributes.
    pub current: Option<String>,
    /// Why its most recent contents were rejected.
    pub last_error: Option<String>,
}

/// The contents of an [`ArchiveFile`].
pub struct FileView {
    pub stamp: FileStamp,
    pub current: Option<Seq<char>>,
    pub last_error: Option<Seq<char>>,
}

impl View for ArchiveFile {
    type V = FileView;

    open spec fn view(&self) -> FileView {
        FileView {
            stamp: self.stamp,
            current: sources::opt(self.current),
            last_error: sources::opt(self.last_error),
        }
    }
}

/// The place of the last dot in a file name, or -1.
pub open spec fn last_dot(name: Seq<char>) -> int
    decreases name.len(),
{
    if name.len() == 0 {
        -1
    } else if name.last() == '.' {
        name.len() - 1
    } else {
        last_dot(name.drop_last())
    }
}

/// Whether a file name carries the extension of an archive, in either case of letters. A name that
/// only begins with a dot has no extension.
pub open spec fn is_archive(name: Seq<char>) -> bool {
    last_dot(name) > 0 && text::lowered(name.skip(last_dot(name) + 1)) == ARCHIVE_EXTENSION@
}

/// The archives among the entries of a directory.
pub open spec fn archives_among(entries: Seq<(Seq<char>, bool)>) -> Seq<Seq<char>>
    decreases entries.len(),
{
    if entries.len() == 0 {
        Seq::empty()
    } else {
        let rest = archives_among(entries.drop_last());
        let last = entries.last();
        if last.1 && is_archive(last.0) {
            rest.push(last.0)
        } else {
            rest
        }
    }
}

proof fn last_dot_bounds(name: Seq<char>)
    ensures
        -1 <= last_dot(name) < name.len(),
    decreases name.len(),
{
    if name.len() > 0 && name.last() != '.' {
        last_dot_bounds(name.drop_last());
    }
}

fn names_archive(name: &str) -> (r: bool)
    ensures
        r == is_archive(name@),
{
    let chars = text::chars_of(name);
    let mut end: usize = chars.len();
    assert(name@.take(end as int) =~= name@);
    while end > 0 && chars[end - 1] != '.'
        invariant
            end <= chars.len(),
            chars@ == name@,
            last_dot(name@) == last_dot(name@.take(end as int)),
        decreases end,
    {
        assert(name@.take(end as int).drop_last() =~= name@.take(end - 1));
        end = end - 1;
    }
    assert(end > 0 ==> name@.take(end as int).last() == '.');
    if end <= 1 {
        return false;
    }
    let extension = text::text_of(&chars, end, chars.len());
    assert(extension@ =~= name@.skip(end as int));
    text::same(&text::to_lower(&extension), ARCHIVE_EXTENSION)
}

/// What a row of directory entries holds.
pub open spec fn listed(v: Seq<(String, bool)>) -> Seq<(Seq<char>, bool)> {
    v.map_values(|e: (String, bool)| (e.0@, e.1))
}

/// The archives in a directory, in the order of their names. Each entry is a file name and whether
/// it is a file.
pub fn list_archives(entries: &Vec<(String, bool)>) -> (r: TextSet)
    ensures
        r@ == keyed::collected(archives_among(listed(entries@))),
{
    let ghost all = listed(entries@);
    let mut out = TextSet::new();
    let mut i: usize = 0;
    assert(archives_among(all.take(0)) =~= Seq::empty());
    while i < entries.len()
        invariant
            i <= entries.len(),
            all == listed(entries@),
            out@ == keyed::collected(archives_among(all.take(i as int))),
        decreases entries.len() - i,
    {
        let ghost rest = archives_among(all.take(i as int));
        assert(all.take(i + 1).drop_last() =~= all.take(i as int));
        assert(all.take(i + 1).last() == (entries@[i as int].0@, entries@[i as int].1));
        assert(rest.push(entries@[i as int].0@).drop_last() =~= rest);
        if entries[i].1 && names_archive(&entries[i].0) {
            out.insert(entries[i].0.clone());
        }
        i = i + 1;
    }
    assert(all.take(entries.len() as int) =~= all);
    out
}

// ---- the state machine -------------------------------------------------------------------------

/// The contents of a [`DeploymentDirectory`].
pub struct DirectoryView {
    /// The tracked archives by their slots.
    pub files: Seq<(Seq<char>, FileView)>,
    /// The prepared plans by their deployments.
    pub prepared: Seq<(Seq<char>, PlanView)>,
    pub active: Seq<Seq<char>>,
    /// The draining deployments, the most recently drained first.
    pub draining: Seq<Seq<char>>,
}

/// What was seen of one archive.
pub struct SeenArchive {
    pub slot: String,
    /// Its stamp, `None` where it could not be read.
    pub stamp: Option<FileStamp>,
    /// What preparing it gave, `None` where it was not prepared again.
    pub prepared: Option<Result<DeploymentPlan, String>>,
}

/// The slots that were seen.
pub open spec fn slots(seen: Seq<SeenArchive>) -> Seq<Seq<char>> {
    seen.map_values(|s: SeenArchive| s.slot@)
}

/// Whether an archive changed since it was last looked at.
pub open spec fn stale(
    files: Seq<(Seq<char>, FileView)>,
    slot: Seq<char>,
    stamp: FileStamp,
) -> bool {
    match keyed::lookup(files, slot) {
        Some(f) => f.stamp != stamp,
        None => true,
    }
}

/// The deployment that a slot contributes.
pub open spec fn contribution(files: Seq<(Seq<char>, FileView)>, slot: Seq<char>) -> Option<
    Seq<char>,
> {
    match keyed::lookup(files, slot) {
        Some(f) => f.current,
        None => None,
    }
}

/// The state once an archive was prepared.
pub open spec fn registered(
    d: DirectoryView,
    slot: Seq<char>,
    stamp: FileStamp,
    plan: PlanView,
) -> DirectoryView {
    DirectoryView {
        files: keyed::put(
            d.files,
            slot,
            FileView { stamp, current: Some(plan.dep), last_error: None },
        ),
        prepared: keyed::put(d.prepared, plan.dep, plan),
        ..d
    }
}

/// The state once an archive was rejected: the slot keeps what it contributed, and remembers the
/// stamp and the error.
pub open spec fn rejected(
    d: DirectoryView,
    slot: Seq<char>,
    stamp: FileStamp,
    error: Seq<char>,
) -> DirectoryView {
    DirectoryView {
        files: keyed::put(
            d.files,
            slot,
            FileView {
                stamp,
                current: contribution(d.files, slot),
                last_error: Some(error),
            },
        ),
        ..d
    }
}

/// The state once one archive was looked at.
pub open spec fn noticed(d: DirectoryView, s: SeenArchive) -> DirectoryView {
    match s.stamp {
        None => d,
        Some(stamp) => if !stale(d.files, s.slot@, stamp) {
            d
        } else {
            match s.prepared {
                None => d,
                Some(Ok(plan)) => registered(d, s.slot@, stamp, plan@),
                Some(Err(e)) => rejected(d, s.slot@, stamp, e@),
            }
        },
    }
}

/// The state once these archives were looked at.
pub open spec fn all_noticed(d: DirectoryView, seen: Seq<SeenArchive>) -> DirectoryView
    decreases seen.len(),
{
    if seen.len() == 0 {
        d
    } else {
        noticed(all_noticed(d, seen.drop_last()), seen.last())
    }
}

/// The state after a scan: what was seen is looked at, and a slot that was not seen is dropped.
pub open spec fn scanned(d: DirectoryView, seen: Seq<SeenArchive>) -> DirectoryView {
    let n = all_noticed(d, seen);
    DirectoryView { files: keyed::within(n.files, slots(seen)), ..n }
}

/// The deployments that the files contribute, in the order of their slots.
pub open spec fn contributions(files: Seq<(Seq<char>, FileView)>) -> Seq<Seq<char>>
    decreases files.len(),
{
    if files.len() == 0 {
        Seq::empty()
    } else {
        let rest = contributions(files.drop_first());
        match files[0].1.current {
            Some(id) => seq![id] + rest,
            None => rest,
        }
    }
}

/// The active set that the files ask for: what they contribute, the first of a repeated deployment.
pub open spec fn desired(files: Seq<(Seq<char>, FileView)>) -> Seq<Seq<char>> {
    text::firsts(contributions(files))
}

/// The deployments that start to drain when the desired set becomes active.
pub open spec fn leaving(d: DirectoryView) -> Seq<Seq<char>> {
    text::minus(d.active, desired(d.files) + d.draining)
}

/// The state once the desired set is active: what left it drains, before what drained already; what
/// came back drains no longer.
pub open spec fn activated(d: DirectoryView) -> DirectoryView {
    DirectoryView {
        active: desired(d.files),
        draining: leaving(d) + text::minus(d.draining, desired(d.files)),
        ..d
    }
}

/// The plans of these deployments, as far as they are prepared.
pub open spec fn found(prepared: Seq<(Seq<char>, PlanView)>, ids: Seq<Seq<char>>) -> Seq<PlanView>
    decreases ids.len(),
{
    if ids.len() == 0 {
        Seq::empty()
    } else {
        let rest = found(prepared, ids.drop_last());
        match keyed::lookup(prepared, ids.last()) {
            Some(p) => rest.push(p),
            None => rest,
        }
    }
}

/// The plans of every live deployment: the active ones, then the draining ones.
pub open spec fn live_plans(d: DirectoryView) -> Seq<PlanView> {
    found(d.prepared, d.active) + found(d.prepared, d.draining)
}

/// The ids that a directory serves: the active ones that have a plan, and then the draining ones.
pub open spec fn live_of(d: DirectoryView) -> Seq<Seq<char>> {
    engine::ids(found(d.prepared, d.active)) + d.draining
}

/// Whether a file contributes a deployment.
pub open spec fn contributed(files: Seq<(Seq<char>, FileView)>, id: Seq<char>) -> bool {
    contributions(files).contains(id)
}

/// The prepared plans once these deployments are retired: a plan that a file still contributes, or
/// that is active, is kept.
pub open spec fn unregistered(d: DirectoryView, retired: Seq<Seq<char>>) -> Seq<
    (Seq<char>, PlanView),
>
    decreases retired.len(),
{
    if retired.len() == 0 {
        d.prepared
    } else {
        let rest = unregistered(d, retired.drop_last());
        let id = retired.last();
        if contributed(d.files, id) || d.active.contains(id) {
            rest
        } else {
            keyed::without(rest, id)
        }
    }
}

/// The state once these deployments are retired.
pub open spec fn retired_state(d: DirectoryView, retired: Seq<Seq<char>>) -> DirectoryView {
    DirectoryView {
        draining: text::minus(d.draining, retired),
        prepared: unregistered(d, retired),
        ..d
    }
}

/// The first slot that contributes a deployment; empty where none does.
pub open spec fn slot_of(files: Seq<(Seq<char>, FileView)>, id: Seq<char>) -> Seq<char>
    decreases files.len(),
{
    if files.len() == 0 {
        Seq::empty()
    } else if files[0].1.current == Some(id) {
        files[0].0
    } else {
        slot_of(files.drop_first(), id)
    }
}

/// The slots whose most recent contents were rejected, with their errors.
pub open spec fn failures(files: Seq<(Seq<char>, FileView)>) -> Seq<(Seq<char>, Seq<char>)>
    decreases files.len(),
{
    if files.len() == 0 {
        Seq::empty()
    } else {
        let rest = failures(files.drop_last());
        match files.last().1.last_error {
            Some(e) => rest.push((files.last().0, e)),
            None => rest,
        }
    }
}

/// What is published of the state.
pub open spec fn snapshot(d: DirectoryView) -> SnapshotView {
    SnapshotView {
        active: found(d.prepared, d.active).map_values(
            |p: PlanView| (p.dep, slot_of(d.files, p.dep)),
        ),
        pending: Seq::empty(),
        draining: d.draining,
        failed: failures(d.files),
    }
}

/// The generated API surfaces of these plans by their deployments.
pub open spec fn api_surfaces(v: Seq<PlanView>) -> Seq<(Seq<char>, JsonView)> {
    registries::put_all(Seq::empty(), v.map_values(|p: PlanView| (p.dep, p.openapi_spec)))
}

/// The generated API surfaces of these plans by their deployments.
pub fn plan_specs(plans: &Vec<&DeploymentPlan>) -> (r: TextMap<Json>)
    ensures
        r@ == api_surfaces(registries::plans(plans@)),
{
    let ghost v = registries::plans(plans@);
    let ghost all = v.map_values(|p: PlanView| (p.dep, p.openapi_spec));
    let mut out: TextMap<Json> = TextMap::new();
    let mut i: usize = 0;
    while i < plans.len()
        invariant
            i <= plans.len(),
            v == registries::plans(plans@),
            all == v.map_values(|p: PlanView| (p.dep, p.openapi_spec)),
            out@ == registries::put_all(Seq::empty(), all.take(i as int)),
        decreases plans.len() - i,
    {
        let plan: &DeploymentPlan = plans[i];
        assert(v[i as int] == plan@);
        assert(all.take(i + 1).drop_last() =~= all.take(i as int));
        assert(all.take(i + 1).last() == (plan@.dep, plan@.openapi_spec));
        out.insert(plan.dep.clone(), plan.openapi_spec.duplicate());
        i = i + 1;
    }
    assert(all.take(plans.len() as int) =~= all);
    out
}

/// The node indexes of these plans by their deployments.
pub open spec fn indexes(v: Seq<PlanView>) -> Seq<(Seq<char>, Seq<(Seq<char>, graph::Shapes)>)> {
    registries::put_all(
        Seq::empty(),
        v.map_values(|p: PlanView| (p.dep, graph::with_modules(p.modules))),
    )
}

/// The node indexes of these plans by their deployments.
pub fn plan_indexes(plans: &Vec<&DeploymentPlan>) -> (r: TextMap<DeploymentNodeIndex>)
    ensures
        r@ == indexes(registries::plans(plans@)),
{
    let ghost v = registries::plans(plans@);
    let ghost all = v.map_values(|p: PlanView| (p.dep, graph::with_modules(p.modules)));
    let mut out: TextMap<DeploymentNodeIndex> = TextMap::new();
    let mut i: usize = 0;
    while i < plans.len()
        invariant
            i <= plans.len(),
            v == registries::plans(plans@),
            all == v.map_values(|p: PlanView| (p.dep, graph::with_modules(p.modules))),
            out@ == registries::put_all(Seq::empty(), all.take(i as int)),
        decreases plans.len() - i,
    {
        let plan: &DeploymentPlan = plans[i];
        assert(v[i as int] == plan@);
        assert(all.take(i + 1).drop_last() =~= all.take(i as int));
        assert(all.take(i + 1).last() == (plan@.dep, graph::with_modules(plan@.modules)));
        out.insert(plan.dep.clone(), plan.node_index());
        i = i + 1;
    }
    assert(all.take(plans.len() as int) =~= all);
    out
}

/// The deployments of the directory.
pub struct DeploymentDirectory {
    files: TextMap<ArchiveFile>,
    prepared: TextMap<DeploymentPlan>,
    active: Vec<String>,
    draining: Vec<String>,
}

impl View for DeploymentDirectory {
    type V = DirectoryView;

    closed spec fn view(&self) -> DirectoryView {
        DirectoryView {
            files: self.files@,
            prepared: self.prepared@,
            active: text::texts(self.active@),
            draining: text::texts(self.draining@),
        }
    }
}

/// The state without archives.
pub open spec fn nothing_seen() -> DirectoryView {
    DirectoryView {
        files: Seq::empty(),
        prepared: Seq::empty(),
        active: Seq::empty(),
        draining: Seq::empty(),
    }
}

impl DeploymentDirectory {
    /// A directory that nothing was seen of.
    pub fn new() -> (r: DeploymentDirectory)
        ensures
            r@ == nothing_seen(),
    {
        let r = DeploymentDirectory {
            files: TextMap::new(),
            prepared: TextMap::new(),
            active: Vec::new(),
            draining: Vec::new(),
        };
        assert(r@.active =~= Seq::empty());
        assert(r@.draining =~= Seq::empty());
        r
    }

    /// Open a directory with its first scan, and activate what it holds.
    pub fn open(seen: Vec<SeenArchive>) -> (r: DeploymentDirectory)
        ensures
            r@ == activated(scanned(nothing_seen(), seen@)),
    {
        let mut r = DeploymentDirectory::new();
        r.scan(seen);
        r.activate_desired();
        r
    }

    /// Whether an archive has to be prepared again.
    pub fn is_stale(&self, slot: &str, stamp: &FileStamp) -> (r: bool)
        ensures
            r == stale(self@.files, slot@, *stamp),
    {
        match self.files.get(slot) {
            Some(f) => f.stamp != *stamp,
            None => true,
        }
    }

    fn notice(&mut self, s: SeenArchive)
        ensures
            final(self)@ == noticed(old(self)@, s),
    {
        let stamp = match s.stamp {
            None => {
                return;
            },
            Some(t) => t,
        };
        if !self.is_stale(&s.slot, &stamp) {
            return;
        }
        match s.prepared {
            None => {},
            Some(Ok(plan)) => {
                let id = plan.dep.clone();
                let key = plan.dep.clone();
                self.prepared.insert(key, plan);
                self.files.insert(
                    s.slot,
                    ArchiveFile { stamp, current: Some(id), last_error: None },
                );
            },
            Some(Err(e)) => {
                let current = match self.files.get(&s.slot) {
                    Some(f) => sources::copy_opt(&f.current),
                    None => None,
                };
                self.files.insert(s.slot, ArchiveFile { stamp, current, last_error: Some(e) });
            },
        }
    }

    /// Look at the archives that were seen, and drop the slots that were not. Whether the desired
    /// active set is another now.
    pub fn scan(&mut self, seen: Vec<SeenArchive>) -> (r: bool)
        ensures
            final(self)@ == scanned(old(self)@, seen@),
            r == (desired(final(self)@.files) != final(self)@.active),
    {
        let ghost all = seen@;
        let ghost start = self@;
        let mut names = TextSet::new();
        let mut rest = seen;
        let ghost mut n: int = 0;
        assert(all_noticed(start, all.take(0)) == start);
        assert(slots(all.take(0)) =~= Seq::empty());
        while rest.len() > 0
            invariant
                0 <= n <= all.len(),
                rest@ == all.skip(n),
                self@ == all_noticed(start, all.take(n)),
                names@ == keyed::collected(slots(all.take(n))),
            decreases rest.len(),
        {
            assert(rest@[0] == all[n]);
            let s = rest.remove(0);
            assert(all.take(n + 1).drop_last() =~= all.take(n));
            assert(slots(all.take(n + 1)).drop_last() =~= slots(all.take(n)));
            assert(slots(all.take(n + 1)).last() == s.slot@);
            names.insert(s.slot.clone());
            self.notice(s);
            proof {
                assert(all.skip(n).drop_first() =~= all.skip(n + 1));
                assert(rest@ =~= all.skip(n + 1));
                n = n + 1;
            }
        }
        assert(all.take(n) =~= all);
        let ghost before = self@;
        self.files.retain(&names);
        proof {
            same_within(before.files, names@, slots(all));
        }
        let wanted = self.desired_active();
        !text::same_texts(&wanted, &self.active)
    }

    /// The active set that the files ask for.
    pub fn desired_active(&self) -> (r: Vec<String>)
        ensures
            text::texts(r@) == desired(self@.files),
    {
        let mut out: Vec<String> = Vec::new();
        let ghost all = self.files@;
        let mut i: usize = 0;
        assert(all.skip(0) =~= all);
        assert(text::texts(out@) + contributions(all.skip(0)) =~= contributions(all));
        while i < self.files.len()
            invariant
                i <= all.len(),
                all == self.files@,
                contributions(all) == text::texts(out@) + contributions(all.skip(i as int)),
            decreases all.len() - i,
        {
            let ghost prior = text::texts(out@);
            let f = self.files.value_at(i);
            assert(all.skip(i as int)[0] == all[i as int]);
            assert(all.skip(i as int).drop_first() =~= all.skip(i + 1));
            match &f.current {
                Some(id) => {
                    out.push(id.clone());
                    assert(text::texts(out@) =~= prior.push(id@));
                    assert(prior + (seq![id@] + contributions(all.skip(i + 1))) =~= prior.push(
                        id@,
                    ) + contributions(all.skip(i + 1)));
                },
                None => {},
            }
            i = i + 1;
        }
        assert(all.skip(all.len() as int) =~= Seq::empty());
        assert(contributions(all) =~= text::texts(out@));
        text::without_repeats(&out)
    }

    /// Make the desired set active. The deployments that started to drain.
    pub fn activate_desired(&mut self) -> (r: Vec<String>)
        ensures
            final(self)@ == activated(old(self)@),
            text::texts(r@) == leaving(old(self)@),
    {
        let wanted = self.desired_active();
        let mut kept = text::copy_texts(&wanted);
        append(&mut kept, &self.draining);
        let newly = text::difference(&self.active, &kept);
        let still = text::difference(&self.draining, &wanted);
        let mut draining = text::copy_texts(&newly);
        append(&mut draining, &still);
        self.draining = draining;
        self.active = wanted;
        newly
    }

    fn plans_of(&self, ids: &Vec<String>) -> (r: Vec<&DeploymentPlan>)
        ensures
            registries::plans(r@) == found(self@.prepared, text::texts(ids@)),
    {
        let ghost all = text::texts(ids@);
        let mut out: Vec<&DeploymentPlan> = Vec::new();
        let mut i: usize = 0;
        assert(registries::plans(out@) =~= found(self@.prepared, all.take(0)));
        while i < ids.len()
            invariant
                i <= ids.len(),
                all == text::texts(ids@),
                registries::plans(out@) == found(self@.prepared, all.take(i as int)),
            decreases ids.len() - i,
        {
            let ghost prior = registries::plans(out@);
            assert(all.take(i + 1).drop_last() =~= all.take(i as int));
            assert(all.take(i + 1).last() == ids@[i as int]@);
            match self.prepared.get(&ids[i]) {
                Some(p) => {
                    out.push(p);
                    assert(registries::plans(out@) =~= prior.push(p@));
                },
                None => {},
            }
            i = i + 1;
        }
        assert(all.take(ids.len() as int) =~= all);
        out
    }

    /// The plans that serve intake, in the order of their slots.
    pub fn active_plans(&self) -> (r: Vec<&DeploymentPlan>)
        ensures
            registries::plans(r@) == found(self@.prepared, self@.active),
    {
        self.plans_of(&self.active)
    }

    /// The plans that drain, the most recently drained first.
    pub fn draining_plans(&self) -> (r: Vec<&DeploymentPlan>)
        ensures
            registries::plans(r@) == found(self@.prepared, self@.draining),
    {
        self.plans_of(&self.draining)
    }

    /// The draining deployments.
    pub fn draining_ids(&self) -> (r: Vec<String>)
        ensures
            text::texts(r@) == self@.draining,
    {
        text::copy_texts(&self.draining)
    }

    /// Every live deployment: the active ones, then the draining ones.
    pub fn live_ids(&self) -> (r: Vec<String>)
        ensures
            text::texts(r@) == engine::ids(found(self@.prepared, self@.active))
                + self@.draining,
            text::texts(r@) == live_of(self@),
    {
        let mut out = engine::plan_ids(&self.active_plans());
        append(&mut out, &self.draining);
        out
    }

    /// The generated API surface of every live deployment.
    pub fn api_specs(&self) -> (r: TextMap<Json>)
        ensures
            r@ == api_surfaces(live_plans(self@)),
    {
        plan_specs(&self.live())
    }

    /// The node index of every live deployment. The draining ones count: a migration's source is a
    /// deployment that was flipped away from.
    pub fn node_indexes(&self) -> (r: TextMap<DeploymentNodeIndex>)
        ensures
            r@ == indexes(live_plans(self@)),
    {
        plan_indexes(&self.live())
    }

    fn live(&self) -> (r: Vec<&DeploymentPlan>)
        ensures
            registries::plans(r@) == live_plans(self@),
    {
        registries::joined(&self.active_plans(), &self.draining_plans())
    }

    fn slot(&self, id: &str) -> (r: String)
        ensures
            r@ == slot_of(self@.files, id@),
    {
        let ghost all = self.files@;
        let mut i: usize = 0;
        assert(all.skip(0) =~= all);
        while i < self.files.len()
            invariant
                i <= all.len(),
                all == self.files@,
                slot_of(all, id@) == slot_of(all.skip(i as int), id@),
            decreases all.len() - i,
        {
            assert(all.skip(i as int)[0] == all[i as int]);
            assert(all.skip(i as int).drop_first() =~= all.skip(i + 1));
            match &self.files.value_at(i).current {
                Some(c) => {
                    if text::same(c, id) {
                        return self.files.key_at(i).clone();
                    }
                },
                None => {},
            }
            i = i + 1;
        }
        let r = String::new();
        assert(r@ =~= Seq::empty());
        r
    }

    /// What is published of the directory.
    pub fn status_snapshot(&self) -> (r: DeploymentStatusSnapshot)
        ensures
            r@ == snapshot(self@),
    {
        let serving = self.active_plans();
        let ghost served = found(self@.prepared, self@.active);
        let mut active: Vec<(String, String)> = Vec::new();
        let mut i: usize = 0;
        while i < serving.len()
            invariant
                i <= serving.len(),
                registries::plans(serving@) == served,
                active.len() == i,
                forall|k: int|
                    0 <= k < i ==> (#[trigger] active@[k]).0@ == served[k].dep && active@[k].1@
                        == slot_of(self@.files, served[k].dep),
            decreases serving.len() - i,
        {
            let plan: &DeploymentPlan = serving[i];
            assert(served[i as int] == plan@);
            active.push((plan.dep.clone(), self.slot(&plan.dep)));
            i = i + 1;
        }
        let mut failed: Vec<(String, String)> = Vec::new();
        let ghost all = self.files@;
        let mut j: usize = 0;
        assert(text::pairs(failed@) =~= failures(all.take(0)));
        while j < self.files.len()
            invariant
                j <= all.len(),
                all == self.files@,
                text::pairs(failed@) == failures(all.take(j as int)),
            decreases all.len() - j,
        {
            let ghost prior = text::pairs(failed@);
            let f = self.files.value_at(j);
            assert(all.take(j + 1).drop_last() =~= all.take(j as int));
            assert(all.take(j + 1).last() == all[j as int]);
            match &f.last_error {
                Some(e) => {
                    failed.push((self.files.key_at(j).clone(), e.clone()));
                    assert(text::pairs(failed@) =~= prior.push((all[j as int].0, e@)));
                },
                None => {},
            }
            j = j + 1;
        }
        assert(all.take(all.len() as int) =~= all);
        let r = DeploymentStatusSnapshot {
            active,
            pending: Vec::new(),
            draining: text::copy_texts(&self.draining),
            failed,
        };
        assert(r@.active =~= snapshot(self@).active);
        assert(r@.pending =~= Seq::empty());
        r
    }

    fn contributes(&self, id: &str) -> (r: bool)
        ensures
            r == contributed(self@.files, id@),
    {
        let ids = self.desired_active();
        proof {
            text::firsts_hold_the_same(contributions(self@.files));
            assert(desired(self@.files).contains(id@) == contributions(self@.files).contains(id@));
        }
        text::contains(&ids, id)
    }

    /// Retire these deployments. Whether there were any.
    pub fn retire(&mut self, retired: &Vec<String>) -> (r: bool)
        ensures
            final(self)@ == retired_state(old(self)@, text::texts(retired@)),
            r == (retired@.len() > 0),
    {
        let ghost start = self@;
        let ghost all = text::texts(retired@);
        let kept = text::difference(&self.draining, retired);
        self.draining = kept;
        let mut i: usize = 0;
        assert(unregistered(start, all.take(0)) == start.prepared);
        while i < retired.len()
            invariant
                i <= retired.len(),
                all == text::texts(retired@),
                self@.files == start.files,
                self@.active == start.active,
                self@.draining == text::minus(start.draining, all),
                self@.prepared == unregistered(start, all.take(i as int)),
            decreases retired.len() - i,
        {
            assert(all.take(i + 1).drop_last() =~= all.take(i as int));
            assert(all.take(i + 1).last() == retired@[i as int]@);
            if !self.contributes(&retired[i]) && !text::contains(&self.active, &retired[i]) {
                self.prepared.remove(&retired[i]);
            }
            i = i + 1;
        }
        assert(all.take(retired.len() as int) =~= all);
        retired.len() > 0
    }
}

fn append(out: &mut Vec<String>, more: &Vec<String>)
    ensures
        text::texts(final(out)@) == text::texts(old(out)@) + text::texts(more@),
{
    let ghost start = text::texts(out@);
    let ghost all = text::texts(more@);
    let mut i: usize = 0;
    assert(start + all.take(0) =~= start);
    while i < more.len()
        invariant
            i <= more.len(),
            all == text::texts(more@),
            text::texts(out@) == start + all.take(i as int),
        decreases more.len() - i,
    {
        let ghost prior = text::texts(out@);
        out.push(more[i].clone());
        assert(text::texts(out@) =~= prior.push(all[i as int]));
        assert(start + all.take(i + 1) =~= (start + all.take(i as int)).push(all[i as int]));
        i = i + 1;
    }
    assert(all.take(more.len() as int) =~= all);
}

proof fn same_within<T>(m: Seq<(Seq<char>, T)>, a: Seq<Seq<char>>, b: Seq<Seq<char>>)
    requires
        a == keyed::collected(b),
    ensures
        keyed::within(m, a) == keyed::within(m, b),
    decreases m.len(),
{
    if m.len() > 0 {
        same_within(m.drop_first(), a, b);
        keyed::collected_contains(b, m[0].0);
    }
}

} // verus!
