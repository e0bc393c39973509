//! What holds of the deployments of a directory, whatever happens to its archives.

use vstd::prelude::*;

use crate::assembly::PlanView;
use crate::deploy::{DirectoryView, FileStamp, FileView, SeenArchive};
use crate::deploy;
use crate::keyed;
use crate::text;

verus! {

/// Putting a file in place of one that contributes the same, or a new one that contributes nothing,
/// changes no contribution.
proof fn same_contribution_same_rest(
    files: Seq<(Seq<char>, FileView)>,
    slot: Seq<char>,
    file: FileView,
)
    requires
        file.current == deploy::contribution(files, slot),
        keyed::ascending(files),
    ensures
        deploy::contributions(keyed::put(files, slot, file)) == deploy::contributions(files),
    decreases files.len(),
{
    let n = keyed::put(files, slot, file);
    if files.len() == 0 || text::before(slot, files[0].0) {
        assert(n.drop_first() =~= files);
        if keyed::has(files, slot) {
            let i = keyed::lookup_some(files, slot);
            text::before_irreflexive(slot);
            if i > 0 {
                assert(text::before(files[0].0, files[i].0));
                text::before_transitive(slot, files[0].0, files[i].0);
            }
        }
        assert(n[0].1.current is None);
    } else if files[0].0 == slot {
        assert(n.drop_first() =~= files.drop_first());
    } else {
        let rest = files.drop_first();
        assert forall|i: int, j: int| 0 <= i < j < rest.len() implies text::before(
            (#[trigger] rest[i]).0,
            (#[trigger] rest[j]).0,
        ) by {
            assert(text::before(files[i + 1].0, files[j + 1].0));
        }
        same_contribution_same_rest(rest, slot, file);
        assert(n.drop_first() =~= keyed::put(rest, slot, file));
        assert(n[0] == files[0]);
    }
}

/// An archive that is rejected changes nothing: the plans, the active and the draining deployments
/// stay, and so does what every slot contributes, the rejected one's own among them.
pub proof fn a_rejected_archive_changes_nothing(
    d: DirectoryView,
    slot: Seq<char>,
    stamp: FileStamp,
    error: Seq<char>,
    other: Seq<char>,
)
    requires
        keyed::ascending(d.files),
    ensures
        deploy::rejected(d, slot, stamp, error).prepared == d.prepared,
        deploy::rejected(d, slot, stamp, error).active == d.active,
        deploy::rejected(d, slot, stamp, error).draining == d.draining,
        deploy::contribution(deploy::rejected(d, slot, stamp, error).files, other)
            == deploy::contribution(d.files, other),
        deploy::desired(deploy::rejected(d, slot, stamp, error).files) == deploy::desired(d.files),
{
    let file = FileView {
        stamp,
        current: deploy::contribution(d.files, slot),
        last_error: Some(error),
    };
    same_contribution_same_rest(d.files, slot, file);
    keyed::lookup_put(d.files, slot, file, other);
}

/// An archive that was rejected is not prepared again until it changes.
pub proof fn rejected_contents_are_not_prepared_again(
    d: DirectoryView,
    slot: Seq<char>,
    stamp: FileStamp,
    error: Seq<char>,
)
    ensures
        !deploy::stale(deploy::rejected(d, slot, stamp, error).files, slot, stamp),
{
    keyed::lookup_put(
        d.files,
        slot,
        FileView {
            stamp,
            current: deploy::contribution(d.files, slot),
            last_error: Some(error),
        },
        slot,
    );
}

/// After activation a deployment drains exactly when it was active or drained before and is not
/// active now; so none is both.
pub proof fn active_or_draining_never_both(d: DirectoryView, id: Seq<char>)
    ensures
        deploy::activated(d).draining.contains(id) <==> !deploy::activated(d).active.contains(id)
            && (d.active.contains(id) || d.draining.contains(id)),
{
    let wanted = deploy::desired(d.files);
    let kept = wanted + d.draining;
    let newly = deploy::leaving(d);
    let still = text::minus(d.draining, wanted);
    text::minus_contains(d.active, kept, id);
    text::minus_contains(d.draining, wanted, id);
    joined_contains(wanted, d.draining, id);
    joined_contains(newly, still, id);
}

proof fn joined_contains(a: Seq<Seq<char>>, b: Seq<Seq<char>>, id: Seq<char>)
    ensures
        (a + b).contains(id) <==> a.contains(id) || b.contains(id),
{
    let s = a + b;
    if a.contains(id) {
        let i = choose|i: int| 0 <= i < a.len() && a[i] == id;
        assert(s[i] == id);
    }
    if b.contains(id) {
        let i = choose|i: int| 0 <= i < b.len() && b[i] == id;
        assert(s[a.len() + i] == id);
    }
    if s.contains(id) {
        let i = choose|i: int| 0 <= i < s.len() && s[i] == id;
        if i < a.len() {
            assert(a[i] == id);
        } else {
            assert(b[i - a.len()] == id);
        }
    }
}

/// Rolling back is deploying again: once a file contributes a deployment that drained, activation
/// makes it active and it drains no longer.
pub proof fn rollback_resurrects(d: DirectoryView, id: Seq<char>)
    requires
        deploy::contributed(d.files, id),
    ensures
        deploy::activated(d).active.contains(id),
        !deploy::activated(d).draining.contains(id),
{
    text::firsts_hold_the_same(deploy::contributions(d.files));
    assert(deploy::desired(d.files).contains(id) == deploy::contributions(d.files).contains(id));
    active_or_draining_never_both(d, id);
}

proof fn minus_none(s: Seq<Seq<char>>, t: Seq<Seq<char>>)
    requires
        forall|k: Seq<char>| s.contains(k) ==> !t.contains(k),
    ensures
        text::minus(s, t) == s,
    decreases s.len(),
{
    if s.len() > 0 {
        let rest = s.drop_last();
        assert(s[s.len() - 1] == s.last());
        assert(s.contains(s.last()));
        assert forall|k: Seq<char>| rest.contains(k) implies !t.contains(k) by {
            let i = choose|i: int| 0 <= i < rest.len() && rest[i] == k;
            assert(s[i] == k);
        }
        minus_none(rest, t);
        assert(rest.push(s.last()) =~= s);
    }
}

proof fn minus_all(s: Seq<Seq<char>>, t: Seq<Seq<char>>)
    requires
        forall|k: Seq<char>| s.contains(k) ==> t.contains(k),
    ensures
        text::minus(s, t) == Seq::<Seq<char>>::empty(),
    decreases s.len(),
{
    if s.len() > 0 {
        let rest = s.drop_last();
        assert(s[s.len() - 1] == s.last());
        assert(s.contains(s.last()));
        assert forall|k: Seq<char>| rest.contains(k) implies t.contains(k) by {
            let i = choose|i: int| 0 <= i < rest.len() && rest[i] == k;
            assert(s[i] == k);
        }
        minus_all(rest, t);
    }
}

/// Activating again changes nothing.
pub proof fn activating_twice_is_activating_once(d: DirectoryView)
    ensures
        deploy::activated(deploy::activated(d)) == deploy::activated(d),
        deploy::leaving(deploy::activated(d)) == Seq::<Seq<char>>::empty(),
{
    let n = deploy::activated(d);
    let wanted = deploy::desired(d.files);
    assert forall|k: Seq<char>| wanted.contains(k) implies (wanted + n.draining).contains(k) by {
        joined_contains(wanted, n.draining, k);
    }
    minus_all(n.active, wanted + n.draining);
    assert forall|k: Seq<char>| n.draining.contains(k) implies !wanted.contains(k) by {
        active_or_draining_never_both(d, k);
    }
    minus_none(n.draining, wanted);
    assert(deploy::activated(n).draining =~= n.draining);
}

/// Retiring keeps the plan of every deployment that is active or that a file contributes.
pub proof fn retiring_keeps_what_serves(d: DirectoryView, retired: Seq<Seq<char>>, id: Seq<char>)
    requires
        d.active.contains(id) || deploy::contributed(d.files, id),
    ensures
        keyed::lookup(deploy::retired_state(d, retired).prepared, id) == keyed::lookup(
            d.prepared,
            id,
        ),
    decreases retired.len(),
{
    if retired.len() > 0 {
        let rest = retired.drop_last();
        retiring_keeps_what_serves(d, rest, id);
        let last = retired.last();
        let before = deploy::unregistered(d, rest);
        keyed::lookup_without(before, last, id);
    }
}

/// A retired deployment drains no longer; every other draining one still does.
pub proof fn retiring_ends_draining(d: DirectoryView, retired: Seq<Seq<char>>, id: Seq<char>)
    ensures
        deploy::retired_state(d, retired).draining.contains(id) <==> d.draining.contains(id)
            && !retired.contains(id),
{
    text::minus_contains(d.draining, retired, id);
}

/// A prepared archive is registered under its deployment, and its slot contributes it.
pub proof fn a_prepared_archive_is_registered(
    d: DirectoryView,
    slot: Seq<char>,
    stamp: FileStamp,
    plan: PlanView,
)
    ensures
        keyed::lookup(deploy::registered(d, slot, stamp, plan).prepared, plan.dep) == Some(plan),
        deploy::contribution(deploy::registered(d, slot, stamp, plan).files, slot) == Some(
            plan.dep,
        ),
{
    keyed::lookup_put(d.prepared, plan.dep, plan, plan.dep);
    keyed::lookup_put(
        d.files,
        slot,
        FileView { stamp, current: Some(plan.dep), last_error: None },
        slot,
    );
}

/// A scan that sees the archives unchanged changes nothing.
pub proof fn an_unchanged_directory_stays(d: DirectoryView, seen: Seq<SeenArchive>)
    requires
        forall|i: int|
            0 <= i < seen.len() ==> ((#[trigger] seen[i]).stamp matches Some(t) ==> !deploy::stale(
                d.files,
                seen[i].slot@,
                t,
            )),
        forall|i: int|
            0 <= i < d.files.len() ==> deploy::slots(seen).contains((#[trigger] d.files[i]).0),
    ensures
        deploy::scanned(d, seen) == d,
{
    unchanged_archives_change_nothing(d, seen);
    all_within(d.files, deploy::slots(seen));
}

proof fn unchanged_archives_change_nothing(d: DirectoryView, seen: Seq<SeenArchive>)
    requires
        forall|i: int|
            0 <= i < seen.len() ==> ((#[trigger] seen[i]).stamp matches Some(t) ==> !deploy::stale(
                d.files,
                seen[i].slot@,
                t,
            )),
    ensures
        deploy::all_noticed(d, seen) == d,
    decreases seen.len(),
{
    if seen.len() > 0 {
        let rest = seen.drop_last();
        assert forall|i: int| 0 <= i < rest.len() implies ((#[trigger] rest[i]).stamp matches Some(
            t,
        ) ==> !deploy::stale(d.files, rest[i].slot@, t)) by {
            assert(rest[i] == seen[i]);
        }
        unchanged_archives_change_nothing(d, rest);
        assert(seen[seen.len() - 1] == seen.last());
    }
}

proof fn all_within<T>(m: Seq<(Seq<char>, T)>, keys: Seq<Seq<char>>)
    requires
        forall|i: int| 0 <= i < m.len() ==> keys.contains((#[trigger] m[i]).0),
    ensures
        keyed::within(m, keys) == m,
    decreases m.len(),
{
    if m.len() > 0 {
        let rest = m.drop_first();
        assert forall|i: int| 0 <= i < rest.len() implies keys.contains((#[trigger] rest[i]).0) by {
            assert(rest[i] == m[i + 1]);
        }
        all_within(rest, keys);
        assert(keys.contains(m[0].0));
        assert(seq![m[0]] + rest =~= m);
    } else {
        assert(m =~= Seq::empty());
    }
}

} // verus!
