//! What a migration report finds, and why.

use vstd::prelude::*;

use crate::graph::{NodeShapeView, Shapes};
use crate::json;
use crate::json::JsonView;
use crate::keyed;
use crate::migrate;
use crate::migrate::{
    Finding, FindingView, InstanceFacts, InstanceFactsView, InstanceWait, Locus, LocusKind,
    LocusView, MigrationPlan, MigrationPlanView, MigrationReport,
};
use crate::migrate_laws;
use crate::sources;
use crate::text;

verus! {

// ---- parts of a report -------------------------------------------------------------------------

spec fn names_no_entry(mapping: Seq<(Seq<char>, Seq<char>)>, l: LocusView) -> bool {
    keyed::lookup(mapping, l.source) is None
}

proof fn cross_found(
    f: InstanceFactsView,
    plan: MigrationPlanView,
    loci: Seq<LocusView>,
    v: FindingView,
)
    requires
        plan.crosses(f.process_id),
    ensures
        migrate::cross_violations(f, plan, loci).contains(v) <==> exists|i: int|
            0 <= i < loci.len() && names_no_entry(plan.mapping, (#[trigger] loci[i]))
                && v == migrate::unnamed(f, plan, loci[i]),
    decreases loci.len(),
{
    if loci.len() > 0 {
        let rest = loci.drop_last();
        let n = loci.len() - 1;
        cross_found(f, plan, rest, v);
        let before = migrate::cross_violations(f, plan, rest);
        let after = migrate::cross_violations(f, plan, loci);
        assert(loci[n] == loci.last());
        if before.contains(v) {
            let i = choose|i: int|
                0 <= i < rest.len() && names_no_entry(plan.mapping, (#[trigger] rest[i]))
                    && v == migrate::unnamed(f, plan, rest[i]);
            assert(loci[i] == rest[i]);
            let k = choose|k: int| 0 <= k < before.len() && before[k] == v;
            assert(after[k] == v);
        }
        if names_no_entry(plan.mapping, loci[n]) && v == migrate::unnamed(f, plan, loci[n]) {
            assert(after[after.len() - 1] == v);
        }
        if after.contains(v) && !before.contains(v) {
            let k = choose|k: int| 0 <= k < after.len() && after[k] == v;
            if k < before.len() {
                assert(before[k] == v);
            }
            assert(names_no_entry(plan.mapping, loci[n]) && v == migrate::unnamed(f, plan, loci[n]));
        }
        if exists|i: int|
            0 <= i < loci.len() && names_no_entry(plan.mapping, (#[trigger] loci[i]))
                && v == migrate::unnamed(f, plan, loci[i]) {
            let i = choose|i: int|
                0 <= i < loci.len() && names_no_entry(plan.mapping, (#[trigger] loci[i]))
                    && v == migrate::unnamed(f, plan, loci[i]);
            if i < n {
                assert(rest[i] == loci[i]);
                assert(before.contains(v));
            }
        }
    }
}

spec fn idles(f: InstanceFactsView, loci: Seq<LocusView>, e: (Seq<char>, Seq<char>)) -> bool {
    &&& !f.completed_nodes.contains(e.0)
    &&& forall|i: int| 0 <= i < loci.len() ==> (#[trigger] loci[i]).source != e.0
}

proof fn idle_found(
    f: InstanceFactsView,
    loci: Seq<LocusView>,
    mapping: Seq<(Seq<char>, Seq<char>)>,
    v: FindingView,
)
    ensures
        migrate::mapping_violations(f, loci, mapping).contains(v) <==> exists|i: int|
            0 <= i < mapping.len() && idles(f, loci, (#[trigger] mapping[i]))
                && v == migrate::idle(mapping[i].0, mapping[i].1),
    decreases mapping.len(),
{
    if mapping.len() > 0 {
        let rest = mapping.drop_last();
        let n = mapping.len() - 1;
        idle_found(f, loci, rest, v);
        let before = migrate::mapping_violations(f, loci, rest);
        let after = migrate::mapping_violations(f, loci, mapping);
        assert(mapping[n] == mapping.last());
        if before.contains(v) {
            let i = choose|i: int|
                0 <= i < rest.len() && idles(f, loci, (#[trigger] rest[i]))
                    && v == migrate::idle(rest[i].0, rest[i].1);
            assert(mapping[i] == rest[i]);
            let k = choose|k: int| 0 <= k < before.len() && before[k] == v;
            assert(after[k] == v);
        }
        if idles(f, loci, mapping[n]) && v == migrate::idle(mapping[n].0, mapping[n].1) {
            assert(after[after.len() - 1] == v);
        }
        if after.contains(v) && !before.contains(v) {
            let k = choose|k: int| 0 <= k < after.len() && after[k] == v;
            if k < before.len() {
                assert(before[k] == v);
            }
            assert(idles(f, loci, mapping[n]) && v == migrate::idle(mapping[n].0, mapping[n].1));
        }
        if exists|i: int|
            0 <= i < mapping.len() && idles(f, loci, (#[trigger] mapping[i]))
                && v == migrate::idle(mapping[i].0, mapping[i].1) {
            let i = choose|i: int|
                0 <= i < mapping.len() && idles(f, loci, (#[trigger] mapping[i]))
                    && v == migrate::idle(mapping[i].0, mapping[i].1);
            if i < n {
                assert(rest[i] == mapping[i]);
                assert(before.contains(v));
            }
        }
    }
}

spec fn strays(target: Shapes, l: LocusView) -> bool {
    match keyed::lookup(target, l.target) {
        None => true,
        Some(shape) => !hosts(shape, l.kind),
    }
}

spec fn hosts(shape: NodeShapeView, kind: LocusKind) -> bool {
    match kind {
        LocusKind::MessageWait => shape.relay_resumable,
        LocusKind::TimerWait => shape.timer_capable,
        LocusKind::RetryPark => shape.retryable_task,
        LocusKind::RetryBudget => shape.retryable_task,
        LocusKind::ContinueReplyPark => shape.continue_reply,
        LocusKind::RoutedStart => shape.start_event,
    }
}

spec fn stray_finding(target: Shapes, l: LocusView) -> FindingView {
    match keyed::lookup(target, l.target) {
        None => migrate::node_unmapped(l),
        Some(shape) => migrate::node_incompatible(l, shape),
    }
}

proof fn stray_found(loci: Seq<LocusView>, target: Shapes, v: FindingView)
    ensures
        migrate::landing_violations(loci, target).contains(v) <==> exists|i: int|
            0 <= i < loci.len() && strays(target, (#[trigger] loci[i]))
                && v == stray_finding(target, loci[i]),
    decreases loci.len(),
{
    if loci.len() > 0 {
        let rest = loci.drop_last();
        let n = loci.len() - 1;
        stray_found(rest, target, v);
        let before = migrate::landing_violations(rest, target);
        let after = migrate::landing_violations(loci, target);
        assert(loci[n] == loci.last());
        if before.contains(v) {
            let i = choose|i: int|
                0 <= i < rest.len() && strays(target, (#[trigger] rest[i]))
                    && v == stray_finding(target, rest[i]);
            assert(loci[i] == rest[i]);
            let k = choose|k: int| 0 <= k < before.len() && before[k] == v;
            assert(after[k] == v);
        }
        if strays(target, loci[n]) && v == stray_finding(target, loci[n]) {
            assert(after[after.len() - 1] == v);
        }
        if after.contains(v) && !before.contains(v) {
            let k = choose|k: int| 0 <= k < after.len() && after[k] == v;
            if k < before.len() {
                assert(before[k] == v);
            }
            assert(strays(target, loci[n]) && v == stray_finding(target, loci[n]));
        }
        if exists|i: int|
            0 <= i < loci.len() && strays(target, (#[trigger] loci[i]))
                && v == stray_finding(target, loci[i]) {
            let i = choose|i: int|
                0 <= i < loci.len() && strays(target, (#[trigger] loci[i]))
                    && v == stray_finding(target, loci[i]);
            if i < n {
                assert(rest[i] == loci[i]);
                assert(before.contains(v));
            }
        }
    }
}

spec fn left_behind(
    mapping: Seq<(Seq<char>, Seq<char>)>,
    target: Shapes,
    node: Seq<char>,
) -> bool {
    keyed::lookup(target, sent_to(mapping, node)) is None
}

spec fn sent_to(mapping: Seq<(Seq<char>, Seq<char>)>, node: Seq<char>) -> Seq<char> {
    match keyed::lookup(mapping, node) {
        Some(to) => to,
        None => node,
    }
}

proof fn completed_found(
    completed: Seq<Seq<char>>,
    mapping: Seq<(Seq<char>, Seq<char>)>,
    target: Shapes,
    v: FindingView,
)
    ensures
        migrate::completed_warnings(completed, mapping, target).contains(v) <==> exists|i: int|
            0 <= i < completed.len()
                && left_behind(mapping, target, (#[trigger] completed[i]))
                && v == migrate::completed_absent(completed[i], sent_to(mapping, completed[i])),
    decreases completed.len(),
{
    if completed.len() > 0 {
        let rest = completed.drop_last();
        let n = completed.len() - 1;
        completed_found(rest, mapping, target, v);
        let before = migrate::completed_warnings(rest, mapping, target);
        let after = migrate::completed_warnings(completed, mapping, target);
        assert(completed[n] == completed.last());
        if before.contains(v) {
            let i = choose|i: int|
                0 <= i < rest.len() && left_behind(mapping, target, (#[trigger] rest[i]))
                    && v == migrate::completed_absent(rest[i], sent_to(mapping, rest[i]));
            assert(completed[i] == rest[i]);
            let k = choose|k: int| 0 <= k < before.len() && before[k] == v;
            assert(after[k] == v);
        }
        if left_behind(mapping, target, completed[n])
            && v == migrate::completed_absent(completed[n], sent_to(mapping, completed[n])) {
            assert(after[after.len() - 1] == v);
        }
        if after.contains(v) && !before.contains(v) {
            let k = choose|k: int| 0 <= k < after.len() && after[k] == v;
            if k < before.len() {
                assert(before[k] == v);
            }
            assert(left_behind(mapping, target, completed[n])
                && v == migrate::completed_absent(completed[n], sent_to(mapping, completed[n])));
        }
        if exists|i: int|
            0 <= i < completed.len()
                && left_behind(mapping, target, (#[trigger] completed[i]))
                && v == migrate::completed_absent(completed[i], sent_to(mapping, completed[i])) {
            let i = choose|i: int|
                0 <= i < completed.len()
                    && left_behind(mapping, target, (#[trigger] completed[i]))
                    && v == migrate::completed_absent(completed[i], sent_to(mapping, completed[i]));
            if i < n {
                assert(rest[i] == completed[i]);
                assert(before.contains(v));
            }
        }
    }
}

// ---- tokens ------------------------------------------------------------------------------------

spec fn token(kind: LocusKind) -> bool {
    kind == LocusKind::MessageWait || kind == LocusKind::TimerWait || kind == LocusKind::RetryPark
        || kind == LocusKind::ContinueReplyPark
}

/// Whether the locus at `j` is the last token before `i` that goes where the one at `i` goes.
spec fn shares(loci: Seq<LocusView>, j: int, i: int) -> bool {
    &&& 0 <= j < i < loci.len()
    &&& token(loci[j].kind)
    &&& token(loci[i].kind)
    &&& loci[j].target == loci[i].target
    &&& forall|m: int|
        j < m < i ==> !(token((#[trigger] loci[m]).kind) && loci[m].target == loci[i].target)
}

proof fn last_onto_found(loci: Seq<LocusView>, target: Seq<char>)
    ensures
        match migrate::last_onto(loci, target) {
            Some(s) => exists|j: int|
                0 <= j < loci.len() && token((#[trigger] loci[j]).kind) && loci[j].target == target
                    && loci[j].source == s && forall|m: int|
                    j < m < loci.len() ==> !(token((#[trigger] loci[m]).kind) && loci[m].target
                        == target),
            None => forall|m: int|
                0 <= m < loci.len() ==> !(token((#[trigger] loci[m]).kind) && loci[m].target
                    == target),
        },
    decreases loci.len(),
{
    if loci.len() > 0 {
        let rest = loci.drop_last();
        let n = loci.len() - 1;
        last_onto_found(rest, target);
        assert(loci[n] == loci.last());
        if token(loci[n].kind) && loci[n].target == target {
            assert(loci[n].source == migrate::last_onto(loci, target)->Some_0);
        } else {
            match migrate::last_onto(rest, target) {
                Some(s) => {
                    let j = choose|j: int|
                        0 <= j < rest.len() && token((#[trigger] rest[j]).kind) && rest[j].target
                            == target && rest[j].source == s && forall|m: int|
                            j < m < rest.len() ==> !(token((#[trigger] rest[m]).kind)
                                && rest[m].target == target);
                    assert(loci[j] == rest[j]);
                    assert forall|m: int| j < m < loci.len() implies !(token(
                        (#[trigger] loci[m]).kind,
                    ) && loci[m].target == target) by {
                        if m < n {
                            assert(rest[m] == loci[m]);
                        }
                    }
                },
                None => {
                    assert forall|m: int| 0 <= m < loci.len() implies !(token(
                        (#[trigger] loci[m]).kind,
                    ) && loci[m].target == target) by {
                        if m < n {
                            assert(rest[m] == loci[m]);
                        }
                    }
                },
            }
        }
    }
}

proof fn folds_found(loci: Seq<LocusView>, v: FindingView)
    ensures
        migrate::fold_violations(loci).contains(v) <==> exists|j: int, i: int| #[trigger]
            shares(loci, j, i) && v == migrate::folded(loci[j].source, loci[i]),
    decreases loci.len(),
{
    if loci.len() > 0 {
        let rest = loci.drop_last();
        let n = loci.len() - 1;
        folds_found(rest, v);
        last_onto_found(rest, loci[n].target);
        let before = migrate::fold_violations(rest);
        let after = migrate::fold_violations(loci);
        assert(loci[n] == loci.last());
        assert forall|j: int, i: int| i < n implies #[trigger] shares(rest, j, i) == shares(
            loci,
            j,
            i,
        ) by {
            if 0 <= j < i < n {
                assert(rest[j] == loci[j] && rest[i] == loci[i]);
                if shares(rest, j, i) {
                    assert forall|m: int| j < m < i implies !(token((#[trigger] loci[m]).kind)
                        && loci[m].target == loci[i].target) by {
                        assert(rest[m] == loci[m]);
                    }
                }
                if shares(loci, j, i) {
                    assert forall|m: int| j < m < i implies !(token((#[trigger] rest[m]).kind)
                        && rest[m].target == rest[i].target) by {
                        assert(rest[m] == loci[m]);
                    }
                }
            }
        }
        if before.contains(v) {
            let (j, i) = choose|j: int, i: int| #[trigger]
                shares(rest, j, i) && v == migrate::folded(rest[j].source, rest[i]);
            assert(shares(loci, j, i));
            let k = choose|k: int| 0 <= k < before.len() && before[k] == v;
            assert(after[k] == v);
        }
        match migrate::last_onto(rest, loci[n].target) {
            Some(s) => {
                let j = choose|j: int|
                    0 <= j < rest.len() && token((#[trigger] rest[j]).kind) && rest[j].target
                        == loci[n].target && rest[j].source == s && forall|m: int|
                        j < m < rest.len() ==> !(token((#[trigger] rest[m]).kind) && rest[m].target
                            == loci[n].target);
                assert(rest[j] == loci[j]);
                assert forall|m: int| j < m < n implies !(token((#[trigger] loci[m]).kind)
                    && loci[m].target == loci[n].target) by {
                    assert(rest[m] == loci[m]);
                }
                if token(loci[n].kind) {
                    assert(shares(loci, j, n));
                    assert(after == before.push(migrate::folded(s, loci[n])));
                    if v == migrate::folded(s, loci[n]) {
                        assert(after[after.len() - 1] == v);
                    }
                }
            },
            None => {},
        }
        if after.contains(v) && !before.contains(v) {
            let k = choose|k: int| 0 <= k < after.len() && after[k] == v;
            if k < before.len() {
                assert(before[k] == v);
            }
        }
        if exists|j: int, i: int| #[trigger]
            shares(loci, j, i) && v == migrate::folded(loci[j].source, loci[i]) {
            let (j, i) = choose|j: int, i: int| #[trigger]
                shares(loci, j, i) && v == migrate::folded(loci[j].source, loci[i]);
            if i < n {
                assert(shares(rest, j, i));
                assert(rest[j] == loci[j] && rest[i] == loci[i]);
                assert(before.contains(v));
            } else {
                assert(rest[j] == loci[j]);
                match migrate::last_onto(rest, loci[n].target) {
                    Some(s) => {
                        let q = choose|q: int|
                            0 <= q < rest.len() && token((#[trigger] rest[q]).kind)
                                && rest[q].target == loci[n].target && rest[q].source == s
                                && forall|m: int|
                                q < m < rest.len() ==> !(token((#[trigger] rest[m]).kind)
                                    && rest[m].target == loci[n].target);
                        assert(rest[q] == loci[q]);
                        assert(q == j);
                    },
                    None => {},
                }
            }
        }
    }
}

proof fn nearest(loci: Seq<LocusView>, i: int, j: int) -> (q: int)
    requires
        0 <= i < j < loci.len(),
        token(loci[i].kind),
        token(loci[j].kind),
        loci[i].target == loci[j].target,
    ensures
        shares(loci, q, j),
    decreases j - i,
{
    if forall|m: int|
        i < m < j ==> !(token((#[trigger] loci[m]).kind) && loci[m].target == loci[j].target) {
        i
    } else {
        let m = choose|m: int|
            i < m < j && token((#[trigger] loci[m]).kind) && loci[m].target == loci[j].target;
        nearest(loci, m, j)
    }
}

// ---- violations --------------------------------------------------------------------------------

/// Whether a finding of the code names the two nodes.
pub open spec fn told(
    v: Seq<FindingView>,
    code: Seq<char>,
    source: Option<Seq<char>>,
    target: Option<Seq<char>>,
) -> bool {
    exists|k: int|
        0 <= k < v.len() && (#[trigger] v[k]).code == code && v[k].source == source && v[k].target
            == target
}

proof fn in_either<A>(a: Seq<A>, b: Seq<A>, x: A)
    ensures
        (a + b).contains(x) <==> a.contains(x) || b.contains(x),
{
    let s = a + b;
    if a.contains(x) {
        let i = choose|i: int| 0 <= i < a.len() && a[i] == x;
        assert(s[i] == x);
    }
    if b.contains(x) {
        let i = choose|i: int| 0 <= i < b.len() && b[i] == x;
        assert(s[a.len() + i] == x);
    }
    if s.contains(x) {
        let i = choose|i: int| 0 <= i < s.len() && s[i] == x;
        if i < a.len() {
            assert(a[i] == x);
        } else {
            assert(b[i - a.len()] == x);
        }
    }
}

proof fn one_holds<A>(a: A, x: A)
    ensures
        seq![a].contains(x) <==> x == a,
{
    assert(seq![a][0] == a);
}

spec fn crossing(f: InstanceFactsView, plan: MigrationPlanView) -> bool {
    plan.target_process_id matches Some(p) && p.len() > 0 && p != f.process_id
}

/// Every cause of a violation, spelled out.
spec fn cause(
    f: InstanceFactsView,
    all: Seq<LocusView>,
    target: Option<Shapes>,
    ids: Seq<Seq<char>>,
    plan: MigrationPlanView,
    v: FindingView,
) -> bool {
    ||| migrate::terminal_violations(f).contains(v)
    ||| migrate::resume_violations(f, plan).contains(v)
    ||| crossing(f, plan) && exists|i: int|
        0 <= i < all.len() && names_no_entry(plan.mapping, #[trigger] all[i]) && v
            == migrate::unnamed(f, plan, all[i])
    ||| exists|i: int|
        0 <= i < plan.mapping.len() && idles(f, all, #[trigger] plan.mapping[i]) && v
            == migrate::idle(plan.mapping[i].0, plan.mapping[i].1)
    ||| exists|j: int, i: int| #[trigger]
        shares(all, j, i) && v == migrate::folded(all[j].source, all[i])
    ||| target is None && v == migrate::process_absent(f, plan, ids)
    ||| target is Some && exists|i: int|
        0 <= i < all.len() && strays(target->Some_0, #[trigger] all[i]) && v == stray_finding(
            target->Some_0,
            all[i],
        )
}

proof fn violations_have_causes(
    f: InstanceFactsView,
    source: Option<Shapes>,
    target: Option<Shapes>,
    ids: Seq<Seq<char>>,
    plan: MigrationPlanView,
    v: FindingView,
)
    ensures
        migrate::report(f, source, target, ids, plan).violations.contains(v) <==> cause(
            f,
            migrate::loci(f, source, plan.mapping),
            target,
            ids,
            plan,
            v,
        ),
{
    let all = migrate::loci(f, source, plan.mapping);
    let a = migrate::terminal_violations(f);
    let b = migrate::resume_violations(f, plan);
    let c = migrate::cross_violations(f, plan, all);
    let d = migrate::mapping_violations(f, all, plan.mapping);
    let e = migrate::fold_violations(all);
    let g = match target {
        None => seq![migrate::process_absent(f, plan, ids)],
        Some(t) => migrate::landing_violations(all, t),
    };
    assert(migrate::report(f, source, target, ids, plan).violations == a + b + c + d + e + g);
    in_either(a, b, v);
    in_either(a + b, c, v);
    in_either(a + b + c, d, v);
    in_either(a + b + c + d, e, v);
    in_either(a + b + c + d + e, g, v);
    assert(crossing(f, plan) == plan.crosses(f.process_id));
    if crossing(f, plan) {
        cross_found(f, plan, all, v);
    }
    idle_found(f, all, plan.mapping, v);
    folds_found(all, v);
    match target {
        None => {
            one_holds(migrate::process_absent(f, plan, ids), v);
        },
        Some(t) => {
            stray_found(all, t, v);
        },
    }
}

/// The seven codes of violations are told apart by their lengths and where these agree by a letter.
proof fn codes_differ()
    ensures
        migrate::MIGRATE_INSTANCE_TERMINAL@ == "SUTRA.ADMIN.MIGRATE.INSTANCE_TERMINAL"@,
        migrate::MIGRATE_RESUME_NOT_FAILED@ == "SUTRA.ADMIN.MIGRATE.RESUME_NOT_FAILED"@,
        migrate::MIGRATE_CROSS_PROCESS_UNMAPPED@ == "SUTRA.ADMIN.MIGRATE.CROSS_PROCESS_UNMAPPED"@,
        migrate::MIGRATE_MAPPING_INVALID@ == "SUTRA.ADMIN.MIGRATE.MAPPING_INVALID"@,
        migrate::MIGRATE_PROCESS_ABSENT@ == "SUTRA.ADMIN.MIGRATE.PROCESS_ABSENT"@,
        migrate::MIGRATE_NODE_UNMAPPED@ == "SUTRA.ADMIN.MIGRATE.NODE_UNMAPPED"@,
        migrate::MIGRATE_NODE_INCOMPATIBLE@ == "SUTRA.ADMIN.MIGRATE.NODE_INCOMPATIBLE"@,
        "SUTRA.ADMIN.MIGRATE.NODE_UNMAPPED"@.len() == 33,
        "SUTRA.ADMIN.MIGRATE.PROCESS_ABSENT"@.len() == 34,
        "SUTRA.ADMIN.MIGRATE.MAPPING_INVALID"@.len() == 35,
        "SUTRA.ADMIN.MIGRATE.INSTANCE_TERMINAL"@.len() == 37,
        "SUTRA.ADMIN.MIGRATE.RESUME_NOT_FAILED"@.len() == 37,
        "SUTRA.ADMIN.MIGRATE.NODE_INCOMPATIBLE"@.len() == 37,
        "SUTRA.ADMIN.MIGRATE.CROSS_PROCESS_UNMAPPED"@.len() == 42,
        "SUTRA.ADMIN.MIGRATE.INSTANCE_TERMINAL"@[20] == 'I',
        "SUTRA.ADMIN.MIGRATE.RESUME_NOT_FAILED"@[20] == 'R',
        "SUTRA.ADMIN.MIGRATE.NODE_INCOMPATIBLE"@[20] == 'N',
{
    reveal_strlit("SUTRA.ADMIN.MIGRATE.INSTANCE_TERMINAL");
    reveal_strlit("SUTRA.ADMIN.MIGRATE.RESUME_NOT_FAILED");
    reveal_strlit("SUTRA.ADMIN.MIGRATE.CROSS_PROCESS_UNMAPPED");
    reveal_strlit("SUTRA.ADMIN.MIGRATE.MAPPING_INVALID");
    reveal_strlit("SUTRA.ADMIN.MIGRATE.PROCESS_ABSENT");
    reveal_strlit("SUTRA.ADMIN.MIGRATE.NODE_UNMAPPED");
    reveal_strlit("SUTRA.ADMIN.MIGRATE.NODE_INCOMPATIBLE");
}

proof fn small_parts(f: InstanceFactsView, plan: MigrationPlanView, v: FindingView)
    ensures
        migrate::terminal_violations(f).contains(v) ==> v.code
            == "SUTRA.ADMIN.MIGRATE.INSTANCE_TERMINAL"@ && v.source is None && v.target is None && (
        f.status == "COMPLETED"@ || f.status == "TERMINATED"@),
        migrate::resume_violations(f, plan).contains(v) ==> v.code
            == "SUTRA.ADMIN.MIGRATE.RESUME_NOT_FAILED"@ && v.source is None && v.target is None
            && plan.resume && f.status != "FAILED"@,
{
}

/// Where two loci that hold a token each (a message wait, a timer wait, a retry park or a
/// continue-reply park) go to one target node, the report refuses the mapping, and names the later
/// one's nodes.
pub proof fn two_tokens_never_meet(
    f: InstanceFactsView,
    source: Option<Shapes>,
    target: Option<Shapes>,
    ids: Seq<Seq<char>>,
    plan: MigrationPlanView,
    i: int,
    j: int,
)
    requires
        0 <= i < j < migrate::report(f, source, target, ids, plan).loci.len(),
        ({
            let a = migrate::report(f, source, target, ids, plan).loci[i].0;
            let b = migrate::report(f, source, target, ids, plan).loci[j].0;
            &&& a.kind == LocusKind::MessageWait || a.kind == LocusKind::TimerWait || a.kind
                == LocusKind::RetryPark || a.kind == LocusKind::ContinueReplyPark
            &&& b.kind == LocusKind::MessageWait || b.kind == LocusKind::TimerWait || b.kind
                == LocusKind::RetryPark || b.kind == LocusKind::ContinueReplyPark
            &&& a.target == b.target
        }),
    ensures
        ({
            let r = migrate::report(f, source, target, ids, plan);
            told(
                r.violations,
                "SUTRA.ADMIN.MIGRATE.MAPPING_INVALID"@,
                Some(r.loci[j].0.source),
                Some(r.loci[j].0.target),
            )
        }),
{
    let r = migrate::report(f, source, target, ids, plan);
    let all = migrate::loci(f, source, plan.mapping);
    assert(r.loci[i].0 == all[i] && r.loci[j].0 == all[j]);
    let q = nearest(all, i, j);
    let v = migrate::folded(all[q].source, all[j]);
    codes_differ();
    violations_have_causes(f, source, target, ids, plan, v);
    let k = choose|k: int| 0 <= k < r.violations.len() && r.violations[k] == v;
    assert(r.violations[k].code == "SUTRA.ADMIN.MIGRATE.MAPPING_INVALID"@);
}

/// A mapping is refused for nothing else than an entry that does nothing, or two loci that hold a
/// token each and meet: a routed start or a retry budget never causes it.
pub proof fn only_meeting_tokens_or_idle_entries_are_refused(
    f: InstanceFactsView,
    source: Option<Shapes>,
    target: Option<Shapes>,
    ids: Seq<Seq<char>>,
    plan: MigrationPlanView,
    k: int,
)
    requires
        0 <= k < migrate::report(f, source, target, ids, plan).violations.len(),
        migrate::report(f, source, target, ids, plan).violations[k].code
            == "SUTRA.ADMIN.MIGRATE.MAPPING_INVALID"@,
    ensures
        ({
            let r = migrate::report(f, source, target, ids, plan);
            let v = r.violations[k];
            ||| exists|i: int, j: int|
                0 <= i < j < r.loci.len() && (#[trigger] r.loci[i]).0.target == (
                #[trigger] r.loci[j]).0.target && r.loci[i].0.kind != LocusKind::RoutedStart
                    && r.loci[i].0.kind != LocusKind::RetryBudget && r.loci[j].0.kind
                    != LocusKind::RoutedStart && r.loci[j].0.kind != LocusKind::RetryBudget
                    && v.source == Some(r.loci[j].0.source) && v.target == Some(r.loci[j].0.target)
            ||| exists|e: int|
                0 <= e < plan.mapping.len() && v.source == Some((#[trigger] plan.mapping[e]).0)
                    && v.target == Some(plan.mapping[e].1) && !f.completed_nodes.contains(
                    plan.mapping[e].0,
                ) && forall|i: int|
                    0 <= i < r.loci.len() ==> (#[trigger] r.loci[i]).0.source
                        != plan.mapping[e].0
        }),
{
    let r = migrate::report(f, source, target, ids, plan);
    let v = r.violations[k];
    let all = migrate::loci(f, source, plan.mapping);
    assert(r.violations.contains(v));
    codes_differ();
    violations_have_causes(f, source, target, ids, plan, v);
    small_parts(f, plan, v);
    assert(forall|i: int| 0 <= i < all.len() ==> (#[trigger] r.loci[i]).0 == all[i]);
    if exists|j: int, i: int| #[trigger]
        shares(all, j, i) && v == migrate::folded(all[j].source, all[i]) {
        let (j, i) = choose|j: int, i: int| #[trigger]
            shares(all, j, i) && v == migrate::folded(all[j].source, all[i]);
        assert(r.loci[j].0 == all[j] && r.loci[i].0 == all[i]);
    } else {
        let e = choose|e: int|
            0 <= e < plan.mapping.len() && idles(f, all, #[trigger] plan.mapping[e]) && v
                == migrate::idle(plan.mapping[e].0, plan.mapping[e].1);
        assert(v.source == Some(plan.mapping[e].0));
    }
}

/// An entry of the mapping that names a node which the instance neither waits at nor has completed
/// is refused by name.
pub proof fn an_idle_entry_is_refused(
    f: InstanceFactsView,
    source: Option<Shapes>,
    target: Option<Shapes>,
    ids: Seq<Seq<char>>,
    plan: MigrationPlanView,
    e: int,
)
    requires
        0 <= e < plan.mapping.len(),
        !f.completed_nodes.contains(plan.mapping[e].0),
        forall|i: int|
            0 <= i < migrate::report(f, source, target, ids, plan).loci.len() ==> (
            #[trigger] migrate::report(f, source, target, ids, plan).loci[i]).0.source
                != plan.mapping[e].0,
    ensures
        told(
            migrate::report(f, source, target, ids, plan).violations,
            "SUTRA.ADMIN.MIGRATE.MAPPING_INVALID"@,
            Some(plan.mapping[e].0),
            Some(plan.mapping[e].1),
        ),
{
    let r = migrate::report(f, source, target, ids, plan);
    let all = migrate::loci(f, source, plan.mapping);
    let v = migrate::idle(plan.mapping[e].0, plan.mapping[e].1);
    assert forall|i: int| 0 <= i < all.len() implies (#[trigger] all[i]).source
        != plan.mapping[e].0 by {
        assert(r.loci[i].0 == all[i]);
    }
    assert(idles(f, all, plan.mapping[e]));
    codes_differ();
    violations_have_causes(f, source, target, ids, plan, v);
    let k = choose|k: int| 0 <= k < r.violations.len() && r.violations[k] == v;
    assert(r.violations[k].code == "SUTRA.ADMIN.MIGRATE.MAPPING_INVALID"@);
}

/// A finished instance is refused, and only a finished one is refused as finished; a resume is
/// refused exactly of an instance that has not failed; a missing process is reported exactly where
/// the target declares none.
pub proof fn a_request_is_refused_as_a_whole(
    f: InstanceFactsView,
    source: Option<Shapes>,
    target: Option<Shapes>,
    ids: Seq<Seq<char>>,
    plan: MigrationPlanView,
)
    ensures
        ({
            let v = migrate::report(f, source, target, ids, plan).violations;
            &&& told(v, "SUTRA.ADMIN.MIGRATE.INSTANCE_TERMINAL"@, None, None) <==> f.status
                == "COMPLETED"@ || f.status == "TERMINATED"@
            &&& told(v, "SUTRA.ADMIN.MIGRATE.RESUME_NOT_FAILED"@, None, None) <==> plan.resume
                && f.status != "FAILED"@
            &&& told(v, "SUTRA.ADMIN.MIGRATE.PROCESS_ABSENT"@, None, None) <==> target is None
        }),
{
    let r = migrate::report(f, source, target, ids, plan);
    let all = migrate::loci(f, source, plan.mapping);
    codes_differ();
    assert forall|k: int| 0 <= k < r.violations.len() implies cause(
        f,
        all,
        target,
        ids,
        plan,
        #[trigger] r.violations[k],
    ) by {
        assert(r.violations.contains(r.violations[k]));
        violations_have_causes(f, source, target, ids, plan, r.violations[k]);
    }
    assert forall|k: int| 0 <= k < r.violations.len() implies {
        &&& (#[trigger] r.violations[k]).code == "SUTRA.ADMIN.MIGRATE.INSTANCE_TERMINAL"@
            ==> f.status == "COMPLETED"@ || f.status == "TERMINATED"@
        &&& r.violations[k].code == "SUTRA.ADMIN.MIGRATE.RESUME_NOT_FAILED"@ ==> plan.resume
            && f.status != "FAILED"@
        &&& r.violations[k].code == "SUTRA.ADMIN.MIGRATE.PROCESS_ABSENT"@ ==> target is None
    } by {
        small_parts(f, plan, r.violations[k]);
    }
    if migrate::terminal_violations(f).len() > 0 {
        let v = migrate::terminal_violations(f)[0];
        assert(migrate::terminal_violations(f).contains(v));
        violations_have_causes(f, source, target, ids, plan, v);
        let k = choose|k: int| 0 <= k < r.violations.len() && r.violations[k] == v;
        assert(r.violations[k].code == "SUTRA.ADMIN.MIGRATE.INSTANCE_TERMINAL"@);
    }
    if migrate::resume_violations(f, plan).len() > 0 {
        let v = migrate::resume_violations(f, plan)[0];
        assert(migrate::resume_violations(f, plan).contains(v));
        violations_have_causes(f, source, target, ids, plan, v);
        let k = choose|k: int| 0 <= k < r.violations.len() && r.violations[k] == v;
        assert(r.violations[k].code == "SUTRA.ADMIN.MIGRATE.RESUME_NOT_FAILED"@);
    }
    if target is None {
        let v = migrate::process_absent(f, plan, ids);
        violations_have_causes(f, source, target, ids, plan, v);
        let k = choose|k: int| 0 <= k < r.violations.len() && r.violations[k] == v;
        assert(r.violations[k].code == "SUTRA.ADMIN.MIGRATE.PROCESS_ABSENT"@);
    }
}

/// A locus is refused as unmapped, or as incompatible, exactly where its target node is missing from
/// the target process, or is there and cannot host a locus of its kind: a message wait needs a node
/// that a relay resumes, a timer wait one with a timer, a retry park and a retry budget one that
/// retries, a continue-reply park one that continues, and the routed start a start event.
pub proof fn a_locus_lands_or_is_refused(
    f: InstanceFactsView,
    source: Option<Shapes>,
    target: Shapes,
    ids: Seq<Seq<char>>,
    plan: MigrationPlanView,
    i: int,
)
    requires
        0 <= i < migrate::report(f, source, Some(target), ids, plan).loci.len(),
    ensures
        ({
            let r = migrate::report(f, source, Some(target), ids, plan);
            let l = r.loci[i].0;
            match keyed::lookup(target, l.target) {
                None => {
                    &&& told(
                        r.violations,
                        "SUTRA.ADMIN.MIGRATE.NODE_UNMAPPED"@,
                        Some(l.source),
                        Some(l.target),
                    )
                    &&& r.loci[i].1 is None
                },
                Some(shape) => {
                    let able = match l.kind {
                        LocusKind::MessageWait => shape.relay_resumable,
                        LocusKind::TimerWait => shape.timer_capable,
                        LocusKind::RetryPark => shape.retryable_task,
                        LocusKind::RetryBudget => shape.retryable_task,
                        LocusKind::ContinueReplyPark => shape.continue_reply,
                        LocusKind::RoutedStart => shape.start_event,
                    };
                    &&& able ==> r.loci[i].1 == Some(shape.construct)
                    &&& !able ==> r.loci[i].1 is None && told(
                        r.violations,
                        "SUTRA.ADMIN.MIGRATE.NODE_INCOMPATIBLE"@,
                        Some(l.source),
                        Some(l.target),
                    )
                },
            }
        }),
{
    let r = migrate::report(f, source, Some(target), ids, plan);
    let all = migrate::loci(f, source, plan.mapping);
    assert(r.loci[i].0 == all[i]);
    codes_differ();
    if strays(target, all[i]) {
        let v = stray_finding(target, all[i]);
        violations_have_causes(f, source, Some(target), ids, plan, v);
        let k = choose|k: int| 0 <= k < r.violations.len() && r.violations[k] == v;
        assert(r.violations[k].source == Some(all[i].source));
    }
}

/// No node is refused as unmapped or as incompatible but for a locus that goes there.
pub proof fn only_stray_loci_are_refused(
    f: InstanceFactsView,
    source: Option<Shapes>,
    target: Option<Shapes>,
    ids: Seq<Seq<char>>,
    plan: MigrationPlanView,
    k: int,
)
    requires
        0 <= k < migrate::report(f, source, target, ids, plan).violations.len(),
        ({
            let c = migrate::report(f, source, target, ids, plan).violations[k].code;
            c == "SUTRA.ADMIN.MIGRATE.NODE_UNMAPPED"@ || c
                == "SUTRA.ADMIN.MIGRATE.NODE_INCOMPATIBLE"@
        }),
    ensures
        ({
            let r = migrate::report(f, source, target, ids, plan);
            let v = r.violations[k];
            &&& target is Some
            &&& exists|i: int|
                0 <= i < r.loci.len() && (#[trigger] r.loci[i]).1 is None && v.source == Some(
                    r.loci[i].0.source,
                ) && v.target == Some(r.loci[i].0.target) && (v.code
                    == "SUTRA.ADMIN.MIGRATE.NODE_UNMAPPED"@) == (keyed::lookup(
                    target->Some_0,
                    r.loci[i].0.target,
                ) is None)
        }),
{
    let r = migrate::report(f, source, target, ids, plan);
    let v = r.violations[k];
    let all = migrate::loci(f, source, plan.mapping);
    assert(r.violations.contains(v));
    codes_differ();
    violations_have_causes(f, source, target, ids, plan, v);
    small_parts(f, plan, v);
    let i = choose|i: int|
        0 <= i < all.len() && strays(target->Some_0, #[trigger] all[i]) && v == stray_finding(
            target->Some_0,
            all[i],
        );
    assert(r.loci[i].0 == all[i]);
}

/// Across processes every locus needs an entry of its own, and within one process none does: a locus
/// is refused for want of an entry exactly where the plan names another process and the mapping does
/// not name the locus.
pub proof fn a_locus_needs_an_entry_across_processes(
    f: InstanceFactsView,
    source: Option<Shapes>,
    target: Option<Shapes>,
    ids: Seq<Seq<char>>,
    plan: MigrationPlanView,
    i: int,
)
    requires
        0 <= i < migrate::report(f, source, target, ids, plan).loci.len(),
    ensures
        ({
            let r = migrate::report(f, source, target, ids, plan);
            let l = r.loci[i].0;
            told(
                r.violations,
                "SUTRA.ADMIN.MIGRATE.CROSS_PROCESS_UNMAPPED"@,
                Some(l.source),
                Some(l.target),
            ) <==> keyed::lookup(plan.mapping, l.source) is None && (
            plan.target_process_id matches Some(p) && p.len() > 0 && p != f.process_id)
        }),
{
    let r = migrate::report(f, source, target, ids, plan);
    let all = migrate::loci(f, source, plan.mapping);
    assert(r.loci[i].0 == all[i]);
    let l = all[i];
    codes_differ();
    if told(
        r.violations,
        "SUTRA.ADMIN.MIGRATE.CROSS_PROCESS_UNMAPPED"@,
        Some(l.source),
        Some(l.target),
    ) {
        let k = choose|k: int|
            0 <= k < r.violations.len() && (#[trigger] r.violations[k]).code
                == "SUTRA.ADMIN.MIGRATE.CROSS_PROCESS_UNMAPPED"@ && r.violations[k].source == Some(
                l.source,
            ) && r.violations[k].target == Some(l.target);
        let v = r.violations[k];
        assert(r.violations.contains(v));
        violations_have_causes(f, source, target, ids, plan, v);
        small_parts(f, plan, v);
        let q = choose|q: int|
            0 <= q < all.len() && names_no_entry(plan.mapping, #[trigger] all[q]) && v
                == migrate::unnamed(f, plan, all[q]);
        assert(all[q].source == l.source);
    }
    if crossing(f, plan) && names_no_entry(plan.mapping, all[i]) {
        let v = migrate::unnamed(f, plan, all[i]);
        violations_have_causes(f, source, target, ids, plan, v);
        let k = choose|k: int| 0 <= k < r.violations.len() && r.violations[k] == v;
        assert(r.violations[k].source == Some(l.source));
    }
}

// ---- loci --------------------------------------------------------------------------------------

/// What kind of locus a node is follows from the durable state alone. A wait row decides first, and
/// of these a timer row before a message row: a timer at a node whose retry is under way is a retry
/// park, at one that continues a continue-reply park, at any other a timer wait. A node of the
/// frontier without a row is a message wait, and a retry counter alone a retry budget.
pub proof fn the_durable_state_decides_the_kind(
    f: InstanceFactsView,
    source: Option<Shapes>,
    target: Option<Shapes>,
    ids: Seq<Seq<char>>,
    plan: MigrationPlanView,
    i: int,
)
    requires
        0 <= i < migrate::report(f, source, target, ids, plan).loci.len(),
    ensures
        ({
            let l = migrate::report(f, source, target, ids, plan).loci[i].0;
            let timer = f.wait_rows.contains((l.source, true));
            let message = f.wait_rows.contains((l.source, false));
            let retrying = f.retry_nodes.contains(l.source) && !f.completed_nodes.contains(
                l.source,
            );
            let continuing = source is Some && (keyed::lookup(
                source->Some_0,
                l.source,
            ) matches Some(shape) && shape.continue_reply);
            match l.kind {
                LocusKind::RoutedStart => f.start_node.len() > 0 && l.source == f.start_node,
                LocusKind::RetryPark => timer && retrying,
                LocusKind::ContinueReplyPark => timer && !retrying && continuing,
                LocusKind::TimerWait => timer && !retrying && !continuing,
                LocusKind::MessageWait => !timer && (message || f.waiting_nodes.contains(l.source)),
                LocusKind::RetryBudget => !timer && !message && !f.waiting_nodes.contains(l.source)
                    && f.retry_nodes.contains(l.source),
            }
        }),
{
    let r = migrate::report(f, source, target, ids, plan);
    let all = migrate::loci(f, source, plan.mapping);
    let l = all[i];
    assert(r.loci[i].0 == l);
    assert(all.contains(l));
    migrate_laws::loci_are_the_pinned_nodes(f, source, plan.mapping, l);
    migrate_laws::kind_of_pinned(f, source, l.source);
    rows_named(f, l.source);
}

proof fn rows_named(f: InstanceFactsView, id: Seq<char>)
    ensures
        migrate_laws::timer_names(f, f.wait_rows.len() as int, id) == f.wait_rows.contains(
            (id, true),
        ),
        migrate_laws::row_names(f, id) == (f.wait_rows.contains((id, true)) || f.wait_rows.contains(
            (id, false),
        )),
{
    if migrate_laws::timer_names(f, f.wait_rows.len() as int, id) {
        let i = choose|i: int|
            0 <= i < f.wait_rows.len() && (#[trigger] f.wait_rows[i]) == (id, true);
        assert(f.wait_rows[i] == (id, true));
    }
    if f.wait_rows.contains((id, true)) {
        let i = choose|i: int| 0 <= i < f.wait_rows.len() && f.wait_rows[i] == (id, true);
        assert(f.wait_rows[i].0 == id);
    }
    if f.wait_rows.contains((id, false)) {
        let i = choose|i: int| 0 <= i < f.wait_rows.len() && f.wait_rows[i] == (id, false);
        assert(f.wait_rows[i].0 == id);
    }
    if migrate_laws::row_names(f, id) {
        let i = choose|i: int| 0 <= i < f.wait_rows.len() && (#[trigger] f.wait_rows[i]).0 == id;
        assert(f.wait_rows.contains(f.wait_rows[i]));
        assert(f.wait_rows[i] == (id, f.wait_rows[i].1));
    }
}

/// Every node that a wait row, the frontier, a retry counter or the routed start names is listed,
/// and goes where the mapping sends it, or stays.
pub proof fn every_named_node_is_listed(
    f: InstanceFactsView,
    source: Option<Shapes>,
    target: Option<Shapes>,
    ids: Seq<Seq<char>>,
    plan: MigrationPlanView,
    id: Seq<char>,
)
    ensures
        ({
            let r = migrate::report(f, source, target, ids, plan);
            &&& f.wait_rows.contains((id, true)) || f.wait_rows.contains((id, false))
                || f.waiting_nodes.contains(id) || f.retry_nodes.contains(id) || (f.start_node == id
                && id.len() > 0) ==> exists|i: int|
                0 <= i < r.loci.len() && (#[trigger] r.loci[i]).0.source == id
            &&& forall|i: int|
                0 <= i < r.loci.len() ==> (#[trigger] r.loci[i]).0.target == match keyed::lookup(
                    plan.mapping,
                    r.loci[i].0.source,
                ) {
                    Some(to) => to,
                    None => r.loci[i].0.source,
                }
        }),
{
    let r = migrate::report(f, source, target, ids, plan);
    let all = migrate::loci(f, source, plan.mapping);
    rows_named(f, id);
    if migrate_laws::pinned(f, id) {
        migrate_laws::every_pinned_node_has_a_locus(f, source, plan.mapping, id);
        let i = choose|i: int| 0 <= i < all.len() && (#[trigger] all[i]).source == id;
        assert(r.loci[i].0.source == id);
    } else if f.start_node == id && id.len() > 0 {
        let l = LocusView {
            kind: LocusKind::RoutedStart,
            source: id,
            target: migrate::mapped(plan.mapping, id),
        };
        migrate_laws::loci_are_the_pinned_nodes(f, source, plan.mapping, l);
        let i = choose|i: int| 0 <= i < all.len() && all[i] == l;
        assert(r.loci[i].0.source == id);
    }
    assert forall|i: int| 0 <= i < r.loci.len() implies (#[trigger] r.loci[i]).0.target
        == match keyed::lookup(plan.mapping, r.loci[i].0.source) {
        Some(to) => to,
        None => r.loci[i].0.source,
    } by {
        assert(r.loci[i].0 == all[i]);
        assert(all.contains(all[i]));
        migrate_laws::loci_are_the_pinned_nodes(f, source, plan.mapping, all[i]);
    }
}

/// The mapping that a report applies sends a node where the caller says, and otherwise leaves it
/// where it is; it names what the caller names, what is listed and what was completed, and nothing
/// else.
pub proof fn the_applied_mapping_keeps_what_is_not_named(
    f: InstanceFactsView,
    source: Option<Shapes>,
    target: Option<Shapes>,
    ids: Seq<Seq<char>>,
    plan: MigrationPlanView,
    id: Seq<char>,
)
    requires
        keyed::ascending(plan.mapping),
    ensures
        ({
            let r = migrate::report(f, source, target, ids, plan);
            let listed = exists|i: int|
                0 <= i < r.loci.len() && (#[trigger] r.loci[i]).0.source == id;
            match (keyed::lookup(plan.mapping, id), keyed::lookup(r.effective_mapping, id)) {
                (Some(to), applied) => applied == Some(to),
                (None, Some(to)) => to == id && (listed || f.completed_nodes.contains(id)),
                (None, None) => !listed && !f.completed_nodes.contains(id),
            }
        }),
{
    let r = migrate::report(f, source, target, ids, plan);
    let all = migrate::loci(f, source, plan.mapping);
    migrate_laws::effective_mapping_is_explicit_else_identity(f, source, plan, id);
    if migrate::pins(all, id) {
        let i = choose|i: int| 0 <= i < all.len() && (#[trigger] all[i]).source == id;
        assert(r.loci[i].0.source == id);
    }
    if exists|i: int| 0 <= i < r.loci.len() && (#[trigger] r.loci[i]).0.source == id {
        let i = choose|i: int| 0 <= i < r.loci.len() && (#[trigger] r.loci[i]).0.source == id;
        assert(all[i].source == id);
    }
}

/// A plan stays in the instance's process unless it names another.
pub proof fn a_plan_stays_unless_it_names_another_process(
    plan: MigrationPlan,
    process_id: Seq<char>,
)
    ensures
        match plan.target_process_id {
            Some(p) => if p@.len() > 0 {
                plan@.target_process(process_id) == p@ && (plan@.crosses(process_id) <==> p@
                    != process_id)
            } else {
                plan@.target_process(process_id) == process_id && !plan@.crosses(process_id)
            },
            None => plan@.target_process(process_id) == process_id && !plan@.crosses(process_id),
        },
        plan@.source() == "identity"@ <==> plan.mapping@.len() == 0,
        plan@.source() == "explicit"@ <==> plan.mapping@.len() > 0,
        plan@.mapping == plan.mapping@,
        plan@.dry_run == plan.dry_run,
        plan@.resume == plan.resume,
{
    reveal_strlit("identity");
    reveal_strlit("explicit");
    assert("identity"@[0] == 'i' && "explicit"@[0] == 'e');
}

// ---- warnings ----------------------------------------------------------------------------------

/// A completed node is warned of exactly where it goes to a node that the target process lacks; the
/// pending outbox exactly where it is not empty.
pub proof fn warnings_say_what_is_left_behind(
    f: InstanceFactsView,
    source: Option<Shapes>,
    target: Shapes,
    ids: Seq<Seq<char>>,
    plan: MigrationPlanView,
    i: int,
)
    requires
        0 <= i < f.completed_nodes.len(),
    ensures
        ({
            let w = migrate::report(f, source, Some(target), ids, plan).warnings;
            let node = f.completed_nodes[i];
            let to = match keyed::lookup(plan.mapping, node) {
                Some(to) => to,
                None => node,
            };
            told(w, "SUTRA.ADMIN.MIGRATE.COMPLETED_NODE_ABSENT"@, Some(node), Some(to))
                <==> keyed::lookup(target, to) is None
        }),
{
    let r = migrate::report(f, source, Some(target), ids, plan);
    let node = f.completed_nodes[i];
    let to = sent_to(plan.mapping, node);
    warning_codes();
    if left_behind(plan.mapping, target, node) {
        let v = migrate::completed_absent(node, to);
        warnings_found(f, source, target, plan, v);
        completed_found(f.completed_nodes, plan.mapping, target, v);
        let k = choose|k: int| 0 <= k < r.warnings.len() && r.warnings[k] == v;
        assert(r.warnings[k].source == Some(node));
    }
    if told(r.warnings, "SUTRA.ADMIN.MIGRATE.COMPLETED_NODE_ABSENT"@, Some(node), Some(to)) {
        let k = choose|k: int|
            0 <= k < r.warnings.len() && (#[trigger] r.warnings[k]).code
                == "SUTRA.ADMIN.MIGRATE.COMPLETED_NODE_ABSENT"@ && r.warnings[k].source == Some(
                node,
            ) && r.warnings[k].target == Some(to);
        let v = r.warnings[k];
        assert(r.warnings.contains(v));
        warnings_found(f, source, target, plan, v);
        frontier_codes(f, source, plan.mapping, f.waiting_nodes.len() as int, v);
        completed_found(f.completed_nodes, plan.mapping, target, v);
        let q = choose|q: int|
            0 <= q < f.completed_nodes.len() && left_behind(
                plan.mapping,
                target,
                #[trigger] f.completed_nodes[q],
            ) && v == migrate::completed_absent(
                f.completed_nodes[q],
                sent_to(plan.mapping, f.completed_nodes[q]),
            );
        assert(f.completed_nodes[q] == node);
    }
}

/// Pending outbox rows are warned of exactly where there are some and the target is known.
pub proof fn a_pending_outbox_is_warned_of(
    f: InstanceFactsView,
    source: Option<Shapes>,
    target: Shapes,
    ids: Seq<Seq<char>>,
    plan: MigrationPlanView,
)
    ensures
        told(
            migrate::report(f, source, Some(target), ids, plan).warnings,
            "SUTRA.ADMIN.MIGRATE.OUTBOX_PENDING_ON_SOURCE"@,
            None,
            None,
        ) <==> f.pending_outbox > 0,
{
    let r = migrate::report(f, source, Some(target), ids, plan);
    warning_codes();
    if f.pending_outbox > 0 {
        let v = migrate::outbox_warnings(f)[0];
        assert(migrate::outbox_warnings(f).contains(v));
        warnings_found(f, source, target, plan, v);
        let k = choose|k: int| 0 <= k < r.warnings.len() && r.warnings[k] == v;
        assert(r.warnings[k].code == "SUTRA.ADMIN.MIGRATE.OUTBOX_PENDING_ON_SOURCE"@);
    }
    if told(r.warnings, "SUTRA.ADMIN.MIGRATE.OUTBOX_PENDING_ON_SOURCE"@, None, None) {
        let k = choose|k: int|
            0 <= k < r.warnings.len() && (#[trigger] r.warnings[k]).code
                == "SUTRA.ADMIN.MIGRATE.OUTBOX_PENDING_ON_SOURCE"@ && r.warnings[k].source == None::<
                Seq<char>,
            > && r.warnings[k].target == None::<Seq<char>>;
        let v = r.warnings[k];
        assert(r.warnings.contains(v));
        warnings_found(f, source, target, plan, v);
        frontier_codes(f, source, plan.mapping, f.waiting_nodes.len() as int, v);
        completed_found(f.completed_nodes, plan.mapping, target, v);
    }
}

/// A node of the frontier is warned of exactly where no wait row names it.
pub proof fn an_unbacked_wait_is_warned_of(
    f: InstanceFactsView,
    source: Option<Shapes>,
    target: Option<Shapes>,
    ids: Seq<Seq<char>>,
    plan: MigrationPlanView,
    id: Seq<char>,
)
    requires
        f.waiting_nodes.contains(id),
    ensures
        (exists|k: int|
            0 <= k < migrate::report(f, source, target, ids, plan).warnings.len() && (
            #[trigger] migrate::report(f, source, target, ids, plan).warnings[k]).code
                == "SUTRA.ADMIN.MIGRATE.FRONTIER_WITHOUT_WAIT_ROW"@ && migrate::report(
                f,
                source,
                target,
                ids,
                plan,
            ).warnings[k].source == Some(id)) <==> !f.wait_rows.contains((id, true))
            && !f.wait_rows.contains((id, false)),
{
    let r = migrate::report(f, source, target, ids, plan);
    let n = f.waiting_nodes.len() as int;
    let a = migrate::frontier_warnings(f, source, plan.mapping, n);
    warning_codes();
    rows_named(f, id);
    if !migrate_laws::row_names(f, id) {
        let i = choose|i: int| 0 <= i < n && f.waiting_nodes[i] == id;
        unbacked_told(f, source, plan.mapping, n, i);
        let k = choose|k: int| 0 <= k < a.len() && a[k] == migrate::unbacked(plan.mapping, id);
        assert(r.warnings[k] == a[k]);
    }
    if exists|k: int|
        0 <= k < r.warnings.len() && (#[trigger] r.warnings[k]).code
            == "SUTRA.ADMIN.MIGRATE.FRONTIER_WITHOUT_WAIT_ROW"@ && r.warnings[k].source == Some(id) {
        let k = choose|k: int|
            0 <= k < r.warnings.len() && (#[trigger] r.warnings[k]).code
                == "SUTRA.ADMIN.MIGRATE.FRONTIER_WITHOUT_WAIT_ROW"@ && r.warnings[k].source == Some(
                id,
            );
        let v = r.warnings[k];
        assert(r.warnings.contains(v));
        match target {
            Some(t) => {
                warnings_found(f, source, t, plan, v);
                completed_found(f.completed_nodes, plan.mapping, t, v);
            },
            None => {
                assert(r.warnings =~= a);
            },
        }
        frontier_codes(f, source, plan.mapping, n, v);
    }
}

proof fn unbacked_told(
    f: InstanceFactsView,
    source: Option<Shapes>,
    mapping: Seq<(Seq<char>, Seq<char>)>,
    n: int,
    i: int,
)
    requires
        0 <= i < n <= f.waiting_nodes.len(),
        !migrate_laws::row_names(f, f.waiting_nodes[i]),
    ensures
        migrate::frontier_warnings(f, source, mapping, n).contains(
            migrate::unbacked(mapping, f.waiting_nodes[i]),
        ),
    decreases n,
{
    let prior = migrate::frontier_warnings(f, source, mapping, n - 1);
    let now = migrate::frontier_warnings(f, source, mapping, n);
    let v = migrate::unbacked(mapping, f.waiting_nodes[i]);
    migrate_laws::frontier_kinds_hold(f, source, n - 1, f.waiting_nodes[n - 1]);
    if i < n - 1 {
        unbacked_told(f, source, mapping, n - 1, i);
        let k = choose|k: int| 0 <= k < prior.len() && prior[k] == v;
        assert(now[k] == v);
    } else if keyed::has(migrate::frontier_kinds(f, source, n - 1), f.waiting_nodes[n - 1]) {
        let q = choose|q: int| 0 <= q < n - 1
            && (#[trigger] f.waiting_nodes[q]) == f.waiting_nodes[i];
        unbacked_told(f, source, mapping, n - 1, q);
        let k = choose|k: int| 0 <= k < prior.len() && prior[k] == v;
        assert(now[k] == v);
    } else {
        assert(now[now.len() - 1] == v);
    }
}

proof fn frontier_codes(
    f: InstanceFactsView,
    source: Option<Shapes>,
    mapping: Seq<(Seq<char>, Seq<char>)>,
    n: int,
    v: FindingView,
)
    requires
        0 <= n <= f.waiting_nodes.len(),
    ensures
        migrate::frontier_warnings(f, source, mapping, n).contains(v) ==> v.code
            == "SUTRA.ADMIN.MIGRATE.FRONTIER_WITHOUT_WAIT_ROW"@ && (v.source matches Some(id)
            && !migrate_laws::row_names(f, id)),
    decreases n,
{
    if n > 0 {
        frontier_codes(f, source, mapping, n - 1, v);
        migrate_laws::frontier_kinds_hold(f, source, n - 1, f.waiting_nodes[n - 1]);
        let prior = migrate::frontier_warnings(f, source, mapping, n - 1);
        let now = migrate::frontier_warnings(f, source, mapping, n);
        if now.contains(v) && !prior.contains(v) {
            let k = choose|k: int| 0 <= k < now.len() && now[k] == v;
            if k < prior.len() {
                assert(prior[k] == v);
            }
            assert(v == migrate::unbacked(mapping, f.waiting_nodes[n - 1]));
        }
    }
}

proof fn warnings_found(
    f: InstanceFactsView,
    source: Option<Shapes>,
    target: Shapes,
    plan: MigrationPlanView,
    v: FindingView,
)
    ensures
        migrate::warnings(f, source, Some(target), plan).contains(v) <==> migrate::frontier_warnings(
            f,
            source,
            plan.mapping,
            f.waiting_nodes.len() as int,
        ).contains(v) || migrate::completed_warnings(
            f.completed_nodes,
            plan.mapping,
            target,
        ).contains(v) || migrate::outbox_warnings(f).contains(v),
{
    let a = migrate::frontier_warnings(f, source, plan.mapping, f.waiting_nodes.len() as int);
    let b = migrate::completed_warnings(f.completed_nodes, plan.mapping, target);
    let c = migrate::outbox_warnings(f);
    in_either(a, b + c, v);
    in_either(b, c, v);
}

proof fn warning_codes()
    ensures
        "SUTRA.ADMIN.MIGRATE.COMPLETED_NODE_ABSENT"@.len() == 41,
        "SUTRA.ADMIN.MIGRATE.FRONTIER_WITHOUT_WAIT_ROW"@.len() == 45,
        "SUTRA.ADMIN.MIGRATE.OUTBOX_PENDING_ON_SOURCE"@.len() == 44,
{
    reveal_strlit("SUTRA.ADMIN.MIGRATE.COMPLETED_NODE_ABSENT");
    reveal_strlit("SUTRA.ADMIN.MIGRATE.FRONTIER_WITHOUT_WAIT_ROW");
    reveal_strlit("SUTRA.ADMIN.MIGRATE.OUTBOX_PENDING_ON_SOURCE");
}

// ---- parks -------------------------------------------------------------------------------------

/// A wait row is a park exactly where it still waits, or where a failure tore it down: the instance
/// has failed with a frontier, and the row was resolved last, at the same instant as every other row
/// that the failure tore down. Rows come one for one, in their order, each with its own node and
/// with whether it is a timer.
pub proof fn parks_are_taken_one_by_one(
    a: Seq<InstanceWait>,
    b: Seq<InstanceWait>,
    row: InstanceWait,
    torn: Option<i128>,
)
    ensures
        migrate::parks(a + b, torn) == migrate::parks(a, torn) + migrate::parks(b, torn),
        migrate::parks(seq![row], torn) == if row.status@ == "WAITING"@ || (torn is Some
            && row.resolved_at == torn) {
            seq![(row.node_id@, row.kind@ == "TIMER"@)]
        } else {
            Seq::empty()
        },
    decreases b.len(),
{
    let none = Seq::<InstanceWait>::empty();
    assert(seq![row].drop_last() =~= none);
    assert(migrate::parks(none, torn) =~= Seq::<(Seq<char>, bool)>::empty());
    assert(Seq::<(Seq<char>, bool)>::empty().push((row.node_id@, row.kind@ == "TIMER"@)) =~= seq![
        (row.node_id@, row.kind@ == "TIMER"@),
    ]);
    if b.len() == 0 {
        assert(a + b =~= a);
        assert(migrate::parks(a, torn) + migrate::parks(b, torn) =~= migrate::parks(a, torn));
    } else {
        parks_are_taken_one_by_one(a, b.drop_last(), row, torn);
        assert((a + b).drop_last() =~= a + b.drop_last());
        assert((a + b).last() == b.last());
        let x = migrate::parks(a, torn);
        let y = migrate::parks(b.drop_last(), torn);
        let e = (b.last().node_id@, b.last().kind@ == "TIMER"@);
        assert((x + y).push(e) =~= x + y.push(e));
    }
}

/// The instant at which a failure tore its waits down is the latest at which any row was resolved,
/// and there is one only where the instance has failed, has a frontier and has a resolved row.
pub proof fn a_failure_tears_down_last(
    status: Seq<char>,
    frontier: Seq<Seq<char>>,
    rows: Seq<InstanceWait>,
)
    ensures
        match migrate::torn_down(status, frontier, rows) {
            Some(at) => {
                &&& status == "FAILED"@ && frontier.len() > 0
                &&& exists|i: int| 0 <= i < rows.len() && (#[trigger] rows[i]).resolved_at == Some(at)
                &&& forall|i: int|
                    0 <= i < rows.len() ==> ((#[trigger] rows[i]).resolved_at matches Some(t) ==> t
                        <= at)
            },
            None => status != "FAILED"@ || frontier.len() == 0 || forall|i: int|
                0 <= i < rows.len() ==> (#[trigger] rows[i]).resolved_at is None,
        },
{
    latest_is_latest(rows);
}

proof fn latest_is_latest(rows: Seq<InstanceWait>)
    ensures
        match migrate::latest_resolution(rows) {
            Some(at) => {
                &&& exists|i: int| 0 <= i < rows.len() && (#[trigger] rows[i]).resolved_at == Some(at)
                &&& forall|i: int|
                    0 <= i < rows.len() ==> ((#[trigger] rows[i]).resolved_at matches Some(t) ==> t
                        <= at)
            },
            None => forall|i: int| 0 <= i < rows.len() ==> (#[trigger] rows[i]).resolved_at is None,
        },
    decreases rows.len(),
{
    if rows.len() > 0 {
        let rest = rows.drop_last();
        let n = rows.len() - 1;
        latest_is_latest(rest);
        assert(rows[n] == rows.last());
        assert forall|i: int| 0 <= i < n implies #[trigger] rows[i] == rest[i] by {}
        match migrate::latest_resolution(rest) {
            Some(at) => {
                let i = choose|i: int|
                    0 <= i < rest.len() && (#[trigger] rest[i]).resolved_at == Some(at);
                assert(rows[i].resolved_at == Some(at));
            },
            None => {},
        }
        assert forall|i: int| 0 <= i < rows.len() implies ((#[trigger] rows[i]).resolved_at matches Some(
            t,
        ) ==> migrate::latest_resolution(rows) matches Some(at) && t <= at) by {
            if i < n {
                assert(rest[i] == rows[i]);
            }
        }
    }
}

// ---- documents ---------------------------------------------------------------------------------

/// The kinds of loci have names of their own.
pub proof fn each_kind_has_its_name(a: LocusKind, b: LocusKind)
    ensures
        LocusKind::MessageWait.label_view() == "MESSAGE_WAIT"@,
        LocusKind::TimerWait.label_view() == "TIMER_WAIT"@,
        LocusKind::RetryPark.label_view() == "RETRY_PARK"@,
        LocusKind::ContinueReplyPark.label_view() == "CONTINUE_REPLY_PARK"@,
        LocusKind::RoutedStart.label_view() == "ROUTED_START"@,
        LocusKind::RetryBudget.label_view() == "RETRY_BUDGET"@,
        a != b ==> a.label_view() != b.label_view(),
{
    reveal_strlit("MESSAGE_WAIT");
    reveal_strlit("TIMER_WAIT");
    reveal_strlit("RETRY_PARK");
    reveal_strlit("CONTINUE_REPLY_PARK");
    reveal_strlit("ROUTED_START");
    reveal_strlit("RETRY_BUDGET");
    assert("MESSAGE_WAIT"@.len() == 12 && "TIMER_WAIT"@.len() == 10 && "RETRY_PARK"@.len() == 10
        && "CONTINUE_REPLY_PARK"@.len() == 19 && "ROUTED_START"@.len() == 12
        && "RETRY_BUDGET"@.len() == 12);
    assert("MESSAGE_WAIT"@[0] == 'M' && "TIMER_WAIT"@[0] == 'T' && "RETRY_PARK"@[0] == 'R'
        && "ROUTED_START"@[1] == 'O' && "RETRY_BUDGET"@[1] == 'E' && "RETRY_BUDGET"@[0] == 'R');
}

/// A locus is told with the name of its kind, its two nodes, and the construct that it lands on;
/// where it lands on none it is told as a violation.
pub proof fn a_locus_is_told_with_its_nodes(p: (LocusView, Option<Seq<char>>))
    ensures
        ({
            let d = migrate::locus_json(p);
            &&& d.text_member("kind"@) == Some(p.0.kind.label_view())
            &&& d.text_member("sourceNodeId"@) == Some(p.0.source)
            &&& d.text_member("targetNodeId"@) == Some(p.0.target)
            &&& d.text_member("targetConstruct"@) == p.1
            &&& d.text_member("status"@) == Some("OK"@) <==> p.1 is Some
            &&& d.text_member("status"@) == Some("VIOLATION"@) <==> p.1 is None
        }),
{
    reveal_strlit("kind");
    reveal_strlit("sourceNodeId");
    reveal_strlit("targetNodeId");
    reveal_strlit("targetConstruct");
    reveal_strlit("status");
    reveal_strlit("OK");
    reveal_strlit("VIOLATION");
    assert("OK"@.len() == 2 && "VIOLATION"@.len() == 9);
    let word = JsonView::Text(
        if p.1 is Some {
            "OK"@
        } else {
            "VIOLATION"@
        },
    );
    json::members_with(JsonView::empty(), "kind"@, JsonView::Text(p.0.kind.label_view()));
    let j1 = JsonView::empty().with("kind"@, JsonView::Text(p.0.kind.label_view()));
    json::members_with(j1, "sourceNodeId"@, JsonView::Text(p.0.source));
    let j2 = j1.with("sourceNodeId"@, JsonView::Text(p.0.source));
    json::members_with(j2, "targetNodeId"@, JsonView::Text(p.0.target));
    let j3 = j2.with("targetNodeId"@, JsonView::Text(p.0.target));
    json::members_with(j3, "targetConstruct"@, json::optional(p.1));
    let j4 = j3.with("targetConstruct"@, json::optional(p.1));
    json::members_with(j4, "status"@, word);
    let j5 = j4.with("status"@, word);
}

/// A finding is told with its code, its nodes where it has any, and its words.
pub proof fn a_finding_is_told_as_it_is(finding: Finding)
    ensures
        ({
            let d = finding@.json();
            &&& d.text_member("code"@) == Some(finding.code@)
            &&& d.text_member("sourceNodeId"@) == sources::opt(finding.source_node_id)
            &&& d.text_member("targetNodeId"@) == sources::opt(finding.target_node_id)
            &&& d.text_member("detail"@) == Some(finding.detail@)
        }),
{
    reveal_strlit("code");
    reveal_strlit("sourceNodeId");
    reveal_strlit("targetNodeId");
    reveal_strlit("detail");
    let f = finding@;
    json::members_with(JsonView::empty(), "code"@, JsonView::Text(f.code));
    let j1 = JsonView::empty().with("code"@, JsonView::Text(f.code));
    json::members_with(j1, "sourceNodeId"@, json::optional(f.source));
    let j2 = j1.with("sourceNodeId"@, json::optional(f.source));
    json::members_with(j2, "targetNodeId"@, json::optional(f.target));
    let j3 = j2.with("targetNodeId"@, json::optional(f.target));
    json::members_with(j3, "detail"@, JsonView::Text(f.detail));
    let j4 = j3.with("detail"@, JsonView::Text(f.detail));
}

/// What contracts say of a report is what its fields hold.
pub proof fn a_report_is_its_fields(r: MigrationReport, i: int)
    ensures
        r@.loci.len() == r.loci@.len(),
        r@.violations.len() == r.violations@.len(),
        r@.warnings.len() == r.warnings@.len(),
        r@.effective_mapping == r.effective_mapping@,
        0 <= i < r.loci@.len() ==> {
            let l: Locus = r.loci@[i].0;
            &&& r@.loci[i].0.kind == l.kind
            &&& r@.loci[i].0.source == l.source_node_id@
            &&& r@.loci[i].0.target == l.target_node_id@
            &&& r@.loci[i].1 is Some <==> r.loci@[i].1 is Some
            &&& r.loci@[i].1 matches Some(c) ==> r@.loci[i].1 == Some(c@)
        },
        0 <= i < r.violations@.len() ==> {
            let v: Finding = r.violations@[i];
            &&& r@.violations[i].code == v.code@
            &&& r@.violations[i].source == sources::opt(v.source_node_id)
            &&& r@.violations[i].target == sources::opt(v.target_node_id)
            &&& r@.violations[i].detail == v.detail@
        },
        0 <= i < r.warnings@.len() ==> {
            let v: Finding = r.warnings@[i];
            &&& r@.warnings[i].code == v.code@
            &&& r@.warnings[i].source == sources::opt(v.source_node_id)
            &&& r@.warnings[i].target == sources::opt(v.target_node_id)
            &&& r@.warnings[i].detail == v.detail@
        },
{
}

/// What contracts say of an instance is what its fields hold.
pub proof fn facts_are_their_fields(f: InstanceFacts)
    ensures
        f@.process_id == f.process_id@,
        f@.status == f.status@,
        f@.waiting_nodes == text::texts(f.waiting_nodes@),
        f@.completed_nodes == text::texts(f.completed_nodes@),
        f@.start_node == f.start_node@,
        f@.retry_nodes == f.retry_nodes@,
        f@.pending_outbox == f.pending_outbox,
        f@.wait_rows.len() == f.wait_rows@.len(),
        forall|i: int|
            0 <= i < f.wait_rows@.len() ==> (#[trigger] f@.wait_rows[i]) == (
                f.wait_rows@[i].0@,
                f.wait_rows@[i].1,
            ),
{
}

// ---- words -------------------------------------------------------------------------------------

/// A finding about a locus says in its words what the locus is, where it stands and where it would
/// go.
pub proof fn a_finding_says_what_stands_where(
    f: InstanceFactsView,
    plan: MigrationPlanView,
    l: LocusView,
    shape: NodeShapeView,
    previous: Seq<char>,
)
    ensures
        text::begins(
            migrate::folded(previous, l).detail,
            "nodeMapping folds both '"@ + previous + "' and '"@ + l.source
                + "' onto target node '"@ + l.target,
        ),
        text::begins(
            migrate::node_unmapped(l).detail,
            "the instance's "@ + l.kind.label_view() + " at '"@ + l.source + "' maps to '"@
                + l.target,
        ),
        text::begins(
            migrate::node_incompatible(l, shape).detail,
            "the instance's "@ + l.kind.label_view() + " at '"@ + l.source + "' maps to '"@
                + l.target + "', which is a <"@ + shape.construct,
        ),
        text::finishes(migrate::node_incompatible(l, shape).detail, l.kind.requirement_view()),
        text::begins(
            migrate::unnamed(f, plan, l).detail,
            "this is a CROSS-PROCESS migration ('"@ + f.process_id + "' → '"@ + plan.target_process(
                f.process_id,
            ) + "'), so the "@ + l.kind.label_view() + " at '"@ + l.source,
        ),
{
    let a = "nodeMapping folds both '"@ + previous + "' and '"@ + l.source + "' onto target node '"@
        + l.target;
    assert(migrate::folded(previous, l).detail.take(a.len() as int) =~= a);
    let b = "the instance's "@ + l.kind.label_view() + " at '"@ + l.source + "' maps to '"@
        + l.target;
    assert(migrate::node_unmapped(l).detail.take(b.len() as int) =~= b);
    let c = b + "', which is a <"@ + shape.construct;
    let d = migrate::node_incompatible(l, shape).detail;
    assert(d.take(c.len() as int) =~= c);
    assert(d.skip(d.len() - l.kind.requirement_view().len()) =~= l.kind.requirement_view());
    let e = "this is a CROSS-PROCESS migration ('"@ + f.process_id + "' → '"@ + plan.target_process(
        f.process_id,
    ) + "'), so the "@ + l.kind.label_view() + " at '"@ + l.source;
    assert(migrate::unnamed(f, plan, l).detail.take(e.len() as int) =~= e);
}

/// A finding about a mapping entry, a completed node or the frontier names its nodes, in its words
/// and in its fields.
pub proof fn a_finding_names_its_nodes(
    from: Seq<char>,
    to: Seq<char>,
    mapping: Seq<(Seq<char>, Seq<char>)>,
)
    ensures
        migrate::idle(from, to).source == Some(from) && migrate::idle(from, to).target == Some(to),
        text::begins(
            migrate::idle(from, to).detail,
            "nodeMapping names source node '"@ + from + "'"@,
        ),
        migrate::completed_absent(from, to).source == Some(from) && migrate::completed_absent(
            from,
            to,
        ).target == Some(to),
        text::begins(
            migrate::completed_absent(from, to).detail,
            "completed node '"@ + from + "' maps to '"@ + to + "'"@,
        ),
        migrate::unbacked(mapping, from).source == Some(from),
        migrate::unbacked(mapping, from).target == Some(
            match keyed::lookup(mapping, from) {
                Some(t) => t,
                None => from,
            },
        ),
        text::begins(
            migrate::unbacked(mapping, from).detail,
            "the snapshot's wait frontier names '"@ + from + "'"@,
        ),
{
    reveal_strlit("'");
    reveal_strlit(
        "', which this instance neither parks at nor has completed — the entry would do nothing",
    );
    reveal_strlit(
        "', which the target process does not declare; replay-as-done matches by id, so if the target still reaches that node it will be EXECUTED again on the next resume",
    );
    reveal_strlit(
        "' but no waiting_event row backs it; the locus is migrated and validated as a message wait",
    );
    let a = "nodeMapping names source node '"@ + from + "'"@;
    assert(migrate::idle(from, to).detail.take(a.len() as int) =~= a);
    let b = "completed node '"@ + from + "' maps to '"@ + to + "'"@;
    assert(migrate::completed_absent(from, to).detail.take(b.len() as int) =~= b);
    let c = "the snapshot's wait frontier names '"@ + from + "'"@;
    assert(migrate::unbacked(mapping, from).detail.take(c.len() as int) =~= c);
}

/// What a locus needs of its target is said in words of its own kind.
pub proof fn a_kind_says_what_it_needs()
    ensures
        LocusKind::MessageWait.requirement_view()
            == "a relay-resumable wait construct (userTask, intermediate message catch event, or a channel-call serviceTask)"@,
        LocusKind::TimerWait.requirement_view()
            == "a timer-capable construct (timer catch event, timer boundary event, or a <q:timeout>-synthesized #timeout boundary)"@,
        LocusKind::RetryPark.requirement_view()
            == "a serviceTask carrying a <q:retry> policy (the park re-drives it)"@,
        LocusKind::ContinueReplyPark.requirement_view()
            == "a node carrying <q:reply continue=\"true\"> (the park self-resumes its tail)"@,
        LocusKind::RoutedStart.requirement_view() == "a start event"@,
        LocusKind::RetryBudget.requirement_view()
            == "a node carrying a <q:retry> policy (it owns a burned attempt budget)"@,
{
}

} // verus!
