//! What a migration report promises as a whole.

use vstd::prelude::*;

use crate::graph::Shapes;
use crate::keyed;
use crate::migrate::{InstanceFactsView, LocusKind, LocusView, MigrationPlanView};
use crate::migrate;
use crate::text;

verus! {

/// Whether some wait row names `id`.
pub open spec fn row_names(f: InstanceFactsView, id: Seq<char>) -> bool {
    exists|i: int| 0 <= i < f.wait_rows.len() && (#[trigger] f.wait_rows[i]).0 == id
}

/// Whether some timer row names `id`, among the first `n`.
pub open spec fn timer_names(f: InstanceFactsView, n: int, id: Seq<char>) -> bool {
    exists|i: int| 0 <= i < n && (#[trigger] f.wait_rows[i]) == (id, true)
}

/// Whether the durable state pins `id`: a wait row, the frontier or a retry counter names it.
pub open spec fn pinned(f: InstanceFactsView, id: Seq<char>) -> bool {
    row_names(f, id) || f.waiting_nodes.contains(id) || f.retry_nodes.contains(id)
}

proof fn row_kinds_hold(f: InstanceFactsView, source: Option<Shapes>, n: int, id: Seq<char>)
    requires
        0 <= n <= f.wait_rows.len(),
    ensures
        keyed::has(migrate::row_kinds(f, source, n), id) == (exists|i: int|
            0 <= i < n && (#[trigger] f.wait_rows[i]).0 == id),
        keyed::lookup(migrate::row_kinds(f, source, n), id) matches Some(k) ==> k
            == migrate::row_kind(f, source, (id, timer_names(f, n, id))),
        keyed::ascending(migrate::row_kinds(f, source, n)),
    decreases n,
{
    if n > 0 {
        let prior = migrate::row_kinds(f, source, n - 1);
        let row = f.wait_rows[n - 1];
        row_kinds_hold(f, source, n - 1, id);
        keyed::lookup_put(prior, row.0, migrate::row_kind(f, source, row), id);
        keyed::put_ascending(prior, row.0, migrate::row_kind(f, source, row));
        if timer_names(f, n - 1, id) {
            let i = choose|i: int| 0 <= i < n - 1 && (#[trigger] f.wait_rows[i]) == (id, true);
            assert(f.wait_rows[i] == (id, true));
            assert(timer_names(f, n, id));
        }
        if row == (id, true) {
            assert(f.wait_rows[n - 1] == (id, true));
            assert(timer_names(f, n, id));
        } else if timer_names(f, n, id) {
            let i = choose|i: int| 0 <= i < n && (#[trigger] f.wait_rows[i]) == (id, true);
            assert(i < n - 1);
            assert(timer_names(f, n - 1, id));
        }
    }
}

pub(crate) proof fn frontier_kinds_hold(
    f: InstanceFactsView,
    source: Option<Shapes>,
    n: int,
    id: Seq<char>,
)
    requires
        0 <= n <= f.waiting_nodes.len(),
    ensures
        keyed::has(migrate::frontier_kinds(f, source, n), id) == (row_names(f, id) || exists|i: int|
            0 <= i < n && (#[trigger] f.waiting_nodes[i]) == id),
        row_names(f, id) ==> keyed::lookup(migrate::frontier_kinds(f, source, n), id)
            == keyed::lookup(migrate::row_kinds(f, source, f.wait_rows.len() as int), id),
        !row_names(f, id) && keyed::has(migrate::frontier_kinds(f, source, n), id)
            ==> keyed::lookup(migrate::frontier_kinds(f, source, n), id) == Some(
            LocusKind::MessageWait,
        ),
        keyed::ascending(migrate::frontier_kinds(f, source, n)),
    decreases n,
{
    if n <= 0 {
        row_kinds_hold(f, source, f.wait_rows.len() as int, id);
    } else {
        let prior = migrate::frontier_kinds(f, source, n - 1);
        let w = f.waiting_nodes[n - 1];
        frontier_kinds_hold(f, source, n - 1, id);
        keyed::lookup_put(prior, w, LocusKind::MessageWait, id);
        keyed::put_ascending(prior, w, LocusKind::MessageWait);
    }
}

proof fn budget_kinds_hold(f: InstanceFactsView, source: Option<Shapes>, n: int, id: Seq<char>)
    requires
        0 <= n <= f.retry_nodes.len(),
    ensures
        keyed::has(migrate::budget_kinds(f, source, n), id) == (row_names(f, id)
            || f.waiting_nodes.contains(id) || exists|i: int|
            0 <= i < n && (#[trigger] f.retry_nodes[i]) == id),
        row_names(f, id) ==> keyed::lookup(migrate::budget_kinds(f, source, n), id)
            == keyed::lookup(migrate::row_kinds(f, source, f.wait_rows.len() as int), id),
        !row_names(f, id) && f.waiting_nodes.contains(id) ==> keyed::lookup(
            migrate::budget_kinds(f, source, n),
            id,
        ) == Some(LocusKind::MessageWait),
        !row_names(f, id) && !f.waiting_nodes.contains(id) && keyed::has(
            migrate::budget_kinds(f, source, n),
            id,
        ) ==> keyed::lookup(migrate::budget_kinds(f, source, n), id) == Some(
            LocusKind::RetryBudget,
        ),
        keyed::ascending(migrate::budget_kinds(f, source, n)),
    decreases n,
{
    if n <= 0 {
        frontier_kinds_hold(f, source, f.waiting_nodes.len() as int, id);
    } else {
        let prior = migrate::budget_kinds(f, source, n - 1);
        let w = f.retry_nodes[n - 1];
        budget_kinds_hold(f, source, n - 1, id);
        keyed::lookup_put(prior, w, LocusKind::RetryBudget, id);
        keyed::put_ascending(prior, w, LocusKind::RetryBudget);
    }
}

/// The kind of a pinned node: a wait row decides where one names the node, and a timer row before a
/// message row; else the frontier makes it a message wait; else it is a retry budget.
pub proof fn kind_of_pinned(f: InstanceFactsView, source: Option<Shapes>, id: Seq<char>)
    ensures
        keyed::has(migrate::kinds(f, source), id) == pinned(f, id),
        row_names(f, id) ==> keyed::lookup(migrate::kinds(f, source), id) == Some(
            migrate::row_kind(f, source, (id, timer_names(f, f.wait_rows.len() as int, id))),
        ),
        !row_names(f, id) && f.waiting_nodes.contains(id) ==> keyed::lookup(
            migrate::kinds(f, source),
            id,
        ) == Some(LocusKind::MessageWait),
        !row_names(f, id) && !f.waiting_nodes.contains(id) && f.retry_nodes.contains(id)
            ==> keyed::lookup(migrate::kinds(f, source), id) == Some(LocusKind::RetryBudget),
        keyed::ascending(migrate::kinds(f, source)),
        keyed::lookup(migrate::kinds(f, source), id) != Some(LocusKind::RoutedStart),
{
    budget_kinds_hold(f, source, f.retry_nodes.len() as int, id);
    row_kinds_hold(f, source, f.wait_rows.len() as int, id);
}

proof fn group_members(
    kinds: Seq<(Seq<char>, LocusKind)>,
    kind: LocusKind,
    mapping: Seq<(Seq<char>, Seq<char>)>,
    l: LocusView,
)
    ensures
        migrate::group(kinds, kind, mapping).contains(l) == (l.kind == kind && l.target
            == migrate::mapped(mapping, l.source) && kinds.contains((l.source, kind))),
    decreases kinds.len(),
{
    let g = migrate::group(kinds, kind, mapping);
    if kinds.len() > 0 {
        let rest = kinds.drop_last();
        let prior = migrate::group(rest, kind, mapping);
        group_members(rest, kind, mapping, l);
        let made = LocusView {
            kind,
            source: kinds.last().0,
            target: migrate::mapped(mapping, kinds.last().0),
        };
        if kinds.contains((l.source, kind)) && kinds.last() != (l.source, kind) {
            let i = choose|i: int| 0 <= i < kinds.len() && kinds[i] == (l.source, kind);
            assert(rest[i] == (l.source, kind));
        }
        if rest.contains((l.source, kind)) {
            let i = choose|i: int| 0 <= i < rest.len() && rest[i] == (l.source, kind);
            assert(kinds[i] == (l.source, kind));
        }
        if kinds.last().1 == kind {
            assert(g =~= prior.push(made));
            assert(g[prior.len() as int] == made);
            if prior.contains(l) {
                let i = choose|i: int| 0 <= i < prior.len() && prior[i] == l;
                assert(g[i] == l);
            }
            if g.contains(l) && l != made {
                let i = choose|i: int| 0 <= i < g.len() && g[i] == l;
                assert(prior[i] == l);
            }
            assert(kinds[kinds.len() - 1] == (made.source, kind));
        }
    }
}

proof fn contains_concat<A>(a: Seq<A>, b: Seq<A>, x: A)
    ensures
        (a + b).contains(x) == (a.contains(x) || b.contains(x)),
{
    let s = a + b;
    if a.contains(x) {
        let i = choose|i: int| 0 <= i < a.len() && a[i] == x;
        assert(s[i] == x);
    }
    if b.contains(x) {
        let i = choose|i: int| 0 <= i < b.len() && b[i] == x;
        assert(s[a.len() + i] == x);
    }
    if s.contains(x) {
        let i = choose|i: int| 0 <= i < s.len() && s[i] == x;
        if i < a.len() {
            assert(a[i] == x);
        } else {
            assert(b[i - a.len()] == x);
        }
    }
}

proof fn found_is_contained(kinds: Seq<(Seq<char>, LocusKind)>, id: Seq<char>, kind: LocusKind)
    requires
        keyed::ascending(kinds),
    ensures
        kinds.contains((id, kind)) == (keyed::lookup(kinds, id) == Some(kind)),
{
    if kinds.contains((id, kind)) {
        let i = choose|i: int| 0 <= i < kinds.len() && kinds[i] == (id, kind);
        keyed::lookup_at(kinds, i);
    }
    if keyed::lookup(kinds, id) == Some(kind) {
        let i = keyed::lookup_some(kinds, id);
        assert(kinds[i] == (id, kind));
    }
}

/// The place of a kind in the list of loci.
pub open spec fn rank(kind: LocusKind) -> int {
    match kind {
        LocusKind::MessageWait => 0,
        LocusKind::TimerWait => 1,
        LocusKind::RetryPark => 2,
        LocusKind::ContinueReplyPark => 3,
        LocusKind::RoutedStart => 4,
        LocusKind::RetryBudget => 5,
    }
}

/// Whether loci stand by kind, and within a kind by the ids of their nodes, none of which occurs
/// twice.
pub open spec fn in_order(v: Seq<LocusView>) -> bool {
    forall|i: int, j: int|
        0 <= i < j < v.len() ==> rank((#[trigger] v[i]).kind) < rank((#[trigger] v[j]).kind) || (
        v[i].kind == v[j].kind && text::before(v[i].source, v[j].source))
}

spec fn ranked(v: Seq<LocusView>, low: int, high: int) -> bool {
    in_order(v) && forall|i: int| 0 <= i < v.len() ==> low <= rank((#[trigger] v[i]).kind) <= high
}

proof fn group_in_order(
    kinds: Seq<(Seq<char>, LocusKind)>,
    kind: LocusKind,
    mapping: Seq<(Seq<char>, Seq<char>)>,
)
    requires
        keyed::ascending(kinds),
    ensures
        ranked(migrate::group(kinds, kind, mapping), rank(kind), rank(kind)),
        forall|i: int|
            0 <= i < migrate::group(kinds, kind, mapping).len() ==> kinds.contains(
                ((#[trigger] migrate::group(kinds, kind, mapping)[i]).source, kind),
            ),
    decreases kinds.len(),
{
    if kinds.len() > 0 {
        let rest = kinds.drop_last();
        let prior = migrate::group(rest, kind, mapping);
        let g = migrate::group(kinds, kind, mapping);
        assert forall|i: int, j: int| 0 <= i < j < rest.len() implies text::before(
            (#[trigger] rest[i]).0,
            (#[trigger] rest[j]).0,
        ) by {
            assert(rest[i] == kinds[i] && rest[j] == kinds[j]);
        }
        group_in_order(rest, kind, mapping);
        assert forall|i: int| 0 <= i < prior.len() implies kinds.contains(
            ((#[trigger] prior[i]).source, kind),
        ) && text::before(prior[i].source, kinds.last().0) by {
            let at = choose|at: int| 0 <= at < rest.len() && rest[at] == (prior[i].source, kind);
            assert(kinds[at] == (prior[i].source, kind));
            assert(text::before(kinds[at].0, kinds[kinds.len() - 1].0));
        }
        if kinds.last().1 == kind {
            assert(kinds[kinds.len() - 1] == (kinds.last().0, kind));
            assert forall|i: int, j: int| 0 <= i < j < g.len() implies rank((#[trigger] g[i]).kind)
                < rank((#[trigger] g[j]).kind) || (g[i].kind == g[j].kind && text::before(
                g[i].source,
                g[j].source,
            )) by {
                assert(g[i] == prior[i]);
                if j < prior.len() {
                    assert(g[j] == prior[j]);
                }
            }
            assert forall|i: int| 0 <= i < g.len() implies kinds.contains(
                ((#[trigger] g[i]).source, kind),
            ) && rank(g[i].kind) == rank(kind) by {
                if i < prior.len() {
                    assert(g[i] == prior[i]);
                }
            }
        }
    }
}

proof fn ranked_concat(a: Seq<LocusView>, b: Seq<LocusView>, low: int, mid: int, high: int)
    requires
        ranked(a, low, mid),
        ranked(b, mid + 1, high),
        low <= mid < high,
    ensures
        ranked(a + b, low, high),
{
    let s = a + b;
    assert forall|i: int, j: int| 0 <= i < j < s.len() implies rank((#[trigger] s[i]).kind) < rank(
        (#[trigger] s[j]).kind,
    ) || (s[i].kind == s[j].kind && text::before(s[i].source, s[j].source)) by {
        if j < a.len() {
            assert(s[i] == a[i] && s[j] == a[j]);
        } else if i < a.len() {
            assert(s[i] == a[i] && s[j] == b[j - a.len()]);
        } else {
            assert(s[i] == b[i - a.len()] && s[j] == b[j - a.len()]);
        }
    }
    assert forall|i: int| 0 <= i < s.len() implies low <= rank((#[trigger] s[i]).kind) <= high by {
        if i < a.len() {
            assert(s[i] == a[i]);
        } else {
            assert(s[i] == b[i - a.len()]);
        }
    }
}

/// The loci stand by kind, and within a kind by the ids of their nodes; no pinned node is listed
/// twice, though the routed start may be one of them.
pub proof fn each_pinned_node_is_listed_once(
    f: InstanceFactsView,
    source: Option<Shapes>,
    mapping: Seq<(Seq<char>, Seq<char>)>,
)
    ensures
        in_order(migrate::loci(f, source, mapping)),
        forall|i: int, j: int|
            0 <= i < j < migrate::loci(f, source, mapping).len() && (#[trigger] migrate::loci(
                f,
                source,
                mapping,
            )[i]).kind != LocusKind::RoutedStart && (#[trigger] migrate::loci(
                f,
                source,
                mapping,
            )[j]).kind != LocusKind::RoutedStart ==> migrate::loci(f, source, mapping)[i].source
                != migrate::loci(f, source, mapping)[j].source,
{
    let k = migrate::kinds(f, source);
    let all = migrate::loci(f, source, mapping);
    kind_of_pinned(f, source, Seq::empty());
    let a = migrate::group(k, LocusKind::MessageWait, mapping);
    let b = migrate::group(k, LocusKind::TimerWait, mapping);
    let c = migrate::group(k, LocusKind::RetryPark, mapping);
    let d = migrate::group(k, LocusKind::ContinueReplyPark, mapping);
    let s = migrate::start_locus(f, mapping);
    let e = migrate::group(k, LocusKind::RetryBudget, mapping);
    group_in_order(k, LocusKind::MessageWait, mapping);
    group_in_order(k, LocusKind::TimerWait, mapping);
    group_in_order(k, LocusKind::RetryPark, mapping);
    group_in_order(k, LocusKind::ContinueReplyPark, mapping);
    group_in_order(k, LocusKind::RetryBudget, mapping);
    ranked_concat(a, b, 0, 0, 1);
    ranked_concat(a + b, c, 0, 1, 2);
    ranked_concat(a + b + c, d, 0, 2, 3);
    assert(ranked(s, 4, 4));
    ranked_concat(a + b + c + d, s, 0, 3, 4);
    ranked_concat(a + b + c + d + s, e, 0, 4, 5);
    assert forall|i: int, j: int|
        0 <= i < j < all.len() && (#[trigger] all[i]).kind != LocusKind::RoutedStart && (
        #[trigger] all[j]).kind != LocusKind::RoutedStart implies all[i].source
        != all[j].source by {
        assert(all.contains(all[i]) && all.contains(all[j]));
        loci_are_the_pinned_nodes(f, source, mapping, all[i]);
        loci_are_the_pinned_nodes(f, source, mapping, all[j]);
        text::before_irreflexive(all[i].source);
    }
}

/// The list of loci is complete and nothing else: a pinned node is listed with its kind and the node
/// it maps to, the routed start is listed where there is one, and every listed locus is one of
/// these. That none is listed twice is [`each_pinned_node_is_listed_once`].
pub proof fn loci_are_the_pinned_nodes(
    f: InstanceFactsView,
    source: Option<Shapes>,
    mapping: Seq<(Seq<char>, Seq<char>)>,
    l: LocusView,
)
    ensures
        migrate::loci(f, source, mapping).contains(l) <==> l.target == migrate::mapped(
            mapping,
            l.source,
        ) && (if l.kind == LocusKind::RoutedStart {
            f.start_node.len() > 0 && l.source == f.start_node
        } else {
            keyed::lookup(migrate::kinds(f, source), l.source) == Some(l.kind)
        }),
{
    let k = migrate::kinds(f, source);
    kind_of_pinned(f, source, l.source);
    found_is_contained(k, l.source, l.kind);
    let a = migrate::group(k, LocusKind::MessageWait, mapping);
    let b = migrate::group(k, LocusKind::TimerWait, mapping);
    let c = migrate::group(k, LocusKind::RetryPark, mapping);
    let d = migrate::group(k, LocusKind::ContinueReplyPark, mapping);
    let s = migrate::start_locus(f, mapping);
    let e = migrate::group(k, LocusKind::RetryBudget, mapping);
    group_members(k, LocusKind::MessageWait, mapping, l);
    group_members(k, LocusKind::TimerWait, mapping, l);
    group_members(k, LocusKind::RetryPark, mapping, l);
    group_members(k, LocusKind::ContinueReplyPark, mapping, l);
    group_members(k, LocusKind::RetryBudget, mapping, l);
    contains_concat(a, b, l);
    contains_concat(a + b, c, l);
    contains_concat(a + b + c, d, l);
    contains_concat(a + b + c + d, s, l);
    contains_concat(a + b + c + d + s, e, l);
    if f.start_node.len() > 0 {
        assert(s[0].source == f.start_node);
        if s.contains(l) {
            assert(l == s[0]);
        }
    }
}

/// Nothing that the durable state pins is dropped: every node of a wait row, of the frontier or of
/// a retry counter has a locus.
pub proof fn every_pinned_node_has_a_locus(
    f: InstanceFactsView,
    source: Option<Shapes>,
    mapping: Seq<(Seq<char>, Seq<char>)>,
    id: Seq<char>,
)
    requires
        pinned(f, id),
    ensures
        migrate::pins(migrate::loci(f, source, mapping), id),
{
    kind_of_pinned(f, source, id);
    let k = keyed::lookup(migrate::kinds(f, source), id)->0;
    let l = LocusView { kind: k, source: id, target: migrate::mapped(mapping, id) };
    loci_are_the_pinned_nodes(f, source, mapping, l);
    let all = migrate::loci(f, source, mapping);
    let i = choose|i: int| 0 <= i < all.len() && all[i] == l;
    assert(all[i].source == id);
}

// ---- when a report is valid --------------------------------------------------------------------

/// Whether no two tokens among `loci` share a target node.
pub open spec fn tokens_apart(loci: Seq<LocusView>) -> bool {
    forall|i: int, j: int|
        0 <= i < j < loci.len() && migrate::holds_token((#[trigger] loci[i]).kind)
            && migrate::holds_token((#[trigger] loci[j]).kind) ==> loci[i].target != loci[j].target
}

/// What a migratable request looks like.
pub open spec fn migratable(
    f: InstanceFactsView,
    source: Option<Shapes>,
    target: Option<Shapes>,
    plan: MigrationPlanView,
) -> bool {
    let all = migrate::loci(f, source, plan.mapping);
    &&& !migrate::finished(f.status)
    &&& plan.resume ==> f.status == migrate::STATUS_FAILED@
    &&& plan.crosses(f.process_id) ==> forall|i: int|
        0 <= i < all.len() ==> keyed::has(plan.mapping, (#[trigger] all[i]).source)
    &&& forall|i: int|
        0 <= i < plan.mapping.len() ==> migrate::pins(all, (#[trigger] plan.mapping[i]).0)
            || f.completed_nodes.contains(plan.mapping[i].0)
    &&& tokens_apart(all)
    &&& target is Some
    &&& forall|i: int|
        0 <= i < all.len() ==> migrate::landing(#[trigger] all[i], target->0) is Some
}

proof fn no_cross_violation(f: InstanceFactsView, plan: MigrationPlanView, loci: Seq<LocusView>)
    ensures
        (migrate::cross_violations(f, plan, loci).len() == 0) == (plan.crosses(f.process_id) ==> (
        forall|i: int|
            0 <= i < loci.len() ==> keyed::has(plan.mapping, (#[trigger] loci[i]).source))),
    decreases loci.len(),
{
    if loci.len() > 0 && plan.crosses(f.process_id) {
        let rest = loci.drop_last();
        no_cross_violation(f, plan, rest);
        assert forall|i: int| 0 <= i < rest.len() implies rest[i] == loci[i] by {}
        if migrate::cross_violations(f, plan, loci).len() == 0 {
            assert forall|i: int| 0 <= i < loci.len() implies keyed::has(
                plan.mapping,
                (#[trigger] loci[i]).source,
            ) by {
                if i < rest.len() {
                    assert(keyed::has(plan.mapping, rest[i].source));
                }
            }
        } else if forall|i: int|
            0 <= i < loci.len() ==> keyed::has(plan.mapping, (#[trigger] loci[i]).source) {
            assert(keyed::has(plan.mapping, loci[loci.len() - 1].source));
            assert forall|i: int| 0 <= i < rest.len() implies keyed::has(
                plan.mapping,
                (#[trigger] rest[i]).source,
            ) by {
                assert(keyed::has(plan.mapping, loci[i].source));
            }
        }
    }
}

proof fn no_mapping_violation(
    f: InstanceFactsView,
    loci: Seq<LocusView>,
    mapping: Seq<(Seq<char>, Seq<char>)>,
)
    ensures
        (migrate::mapping_violations(f, loci, mapping).len() == 0) == (forall|i: int|
            0 <= i < mapping.len() ==> migrate::pins(loci, (#[trigger] mapping[i]).0)
                || f.completed_nodes.contains(mapping[i].0)),
    decreases mapping.len(),
{
    if mapping.len() > 0 {
        let rest = mapping.drop_last();
        no_mapping_violation(f, loci, rest);
        if migrate::mapping_violations(f, loci, mapping).len() == 0 {
            assert forall|i: int| 0 <= i < mapping.len() implies migrate::pins(
                loci,
                (#[trigger] mapping[i]).0,
            ) || f.completed_nodes.contains(mapping[i].0) by {
                if i < rest.len() {
                    assert(rest[i] == mapping[i]);
                }
            }
        } else if forall|i: int|
            0 <= i < mapping.len() ==> migrate::pins(loci, (#[trigger] mapping[i]).0)
                || f.completed_nodes.contains(mapping[i].0) {
            assert(mapping[mapping.len() - 1] == mapping.last());
            assert forall|i: int| 0 <= i < rest.len() implies migrate::pins(
                loci,
                (#[trigger] rest[i]).0,
            ) || f.completed_nodes.contains(rest[i].0) by {
                assert(rest[i] == mapping[i]);
            }
        }
    }
}

proof fn last_onto_means(loci: Seq<LocusView>, target: Seq<char>)
    ensures
        (migrate::last_onto(loci, target) is None) == (forall|i: int|
            0 <= i < loci.len() && migrate::holds_token((#[trigger] loci[i]).kind)
                ==> loci[i].target != target),
    decreases loci.len(),
{
    if loci.len() > 0 {
        let rest = loci.drop_last();
        last_onto_means(rest, target);
        assert(loci[loci.len() - 1] == loci.last());
        assert forall|i: int| 0 <= i < rest.len() implies rest[i] == loci[i] by {}
        if migrate::last_onto(loci, target) is None {
            assert forall|i: int|
                0 <= i < loci.len() && migrate::holds_token(
                    (#[trigger] loci[i]).kind,
                ) implies loci[i].target != target by {
                if i < rest.len() {
                    assert(rest[i] == loci[i]);
                }
            }
        } else if forall|i: int|
            0 <= i < loci.len() && migrate::holds_token((#[trigger] loci[i]).kind)
                ==> loci[i].target != target {
            assert forall|i: int|
                0 <= i < rest.len() && migrate::holds_token(
                    (#[trigger] rest[i]).kind,
                ) implies rest[i].target != target by {
                assert(loci[i] == rest[i]);
            }
        }
    }
}

proof fn no_fold_violation(loci: Seq<LocusView>)
    ensures
        (migrate::fold_violations(loci).len() == 0) == tokens_apart(loci),
    decreases loci.len(),
{
    if loci.len() > 0 {
        let rest = loci.drop_last();
        let last = loci.last();
        no_fold_violation(rest);
        last_onto_means(rest, last.target);
        assert(loci[loci.len() - 1] == last);
        assert forall|i: int| 0 <= i < rest.len() implies rest[i] == loci[i] by {}
        if migrate::fold_violations(loci).len() == 0 {
            assert forall|i: int, j: int|
                0 <= i < j < loci.len() && migrate::holds_token((#[trigger] loci[i]).kind)
                    && migrate::holds_token((#[trigger] loci[j]).kind) implies loci[i].target
                != loci[j].target by {
                assert(rest[i] == loci[i]);
                if j < rest.len() {
                    assert(rest[j] == loci[j]);
                }
            }
        } else if tokens_apart(loci) {
            assert forall|i: int, j: int|
                0 <= i < j < rest.len() && migrate::holds_token((#[trigger] rest[i]).kind)
                    && migrate::holds_token((#[trigger] rest[j]).kind) implies rest[i].target
                != rest[j].target by {
                assert(loci[i] == rest[i] && loci[j] == rest[j]);
            }
            if migrate::holds_token(last.kind) {
                assert forall|i: int|
                    0 <= i < rest.len() && migrate::holds_token(
                        (#[trigger] rest[i]).kind,
                    ) implies rest[i].target != last.target by {
                    assert(loci[i] == rest[i]);
                }
            }
        }
    }
}

proof fn no_landing_violation(loci: Seq<LocusView>, target: Shapes)
    ensures
        (migrate::landing_violations(loci, target).len() == 0) == (forall|i: int|
            0 <= i < loci.len() ==> migrate::landing(#[trigger] loci[i], target) is Some),
    decreases loci.len(),
{
    if loci.len() > 0 {
        let rest = loci.drop_last();
        no_landing_violation(rest, target);
        assert(loci[loci.len() - 1] == loci.last());
        if migrate::landing_violations(loci, target).len() == 0 {
            assert forall|i: int| 0 <= i < loci.len() implies migrate::landing(
                #[trigger] loci[i],
                target,
            ) is Some by {
                if i < rest.len() {
                    assert(rest[i] == loci[i]);
                }
            }
        } else if forall|i: int|
            0 <= i < loci.len() ==> migrate::landing(#[trigger] loci[i], target) is Some {
            assert forall|i: int| 0 <= i < rest.len() implies migrate::landing(
                #[trigger] rest[i],
                target,
            ) is Some by {
                assert(rest[i] == loci[i]);
            }
        }
    }
}

/// A report is valid exactly where the instance is live, a resume is asked only of a failed one, a
/// cross-process mapping names every locus, every mapping entry names a locus or a completed node,
/// no two tokens meet on one node, the target declares the process, and every locus lands on a node
/// that can host it.
pub proof fn valid_means_migratable(
    f: InstanceFactsView,
    source: Option<Shapes>,
    target: Option<Shapes>,
    target_process_ids: Seq<Seq<char>>,
    plan: MigrationPlanView,
)
    ensures
        (migrate::report(f, source, target, target_process_ids, plan).violations.len() == 0)
            == migratable(f, source, target, plan),
{
    let all = migrate::loci(f, source, plan.mapping);
    no_cross_violation(f, plan, all);
    no_mapping_violation(f, all, plan.mapping);
    no_fold_violation(all);
    if target is Some {
        no_landing_violation(all, target->0);
    }
}

// ---- the effective mapping ---------------------------------------------------------------------

proof fn overlaid_found(
    entries: Seq<(Seq<char>, Seq<char>)>,
    out: Seq<(Seq<char>, Seq<char>)>,
    id: Seq<char>,
)
    requires
        keyed::ascending(entries),
    ensures
        keyed::lookup(migrate::overlaid(entries, out), id) == match keyed::lookup(entries, id) {
            Some(to) => Some(to),
            None => keyed::lookup(out, id),
        },
    decreases entries.len(),
{
    if entries.len() > 0 {
        let rest = entries.drop_last();
        let last = entries.last();
        assert(keyed::ascending(rest)) by {
            assert forall|i: int, j: int| 0 <= i < j < rest.len() implies crate::text::before(
                (#[trigger] rest[i]).0,
                (#[trigger] rest[j]).0,
            ) by {
                assert(rest[i] == entries[i] && rest[j] == entries[j]);
            }
        }
        overlaid_found(rest, out, id);
        keyed::lookup_put(migrate::overlaid(rest, out), last.0, last.1, id);
        if id == last.0 {
            keyed::lookup_at(entries, entries.len() - 1);
        } else {
            if keyed::has(entries, id) {
                let i = keyed::lookup_some(entries, id);
                assert(rest[i] == entries[i]);
                keyed::lookup_at(rest, i);
            }
            if keyed::has(rest, id) {
                let i = keyed::lookup_some(rest, id);
                assert(rest[i] == entries[i]);
                keyed::lookup_at(entries, i);
            }
        }
    }
}

proof fn identity_found(
    nodes: Seq<Seq<char>>,
    out: Seq<(Seq<char>, Seq<char>)>,
    id: Seq<char>,
)
    ensures
        keyed::lookup(migrate::identity_entries(nodes, out), id) == if keyed::has(out, id) {
            keyed::lookup(out, id)
        } else if nodes.contains(id) {
            Some(id)
        } else {
            None
        },
    decreases nodes.len(),
{
    if nodes.len() > 0 {
        let rest = nodes.drop_last();
        let prior = migrate::identity_entries(rest, out);
        identity_found(rest, out, id);
        keyed::lookup_put(prior, nodes.last(), nodes.last(), id);
        assert(nodes[nodes.len() - 1] == nodes.last());
        if nodes.contains(id) && id != nodes.last() {
            let i = choose|i: int| 0 <= i < nodes.len() && nodes[i] == id;
            assert(rest[i] == id);
        }
        if rest.contains(id) {
            let i = choose|i: int| 0 <= i < rest.len() && rest[i] == id;
            assert(nodes[i] == id);
        }
    }
}

proof fn locus_entry_found(
    loci: Seq<LocusView>,
    mapping: Seq<(Seq<char>, Seq<char>)>,
    id: Seq<char>,
)
    requires
        forall|i: int|
            0 <= i < loci.len() ==> (#[trigger] loci[i]).target == migrate::mapped(
                mapping,
                loci[i].source,
            ),
    ensures
        keyed::lookup(migrate::locus_entries(loci), id) == if migrate::pins(loci, id) {
            Some(migrate::mapped(mapping, id))
        } else {
            None
        },
    decreases loci.len(),
{
    if loci.len() > 0 {
        let rest = loci.drop_last();
        assert forall|i: int| 0 <= i < rest.len() implies (#[trigger] rest[i]).target
            == migrate::mapped(mapping, rest[i].source) by {
            assert(rest[i] == loci[i]);
        }
        locus_entry_found(rest, mapping, id);
        keyed::lookup_put(
            migrate::locus_entries(rest),
            loci.last().source,
            loci.last().target,
            id,
        );
        assert(loci[loci.len() - 1] == loci.last());
        if migrate::pins(loci, id) && id != loci.last().source {
            let i = choose|i: int| 0 <= i < loci.len() && (#[trigger] loci[i]).source == id;
            assert(rest[i].source == id);
        }
        if migrate::pins(rest, id) {
            let i = choose|i: int| 0 <= i < rest.len() && (#[trigger] rest[i]).source == id;
            assert(loci[i].source == id);
        }
    }
}

/// The mapping that is applied sends every node the instance pins or has completed, and every node
/// the caller names, where the explicit mapping sends it or to itself; and it names nothing else.
pub proof fn effective_mapping_is_explicit_else_identity(
    f: InstanceFactsView,
    source: Option<Shapes>,
    plan: MigrationPlanView,
    id: Seq<char>,
)
    requires
        keyed::ascending(plan.mapping),
    ensures
        keyed::lookup(
            migrate::effective(
                migrate::loci(f, source, plan.mapping),
                f.completed_nodes,
                plan.mapping,
            ),
            id,
        ) == if migrate::pins(migrate::loci(f, source, plan.mapping), id)
            || f.completed_nodes.contains(id) || keyed::has(plan.mapping, id) {
            Some(migrate::mapped(plan.mapping, id))
        } else {
            None
        },
{
    let all = migrate::loci(f, source, plan.mapping);
    assert forall|i: int| 0 <= i < all.len() implies (#[trigger] all[i]).target == migrate::mapped(
        plan.mapping,
        all[i].source,
    ) by {
        assert(all.contains(all[i]));
        loci_are_the_pinned_nodes(f, source, plan.mapping, all[i]);
    }
    locus_entry_found(all, plan.mapping, id);
    identity_found(f.completed_nodes, migrate::locus_entries(all), id);
    overlaid_found(
        plan.mapping,
        migrate::identity_entries(f.completed_nodes, migrate::locus_entries(all)),
        id,
    );
}

} // verus!
