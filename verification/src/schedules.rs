//! Timer-start schedules: which a deployment arms when it becomes active, and which are resolved
//! because their deployment no longer is.

use vstd::prelude::*;

use crate::text;
use crate::transports::{Namespace, NamespaceView};

verus! {

/// A start event with a timer.
pub struct TimerStart {
    pub process_id: String,
    pub node_id: String,
    pub kind: String,
    pub spec: String,
    /// How often it fires in all, where that is limited.
    pub total_fires: Option<u32>,
    /// When it is first due, in nanoseconds since the epoch, or why it cannot be scheduled.
    pub first_due: Result<i128, String>,
}

/// A schedule to arm.
pub struct TimerScheduleArming {
    pub process_id: String,
    pub node_id: String,
    pub tenant: String,
    pub module_key: String,
    pub kind: String,
    pub spec: String,
    pub next_due_at: i128,
    pub remaining_fires: Option<i32>,
}

/// The contents of a [`TimerScheduleArming`].
pub struct ArmingView {
    pub process_id: Seq<char>,
    pub node_id: Seq<char>,
    pub tenant: Seq<char>,
    pub module_key: Seq<char>,
    pub kind: Seq<char>,
    pub spec: Seq<char>,
    pub next_due_at: i128,
    pub remaining_fires: Option<i32>,
}

impl View for TimerScheduleArming {
    type V = ArmingView;

    open spec fn view(&self) -> ArmingView {
        ArmingView {
            process_id: self.process_id@,
            node_id: self.node_id@,
            tenant: self.tenant@,
            module_key: self.module_key@,
            kind: self.kind@,
            spec: self.spec@,
            next_due_at: self.next_due_at,
            remaining_fires: self.remaining_fires,
        }
    }
}

/// What a row of schedules holds.
pub open spec fn armings(v: Seq<TimerScheduleArming>) -> Seq<ArmingView> {
    v.map_values(|a: TimerScheduleArming| a@)
}

/// Whether `a` comes before `b`: by process, then by node.
pub open spec fn earlier(a: ArmingView, b: ArmingView) -> bool {
    text::before(a.process_id, b.process_id) || (a.process_id == b.process_id && text::before(
        a.node_id,
        b.node_id,
    ))
}

/// Whether `a` and `b` schedule the same node.
pub open spec fn same_node(a: ArmingView, b: ArmingView) -> bool {
    a.process_id == b.process_id && a.node_id == b.node_id
}

/// `s` with `x` at its place, unless its node is scheduled already.
pub open spec fn placed(s: Seq<ArmingView>, x: ArmingView) -> Seq<ArmingView>
    decreases s.len(),
{
    if s.len() == 0 || earlier(x, s[0]) {
        seq![x] + s
    } else if same_node(x, s[0]) {
        s
    } else {
        seq![s[0]] + placed(s.drop_first(), x)
    }
}

/// The count of fires as it is stored.
pub open spec fn stored_fires(n: Option<u32>) -> Option<i32> {
    match n {
        Some(n) => Some(n as i32),
        None => None,
    }
}

/// The schedule of a timer that is due at some time.
pub open spec fn arming(t: TimerStart, ns: NamespaceView) -> ArmingView {
    ArmingView {
        process_id: t.process_id@,
        node_id: t.node_id@,
        tenant: ns.tenant,
        module_key: ns.module_key(),
        kind: t.kind@,
        spec: t.spec@,
        next_due_at: t.first_due->Ok_0,
        remaining_fires: stored_fires(t.total_fires),
    }
}

/// The schedules of a deployment in their order, one for each node. A timer that cannot be
/// scheduled is left out.
pub open spec fn scheduled(timers: Seq<TimerStart>, ns: NamespaceView) -> Seq<ArmingView>
    decreases timers.len(),
{
    if timers.len() == 0 {
        Seq::empty()
    } else {
        let rest = scheduled(timers.drop_last(), ns);
        if timers.last().first_due is Ok {
            placed(rest, arming(timers.last(), ns))
        } else {
            rest
        }
    }
}

/// Whether schedules stand in their order, no node twice.
pub open spec fn in_order(s: Seq<ArmingView>) -> bool {
    forall|i: int, j: int| 0 <= i < j < s.len() ==> earlier(#[trigger] s[i], #[trigger] s[j])
}

proof fn earlier_is_an_order(a: ArmingView, b: ArmingView, c: ArmingView)
    ensures
        !earlier(a, a),
        earlier(a, b) ==> !earlier(b, a) && !same_node(a, b),
        earlier(a, b) || earlier(b, a) || same_node(a, b),
        earlier(a, b) && earlier(b, c) ==> earlier(a, c),
        same_node(a, b) && earlier(b, c) ==> earlier(a, c),
{
    text::before_irreflexive(a.process_id);
    text::before_irreflexive(a.node_id);
    text::before_irreflexive(b.process_id);
    text::before_irreflexive(b.node_id);
    text::before_total(a.process_id, b.process_id);
    text::before_total(a.node_id, b.node_id);
    if text::before(a.process_id, b.process_id) && text::before(b.process_id, a.process_id) {
        text::before_transitive(a.process_id, b.process_id, a.process_id);
    }
    if text::before(a.node_id, b.node_id) && text::before(b.node_id, a.node_id) {
        text::before_transitive(a.node_id, b.node_id, a.node_id);
    }
    if text::before(a.process_id, b.process_id) && text::before(b.process_id, c.process_id) {
        text::before_transitive(a.process_id, b.process_id, c.process_id);
    }
    if text::before(a.node_id, b.node_id) && text::before(b.node_id, c.node_id) {
        text::before_transitive(a.node_id, b.node_id, c.node_id);
    }
}

proof fn placed_members(s: Seq<ArmingView>, x: ArmingView)
    ensures
        forall|i: int| 0 <= i < placed(s, x).len() ==> (#[trigger] placed(s, x)[i]) == x || s.contains(
            placed(s, x)[i],
        ),
    decreases s.len(),
{
    let n = placed(s, x);
    assert forall|i: int| 0 <= i < n.len() implies (#[trigger] n[i]) == x || s.contains(n[i]) by {
        if s.len() == 0 || earlier(x, s[0]) {
            if i > 0 {
                assert(s[i - 1] == n[i]);
            }
        } else if same_node(x, s[0]) {
            assert(s[i] == n[i]);
        } else {
            let rest = s.drop_first();
            placed_members(rest, x);
            if i == 0 {
                assert(s[0] == n[0]);
            } else {
                assert(placed(rest, x)[i - 1] == n[i]);
                if n[i] != x {
                    let k = choose|k: int| 0 <= k < rest.len() && rest[k] == n[i];
                    assert(s[k + 1] == n[i]);
                }
            }
        }
    }
}

proof fn placed_in_order(s: Seq<ArmingView>, x: ArmingView)
    requires
        in_order(s),
    ensures
        in_order(placed(s, x)),
    decreases s.len(),
{
    let n = placed(s, x);
    if s.len() == 0 {
    } else if earlier(x, s[0]) {
        assert forall|i: int, j: int| 0 <= i < j < n.len() implies earlier(
            #[trigger] n[i],
            #[trigger] n[j],
        ) by {
            assert(n[j] == s[j - 1]);
            if i == 0 {
                if j > 1 {
                    assert(earlier(s[0], s[j - 1]));
                    earlier_is_an_order(x, s[0], s[j - 1]);
                }
            } else {
                assert(n[i] == s[i - 1]);
            }
        }
    } else if same_node(x, s[0]) {
    } else {
        let rest = s.drop_first();
        let r = placed(rest, x);
        assert forall|i: int, j: int| 0 <= i < j < rest.len() implies earlier(
            #[trigger] rest[i],
            #[trigger] rest[j],
        ) by {
            assert(rest[i] == s[i + 1] && rest[j] == s[j + 1]);
        }
        placed_in_order(rest, x);
        placed_members(rest, x);
        earlier_is_an_order(s[0], x, x);
        assert forall|i: int, j: int| 0 <= i < j < n.len() implies earlier(
            #[trigger] n[i],
            #[trigger] n[j],
        ) by {
            assert(n[j] == r[j - 1]);
            if i > 0 {
                assert(n[i] == r[i - 1]);
            } else if r[j - 1] != x {
                let k = choose|k: int| 0 <= k < rest.len() && rest[k] == r[j - 1];
                assert(s[k + 1] == rest[k]);
                assert(earlier(s[0], s[k + 1]));
            }
        }
    }
}

/// The schedules of a deployment stand in one order on every replica, and no node has two.
pub proof fn schedules_stand_in_order(timers: Seq<TimerStart>, ns: NamespaceView)
    ensures
        in_order(scheduled(timers, ns)),
    decreases timers.len(),
{
    if timers.len() > 0 {
        schedules_stand_in_order(timers.drop_last(), ns);
        if timers.last().first_due is Ok {
            placed_in_order(scheduled(timers.drop_last(), ns), arming(timers.last(), ns));
        }
    }
}

fn is_earlier(a: &TimerScheduleArming, b: &TimerScheduleArming) -> (r: bool)
    ensures
        r == earlier(a@, b@),
{
    text::is_before(&a.process_id, &b.process_id) || (text::same(&a.process_id, &b.process_id)
        && text::is_before(&a.node_id, &b.node_id))
}

fn place(out: &mut Vec<TimerScheduleArming>, x: TimerScheduleArming)
    ensures
        armings(final(out)@) == placed(armings(old(out)@), x@),
{
    let ghost s = armings(out@);
    let mut i: usize = 0;
    assert(s.skip(0) =~= s);
    assert(s.take(0) + placed(s.skip(0), x@) =~= placed(s, x@));
    while i < out.len() && is_earlier(&out[i], &x)
        invariant
            i <= out.len(),
            s == armings(out@),
            placed(s, x@) == s.take(i as int) + placed(s.skip(i as int), x@),
        decreases out.len() - i,
    {
        proof {
            let rest = s.skip(i as int);
            assert(rest[0] == s[i as int]);
            earlier_is_an_order(rest[0], x@, x@);
            assert(rest.drop_first() =~= s.skip(i + 1));
            assert(s.take(i as int) + (seq![rest[0]] + placed(rest.drop_first(), x@)) =~= s.take(
                i + 1,
            ) + placed(s.skip(i + 1), x@));
        }
        i = i + 1;
    }
    let ghost rest = s.skip(i as int);
    proof {
        if i < out.len() {
            assert(rest[0] == s[i as int]);
            earlier_is_an_order(rest[0], x@, x@);
            earlier_is_an_order(x@, rest[0], x@);
        }
    }
    if i < out.len() && text::same(&out[i].process_id, &x.process_id) && text::same(
        &out[i].node_id,
        &x.node_id,
    ) {
        assert(s.take(i as int) + rest =~= s);
    } else {
        let ghost v = x@;
        out.insert(i, x);
        assert(armings(out@) =~= s.take(i as int) + (seq![v] + rest));
    }
}

/// The schedules that a deployment arms when it becomes active, from the timers of its start
/// events.
pub fn timer_schedules(timers: &Vec<TimerStart>, ns: &Namespace) -> (r: Vec<TimerScheduleArming>)
    ensures
        armings(r@) == scheduled(timers@, ns@),
{
    let module_key = ns.module_key();
    let mut out: Vec<TimerScheduleArming> = Vec::new();
    let mut i: usize = 0;
    assert(armings(out@) =~= scheduled(timers@.take(0), ns@));
    while i < timers.len()
        invariant
            i <= timers.len(),
            module_key@ == ns@.module_key(),
            armings(out@) == scheduled(timers@.take(i as int), ns@),
        decreases timers.len() - i,
    {
        let t = &timers[i];
        let ghost next = timers@.take(i + 1);
        assert(next.drop_last() =~= timers@.take(i as int));
        assert(next.last() == *t);
        match &t.first_due {
            Ok(due) => {
                let x = TimerScheduleArming {
                    process_id: t.process_id.clone(),
                    node_id: t.node_id.clone(),
                    tenant: ns.tenant.clone(),
                    module_key: module_key.clone(),
                    kind: t.kind.clone(),
                    spec: t.spec.clone(),
                    next_due_at: *due,
                    remaining_fires: match t.total_fires {
                        Some(n) => Some(
                            #[verifier::truncate]
                            (n as i32),
                        ),
                        None => None,
                    },
                };
                assert(x@ == arming(*t, ns@));
                place(&mut out, x);
            },
            Err(_) => {},
        }
        i = i + 1;
    }
    assert(timers@.take(timers.len() as int) =~= timers@);
    out
}

// ---- obsolete schedules ------------------------------------------------------------------------

/// The deployments whose schedules are resolved at a flip: those that served a moment ago or are
/// draining, and are not active now; each once, in that order.
pub open spec fn obsolete(
    served: Seq<Seq<char>>,
    draining: Seq<Seq<char>>,
    active: Seq<Seq<char>>,
) -> Seq<Seq<char>> {
    text::firsts(text::minus(served + draining, active))
}

/// Schedules follow the active deployments: what is resolved at a flip is never active, and nothing
/// that served or drains keeps its schedules unless it is.
pub proof fn schedules_follow_the_active(
    served: Seq<Seq<char>>,
    draining: Seq<Seq<char>>,
    active: Seq<Seq<char>>,
    id: Seq<char>,
)
    ensures
        obsolete(served, draining, active).contains(id) <==> (served.contains(id)
            || draining.contains(id)) && !active.contains(id),
{
    let all = served + draining;
    text::firsts_hold_the_same(text::minus(all, active));
    text::minus_contains(all, active, id);
    if served.contains(id) {
        let i = choose|i: int| 0 <= i < served.len() && served[i] == id;
        assert(all[i] == id);
    }
    if draining.contains(id) {
        let i = choose|i: int| 0 <= i < draining.len() && draining[i] == id;
        assert(all[served.len() + i] == id);
    }
    if all.contains(id) {
        let i = choose|i: int| 0 <= i < all.len() && all[i] == id;
        if i < served.len() {
            assert(served[i] == id);
        } else {
            assert(draining[i - served.len()] == id);
        }
    }
}

/// The deployments whose schedules a flip resolves.
pub fn obsolete_schedules(
    served: &Vec<String>,
    draining: &Vec<String>,
    active: &Vec<String>,
) -> (r: Vec<String>)
    ensures
        text::texts(r@) == obsolete(
            text::texts(served@),
            text::texts(draining@),
            text::texts(active@),
        ),
{
    let mut all = text::copy_texts(served);
    let mut i: usize = 0;
    let ghost s = text::texts(served@);
    let ghost d = text::texts(draining@);
    assert(s + d.take(0) =~= s);
    while i < draining.len()
        invariant
            i <= draining.len(),
            d == text::texts(draining@),
            text::texts(all@) == s + d.take(i as int),
        decreases draining.len() - i,
    {
        let ghost prior = text::texts(all@);
        all.push(draining[i].clone());
        assert(text::texts(all@) =~= prior.push(d[i as int]));
        assert(s + d.take(i + 1) =~= (s + d.take(i as int)).push(d[i as int]));
        i = i + 1;
    }
    assert(d.take(draining.len() as int) =~= d);
    text::without_repeats(&text::difference(&all, active))
}

} // verus!
