//! Ending instances: what the last step of an instance, completed or failed, does to its rows.
//!
//! The rows are changed in one transaction, by effects that are applied in order.

use vstd::prelude::*;

use crate::bridge::{OutboxEmission, OutboxEntry, PersistenceBridge, PersistenceError};
use crate::bridge;
use crate::diag::{Diagnostic, DiagnosticView};
use crate::duration::Duration;
use crate::instances;

verus! {

// ---- rows --------------------------------------------------------------------------------------

/// A wait of an instance.
pub struct WaitRow {
    pub deployment: Seq<char>,
    pub instance: u128,
    pub node: Seq<char>,
    /// Whether it is still waited for.
    pub waiting: bool,
}

/// An alias of an instance.
pub struct AliasRow {
    pub deployment: Seq<char>,
    pub instance: u128,
    pub name: Seq<char>,
    pub value: Seq<char>,
    pub live: bool,
}

/// The rows of instances: their snapshots, their waits and their aliases.
pub struct Rows {
    pub snapshots: Map<(Seq<char>, u128), Seq<u8>>,
    pub waits: Seq<WaitRow>,
    pub aliases: Seq<AliasRow>,
}

/// The waits, with those of an instance resolved.
pub open spec fn resolved(waits: Seq<WaitRow>, deployment: Seq<char>, instance: u128) -> Seq<
    WaitRow,
> {
    waits.map_values(
        |w: WaitRow|
            if w.deployment == deployment && w.instance == instance {
                WaitRow { waiting: false, ..w }
            } else {
                w
            },
    )
}

/// The aliases, with those of an instance retired.
pub open spec fn retired(aliases: Seq<AliasRow>, deployment: Seq<char>, instance: u128) -> Seq<
    AliasRow,
> {
    aliases.map_values(
        |a: AliasRow|
            if a.deployment == deployment && a.instance == instance {
                AliasRow { live: false, ..a }
            } else {
                a
            },
    )
}

/// A change to the rows of one instance.
#[derive(Debug, PartialEq, Eq)]
pub enum RowEffect {
    /// Replace its snapshot by this one, which says that it completed.
    Complete(Vec<u8>),
    /// Replace its snapshot by this one, which says that it failed.
    Fail(Vec<u8>),
    /// Delete its snapshot.
    Delete,
    /// Resolve every wait that is still waited for.
    ResolveWaits,
    /// Retire every live alias.
    RetireAliases,
}

/// The contents of a [`RowEffect`].
pub enum EffectView {
    Complete(Seq<u8>),
    Fail(Seq<u8>),
    Delete,
    ResolveWaits,
    RetireAliases,
}

impl View for RowEffect {
    type V = EffectView;

    open spec fn view(&self) -> EffectView {
        match self {
            RowEffect::Complete(b) => EffectView::Complete(b@),
            RowEffect::Fail(b) => EffectView::Fail(b@),
            RowEffect::Delete => EffectView::Delete,
            RowEffect::ResolveWaits => EffectView::ResolveWaits,
            RowEffect::RetireAliases => EffectView::RetireAliases,
        }
    }
}

/// What a row of effects holds.
pub open spec fn effects(v: Seq<RowEffect>) -> Seq<EffectView> {
    v.map_values(|e: RowEffect| e@)
}

/// The rows after an effect on an instance.
pub open spec fn after(rows: Rows, deployment: Seq<char>, instance: u128, e: EffectView) -> Rows {
    match e {
        EffectView::Complete(b) => Rows {
            snapshots: rows.snapshots.insert((deployment, instance), b),
            ..rows
        },
        EffectView::Fail(b) => Rows {
            snapshots: rows.snapshots.insert((deployment, instance), b),
            ..rows
        },
        EffectView::Delete => Rows {
            snapshots: rows.snapshots.remove((deployment, instance)),
            ..rows
        },
        EffectView::ResolveWaits => Rows {
            waits: resolved(rows.waits, deployment, instance),
            ..rows
        },
        EffectView::RetireAliases => Rows {
            aliases: retired(rows.aliases, deployment, instance),
            ..rows
        },
    }
}

/// The rows after effects on an instance, one after the other.
pub open spec fn after_all(
    rows: Rows,
    deployment: Seq<char>,
    instance: u128,
    v: Seq<EffectView>,
) -> Rows
    decreases v.len(),
{
    if v.len() == 0 {
        rows
    } else {
        after(
            after_all(rows, deployment, instance, v.drop_last()),
            deployment,
            instance,
            v.last(),
        )
    }
}

proof fn two_effects(rows: Rows, deployment: Seq<char>, instance: u128, a: EffectView, b: EffectView)
    ensures
        after_all(rows, deployment, instance, seq![a, b]) == after(
            after(rows, deployment, instance, a),
            deployment,
            instance,
            b,
        ),
{
    let none = Seq::<EffectView>::empty();
    assert(seq![a, b].drop_last() =~= seq![a]);
    assert(seq![a].drop_last() =~= none);
    assert(after_all(rows, deployment, instance, none) == rows);
    assert(after_all(rows, deployment, instance, seq![a]) == after(rows, deployment, instance, a));
}

// ---- completed ---------------------------------------------------------------------------------

/// The last step of an instance that completed.
pub struct TerminalStep<'a> {
    pub deployment: String,
    pub instance: u128,
    /// What it sends, which is committed with its effects.
    pub outbox: Vec<OutboxEntry<'a>>,
    /// Whether the snapshot is kept.
    pub retain: bool,
}

/// Whether the history of an ended instance is to be retained.
pub open spec fn retains(retention: Duration) -> bool {
    retention.total() != 0
}

/// Why the last step of an instance commits nothing.
pub open spec fn terminal_refusal(
    deployment: Result<(), String>,
    instance_id: Seq<char>,
    emissions: Seq<OutboxEmission>,
) -> Option<DiagnosticView> {
    match instances::addressed(deployment, instance_id) {
        Err(d) => Some(d),
        Ok(_) => bridge::unaddressable(emissions),
    }
}

/// What became of restamping a snapshot.
pub open spec fn restamp(r: Option<Result<Vec<u8>, PersistenceError>>) -> Option<Seq<u8>> {
    match r {
        Some(Ok(b)) => Some(b@),
        _ => None,
    }
}

/// The rows once an instance has completed: its snapshot is deleted, or else replaced by the one that
/// says so where there still is one; none of its waits is waited for and none of its aliases lives.
pub open spec fn ended(
    rows: Rows,
    deployment: Seq<char>,
    instance: u128,
    retain: bool,
    restamped: Option<Seq<u8>>,
) -> Rows {
    Rows {
        snapshots: if !retain {
            rows.snapshots.remove((deployment, instance))
        } else {
            match restamped {
                Some(b) => rows.snapshots.insert((deployment, instance), b),
                None => rows.snapshots,
            }
        },
        waits: resolved(rows.waits, deployment, instance),
        aliases: retired(rows.aliases, deployment, instance),
    }
}

/// The effects by which an instance completes.
pub open spec fn completing(retain: bool, restamped: Option<Seq<u8>>) -> Seq<EffectView> {
    let rest = seq![EffectView::ResolveWaits, EffectView::RetireAliases];
    if !retain {
        seq![EffectView::Delete] + rest
    } else {
        match restamped {
            Some(b) => seq![EffectView::Complete(b)] + rest,
            None => rest,
        }
    }
}

proof fn completing_ends(
    rows: Rows,
    deployment: Seq<char>,
    instance: u128,
    retain: bool,
    restamped: Option<Seq<u8>>,
)
    ensures
        after_all(rows, deployment, instance, completing(retain, restamped)) == ended(
            rows,
            deployment,
            instance,
            retain,
            restamped,
        ),
{
    let v = completing(retain, restamped);
    if retain && restamped is None {
        two_effects(rows, deployment, instance, EffectView::ResolveWaits, EffectView::RetireAliases);
    } else {
        assert(v.drop_last() =~= seq![v[0], EffectView::ResolveWaits]);
        two_effects(rows, deployment, instance, v[0], EffectView::ResolveWaits);
        assert(v.last() == EffectView::RetireAliases);
    }
}

impl PersistenceBridge {
    /// The last step of an instance that completed. Its snapshot is kept unless finished instances
    /// are kept for no time at all.
    pub fn commit_complete<'a>(
        &self,
        deployment_id: &str,
        deployment: &Result<(), String>,
        instance_id: &str,
        emissions: &'a Vec<OutboxEmission>,
    ) -> (r: Result<TerminalStep<'a>, Diagnostic>)
        ensures
            match r {
                Ok(s) => {
                    &&& terminal_refusal(*deployment, instance_id@, emissions@) is None
                    &&& s.deployment@ == deployment_id@
                    &&& instances::addressed(*deployment, instance_id@) == Ok::<
                        u128,
                        DiagnosticView,
                    >(s.instance)
                    &&& exists|now: i128| #[trigger]
                        bridge::rows_at(s.outbox@, deployment_id@, emissions@, now)
                    &&& s.retain == (self@.retention.total() != 0)
                    &&& s.retain == retains(self@.retention)
                },
                Err(d) => terminal_refusal(*deployment, instance_id@, emissions@) == Some(d@),
            },
    {
        let instance = match instances::instance_key(deployment, instance_id) {
            Ok(v) => v,
            Err(d) => {
                return Err(d);
            },
        };
        let outbox = match bridge::outbox_entries(deployment_id, emissions) {
            Ok(rows) => rows,
            Err(d) => {
                return Err(d);
            },
        };
        let retain = !self.retention().is_zero();
        let ghost now = choose|now: i128| #[trigger]
            bridge::rows_at(outbox@, deployment_id@, emissions@, now);
        let s = TerminalStep { deployment: deployment_id.to_owned(), instance, outbox, retain };
        assert(bridge::rows_at(s.outbox@, deployment_id@, emissions@, now));
        Ok(s)
    }
}

/// Whether the history of an ended instance was kept.
pub open spec fn kept(retain: bool, present: bool, marked: u64) -> bool {
    retain && present && marked == 1
}

impl<'a> TerminalStep<'a> {
    /// The effects of the step. `restamped` is the locked snapshot restamped as completed, `None`
    /// where there is none any more; it is looked at only where the snapshot is kept.
    pub fn effects(&self, restamped: Option<Result<Vec<u8>, PersistenceError>>) -> (r: Result<
        Vec<RowEffect>,
        Diagnostic,
    >)
        ensures
            match r {
                Ok(v) => {
                    &&& !(self.retain && restamped matches Some(Err(_)))
                    &&& effects(v@) == completing(self.retain, restamp(restamped))
                    &&& forall|rows: Rows| #[trigger]
                        after_all(rows, self.deployment@, self.instance, effects(v@)) == ended(
                            rows,
                            self.deployment@,
                            self.instance,
                            self.retain,
                            restamp(restamped),
                        )
                },
                Err(d) => self.retain && (restamped matches Some(Err(e)) && d@
                    == bridge::step_failure("terminal step failed"@, e)),
            },
    {
        let ghost stamp = restamp(restamped);
        let mut out: Vec<RowEffect> = Vec::new();
        if !self.retain {
            out.push(RowEffect::Delete);
        } else {
            match restamped {
                Some(Ok(b)) => {
                    out.push(RowEffect::Complete(b));
                },
                Some(Err(e)) => {
                    return Err(bridge::persistence_diag("terminal step failed", &e));
                },
                None => {},
            }
        }
        out.push(RowEffect::ResolveWaits);
        out.push(RowEffect::RetireAliases);
        assert(effects(out@) =~= completing(self.retain, stamp));
        proof {
            assert forall|rows: Rows| #[trigger]
                after_all(rows, self.deployment@, self.instance, effects(out@)) == ended(
                    rows,
                    self.deployment@,
                    self.instance,
                    self.retain,
                    stamp,
                ) by {
                completing_ends(rows, self.deployment@, self.instance, self.retain, stamp);
            }
        }
        Ok(out)
    }

    /// Whether the instance is kept, from how many snapshots were replaced.
    pub fn retained(&self, present: bool, marked: u64) -> (r: bool)
        ensures
            r == (self.retain && present && marked == 1),
            r == kept(self.retain, present, marked),
    {
        self.retain && present && marked == 1
    }
}

/// An instance that completed waits for nothing, and no alias leads to it.
pub proof fn an_ended_instance_waits_for_nothing(
    rows: Rows,
    deployment: Seq<char>,
    instance: u128,
    retain: bool,
    restamped: Option<Seq<u8>>,
)
    ensures
        ({
            let end = ended(rows, deployment, instance, retain, restamped);
            &&& forall|i: int|
                0 <= i < end.waits.len() && (#[trigger] end.waits[i]).deployment == deployment
                    && end.waits[i].instance == instance ==> !end.waits[i].waiting
            &&& forall|i: int|
                0 <= i < end.aliases.len() && (#[trigger] end.aliases[i]).deployment == deployment
                    && end.aliases[i].instance == instance ==> !end.aliases[i].live
        }),
{
}

/// The end of an instance changes no row of another one.
pub proof fn an_ending_leaves_other_instances(
    rows: Rows,
    deployment: Seq<char>,
    instance: u128,
    retain: bool,
    restamped: Option<Seq<u8>>,
    other: (Seq<char>, u128),
)
    requires
        other != (deployment, instance),
    ensures
        ({
            let end = ended(rows, deployment, instance, retain, restamped);
            &&& end.snapshots.contains_key(other) == rows.snapshots.contains_key(other)
            &&& rows.snapshots.contains_key(other) ==> end.snapshots[other] == rows.snapshots[other]
            &&& end.waits.len() == rows.waits.len()
            &&& end.aliases.len() == rows.aliases.len()
            &&& forall|i: int|
                0 <= i < rows.waits.len() && (rows.waits[i].deployment, rows.waits[i].instance)
                    == other ==> #[trigger] end.waits[i] == rows.waits[i]
            &&& forall|i: int|
                0 <= i < rows.aliases.len() && (
                    rows.aliases[i].deployment,
                    rows.aliases[i].instance,
                ) == other ==> #[trigger] end.aliases[i] == rows.aliases[i]
        }),
{
}

// ---- failed ------------------------------------------------------------------------------------

/// The last step of an instance that failed.
pub struct FailedStep {
    pub instance: u128,
    pub effects: Vec<RowEffect>,
}

/// The rows once an instance has failed: its snapshot says so, and none of its waits is waited for.
/// Its aliases stay as they are: who asks for the instance learns that it failed.
pub open spec fn failed(
    rows: Rows,
    deployment: Seq<char>,
    instance: u128,
    restamped: Seq<u8>,
) -> Rows {
    Rows {
        snapshots: rows.snapshots.insert((deployment, instance), restamped),
        waits: resolved(rows.waits, deployment, instance),
        aliases: rows.aliases,
    }
}

/// Why the failure of an instance cannot be recorded.
pub open spec fn failing_refusal(
    deployment: Result<(), String>,
    instance_id: Seq<char>,
    row: Result<Option<Result<Vec<u8>, PersistenceError>>, PersistenceError>,
) -> Option<DiagnosticView> {
    match instances::addressed(deployment, instance_id) {
        Err(d) => Some(d),
        Ok(_) => match row {
            Err(e) => Some(bridge::step_failure("failed-state commit failed"@, e)),
            Ok(Some(Err(e))) => Some(bridge::step_failure("failed-state commit failed"@, e)),
            _ => None,
        },
    }
}

impl PersistenceBridge {
    /// The last step of an instance that failed. `row` is its locked snapshot restamped as failed,
    /// none where the instance was cancelled or completed meanwhile, which is no failure.
    pub fn commit_failed(
        &self,
        deployment: &Result<(), String>,
        instance_id: &str,
        row: Result<Option<Result<Vec<u8>, PersistenceError>>, PersistenceError>,
    ) -> (r: Result<Option<FailedStep>, Diagnostic>)
        ensures
            match r {
                Err(d) => failing_refusal(*deployment, instance_id@, row) == Some(d@),
                Ok(step) => {
                    &&& failing_refusal(*deployment, instance_id@, row) is None
                    &&& row matches Ok(found) && match (restamp(found), step) {
                        (None, None) => true,
                        (Some(b), Some(s)) => {
                            &&& instances::addressed(*deployment, instance_id@) == Ok::<
                                u128,
                                DiagnosticView,
                            >(s.instance)
                            &&& effects(s.effects@) == seq![
                                EffectView::Fail(b),
                                EffectView::ResolveWaits,
                            ]
                            &&& forall|rows: Rows, id: Seq<char>| #[trigger]
                                after_all(rows, id, s.instance, effects(s.effects@)) == failed(
                                    rows,
                                    id,
                                    s.instance,
                                    b,
                                )
                        },
                        _ => false,
                    }
                },
            },
    {
        let instance = match instances::instance_key(deployment, instance_id) {
            Ok(v) => v,
            Err(d) => {
                return Err(d);
            },
        };
        let restamped = match row {
            Ok(Some(Ok(b))) => b,
            Ok(Some(Err(e))) => {
                return Err(bridge::persistence_diag("failed-state commit failed", &e));
            },
            Ok(None) => {
                return Ok(None);
            },
            Err(e) => {
                return Err(bridge::persistence_diag("failed-state commit failed", &e));
            },
        };
        let ghost b = restamped@;
        let mut out: Vec<RowEffect> = Vec::new();
        out.push(RowEffect::Fail(restamped));
        out.push(RowEffect::ResolveWaits);
        assert(effects(out@) =~= seq![EffectView::Fail(b), EffectView::ResolveWaits]);
        proof {
            assert forall|rows: Rows, id: Seq<char>| #[trigger]
                after_all(rows, id, instance, effects(out@)) == failed(rows, id, instance, b) by {
                two_effects(rows, id, instance, EffectView::Fail(b), EffectView::ResolveWaits);
            }
        }
        Ok(Some(FailedStep { instance, effects: out }))
    }
}

/// An instance that failed keeps every alias, and waits for nothing.
pub proof fn a_failed_instance_keeps_its_aliases(
    rows: Rows,
    deployment: Seq<char>,
    instance: u128,
    restamped: Seq<u8>,
)
    ensures
        ({
            let end = failed(rows, deployment, instance, restamped);
            &&& end.aliases == rows.aliases
            &&& forall|i: int|
                0 <= i < end.waits.len() && (#[trigger] end.waits[i]).deployment == deployment
                    && end.waits[i].instance == instance ==> !end.waits[i].waiting
        }),
{
}

} // verus!
