//! Parking instances: what a step that suspends an instance commits in one transaction, or why it
//! commits nothing.

use vstd::prelude::*;

use crate::bridge::{
    OutboxEmission, OutboxEntry, PersistenceBridge, PersistenceError, StepTimerWait, StepWrite, SuspendedInstance,
    TimerView, TimerWaitRecord,
};
use crate::bridge;
use crate::diag::{Diagnostic, DiagnosticView};
use crate::sources;
use crate::text;

verus! {

/// An alias that a step binds to its instance.
pub struct AliasRecord {
    pub name: String,
    pub value: String,
    /// Whether no other live instance may have it.
    pub unique: bool,
}

/// A step that suspends an instance.
pub struct ParkRequest<'a> {
    pub deployment_id: &'a str,
    /// Whether the store can hold rows of the deployment.
    pub deployment: Result<(), String>,
    pub instance_id: &'a str,
    pub snapshot: &'a SuspendedInstance,
    /// What encrypting the snapshot answered; looked at only where it is encrypted.
    pub encoded: Result<(), String>,
    /// What indexing its subjects answered; looked at only where they are indexed.
    pub blinded: Result<(), String>,
    pub aliases: &'a Vec<AliasRecord>,
    pub timer_waits: &'a Vec<TimerWaitRecord>,
    pub emissions: &'a Vec<OutboxEmission>,
}

/// What the step commits.
pub struct ParkStep<'a> {
    pub deployment: String,
    pub write: StepWrite,
    /// What the snapshot is written from.
    pub snapshot: &'a SuspendedInstance,
    /// The key that the snapshot is encrypted under; `None` where it is written in the clear.
    pub key: Option<String>,
    /// The key that the subjects are indexed under; `None` where they are not indexed.
    pub subjects_key: Option<String>,
    pub aliases: &'a Vec<AliasRecord>,
    pub outbox: Vec<OutboxEntry<'a>>,
    pub timers: Vec<StepTimerWait>,
    /// The owner whose claim is handed back in the same transaction.
    pub released: Option<String>,
}

/// Why a cipher refuses a step: only where a key is used.
pub open spec fn cipher_refusal(key: Option<Seq<char>>, answer: Result<(), String>) -> Option<
    DiagnosticView,
> {
    match (key, answer) {
        (Some(_), Err(e)) => Some(bridge::crypto_failure(e@)),
        _ => None,
    }
}

/// The first reason that a step commits nothing: its deployment, its instance, the cipher, the
/// subjects' index, an emission that is addressed to no instance, and a timer whose time cannot be
/// read, in this order.
pub open spec fn refusal(encrypting: bool, q: ParkRequest) -> Option<DiagnosticView> {
    if q.deployment is Err {
        Some(bridge::deployment_failure(q.deployment->Err_0@))
    } else if bridge::instance_of(q.instance_id@) is Err {
        Some(bridge::instance_of(q.instance_id@)->Err_0)
    } else if cipher_refusal(bridge::encryption_key(encrypting, *q.snapshot), q.encoded) is Some {
        cipher_refusal(bridge::encryption_key(encrypting, *q.snapshot), q.encoded)
    } else if cipher_refusal(bridge::index_key(encrypting, *q.snapshot), q.blinded) is Some {
        cipher_refusal(bridge::index_key(encrypting, *q.snapshot), q.blinded)
    } else if bridge::unaddressable(q.emissions@) is Some {
        bridge::unaddressable(q.emissions@)
    } else {
        match bridge::timer_waits(q.timer_waits@, q.snapshot.process_id@) {
            Err(d) => Some(d),
            Ok(_) => None,
        }
    }
}

/// Whether `s` is what a step commits: the snapshot, the waits, the keys, the aliases, one outbox row
/// for each emission with all of them due at once, and the timers.
pub open spec fn commits(
    s: ParkStep,
    encrypting: bool,
    q: ParkRequest,
    satisfied: Seq<Seq<char>>,
    released: Option<Seq<char>>,
) -> bool {
    &&& s.deployment@ == q.deployment_id@
    &&& s.snapshot == q.snapshot
    &&& bridge::writes(s.write, q.instance_id@, *q.snapshot, satisfied)
    &&& sources::opt(s.key) == bridge::encryption_key(encrypting, *q.snapshot)
    &&& sources::opt(s.subjects_key) == bridge::index_key(encrypting, *q.snapshot)
    &&& s.aliases == q.aliases
    &&& exists|now: i128| #[trigger]
        bridge::rows_at(s.outbox@, q.deployment_id@, q.emissions@, now)
    &&& bridge::timer_waits(q.timer_waits@, q.snapshot.process_id@) == Ok::<
        Seq<TimerView>,
        DiagnosticView,
    >(bridge::timers(s.timers@))
    &&& sources::opt(s.released) == released
}

/// Whether a step is the first park of a request: it resolves and releases nothing.
pub open spec fn parks(s: ParkStep, encrypting: bool, q: ParkRequest) -> bool {
    commits(s, encrypting, q, Seq::empty(), None)
}

/// Whether a step parks a request again: it resolves what was satisfied and releases its owner's
/// claim.
pub open spec fn reparks(
    s: ParkStep,
    encrypting: bool,
    q: ParkRequest,
    satisfied: Seq<Seq<char>>,
    owner: Seq<char>,
) -> bool {
    commits(s, encrypting, q, satisfied, Some(owner))
}

impl PersistenceBridge {
    fn step<'a>(
        &self,
        q: &ParkRequest<'a>,
        satisfied: &Vec<String>,
        released: Option<String>,
    ) -> (r: Result<ParkStep<'a>, Diagnostic>)
        ensures
            match r {
                Ok(s) => {
                    &&& refusal(self@.encrypting, *q) is None
                    &&& commits(
                        s,
                        self@.encrypting,
                        *q,
                        text::texts(satisfied@),
                        sources::opt(released),
                    )
                },
                Err(d) => refusal(self@.encrypting, *q) == Some(d@),
            },
    {
        match &q.deployment {
            Ok(_) => {},
            Err(e) => {
                return Err(bridge::deployment_diag(e));
            },
        }
        let write = match bridge::build_step(q.instance_id, q.snapshot, satisfied) {
            Ok(w) => w,
            Err(d) => {
                return Err(d);
            },
        };
        let key = self.encode_snapshot(q.snapshot);
        if key.is_some() {
            match &q.encoded {
                Ok(_) => {},
                Err(e) => {
                    return Err(bridge::crypto_diag(e));
                },
            }
        }
        let subjects_key = self.blind_subjects(q.snapshot);
        if subjects_key.is_some() {
            match &q.blinded {
                Ok(_) => {},
                Err(e) => {
                    return Err(bridge::crypto_diag(e));
                },
            }
        }
        let outbox = match bridge::outbox_entries(q.deployment_id, q.emissions) {
            Ok(rows) => rows,
            Err(d) => {
                return Err(d);
            },
        };
        let timers = match bridge::step_timer_waits(q.timer_waits, &q.snapshot.process_id) {
            Ok(v) => v,
            Err(d) => {
                return Err(d);
            },
        };
        let ghost now = choose|now: i128| #[trigger]
            bridge::rows_at(outbox@, q.deployment_id@, q.emissions@, now);
        let s = ParkStep {
            deployment: q.deployment_id.to_owned(),
            write,
            snapshot: q.snapshot,
            key,
            subjects_key,
            aliases: q.aliases,
            outbox,
            timers,
            released,
        };
        assert(bridge::rows_at(s.outbox@, q.deployment_id@, q.emissions@, now));
        Ok(s)
    }

    /// What the first park of an instance commits. Nothing names the instance before, so nothing
    /// claims it: no wait is satisfied and no claim handed back.
    pub fn commit_park<'a>(&self, q: &ParkRequest<'a>) -> (r: Result<ParkStep<'a>, Diagnostic>)
        ensures
            match r {
                Ok(s) => {
                    &&& refusal(self@.encrypting, *q) is None
                    &&& commits(s, self@.encrypting, *q, Seq::empty(), None)
                    &&& parks(s, self@.encrypting, *q)
                },
                Err(d) => refusal(self@.encrypting, *q) == Some(d@),
            },
    {
        let none: Vec<String> = Vec::new();
        assert(text::texts(none@) =~= Seq::empty());
        self.step(q, &none, None)
    }

    /// What a resumed instance commits as it parks again: the waits that were satisfied are
    /// resolved, and the claim is handed back.
    pub fn commit_repark<'a>(&self, q: &ParkRequest<'a>, satisfied: &Vec<String>) -> (r: Result<
        ParkStep<'a>,
        Diagnostic,
    >)
        ensures
            match r {
                Ok(s) => {
                    &&& refusal(self@.encrypting, *q) is None
                    &&& commits(
                        s,
                        self@.encrypting,
                        *q,
                        text::texts(satisfied@),
                        Some(self@.claim_owner),
                    )
                    &&& reparks(
                        s,
                        self@.encrypting,
                        *q,
                        text::texts(satisfied@),
                        self@.claim_owner,
                    )
                },
                Err(d) => refusal(self@.encrypting, *q) == Some(d@),
            },
    {
        let owner = self.claim_owner().to_owned();
        self.step(q, satisfied, Some(owner))
    }
}

/// A step never writes in the clear what is to be encrypted: where a key is used and the cipher
/// failed, nothing is committed.
pub proof fn a_failed_cipher_commits_nothing(encrypting: bool, q: ParkRequest)
    requires
        bridge::encryption_key(encrypting, *q.snapshot) is Some,
        q.encoded is Err,
    ensures
        refusal(encrypting, q) is Some,
{
}

/// A step that is committed in one transaction.
#[derive(Debug, Clone, Copy, PartialEq, Eq, Structural)]
pub enum CommittedStep {
    Park,
    Repark,
    /// What a step sends that completes without ever parking.
    Emissions,
}

/// What failed where a step's transaction did.
pub open spec fn commit_context(step: CommittedStep) -> Seq<char> {
    match step {
        CommittedStep::Park => "park step commit failed"@,
        CommittedStep::Repark => "re-park step commit failed"@,
        CommittedStep::Emissions => "sync-path outbox commit failed"@,
    }
}

/// What a step is answered, from what became of its transaction.
pub fn committed(step: CommittedStep, answer: &Result<(), PersistenceError>) -> (r: Result<
    (),
    Diagnostic,
>)
    ensures
        match (*answer, r) {
            (Ok(_), Ok(_)) => true,
            (Err(e), Err(d)) => d@ == bridge::step_failure(commit_context(step), e),
            _ => false,
        },
{
    match answer {
        Ok(_) => Ok(()),
        Err(e) => {
            let context = match step {
                CommittedStep::Park => "park step commit failed",
                CommittedStep::Repark => "re-park step commit failed",
                CommittedStep::Emissions => "sync-path outbox commit failed",
            };
            Err(bridge::persistence_diag(context, e))
        },
    }
}

/// The outbox rows of a step that completes without ever parking; none where it sends nothing, which
/// does not even look at the deployment.
pub fn commit_emissions<'a>(
    deployment_id: &str,
    deployment: &Result<(), String>,
    emissions: &'a Vec<OutboxEmission>,
) -> (r: Result<Vec<OutboxEntry<'a>>, Diagnostic>)
    ensures
        match r {
            Ok(rows) => {
                &&& emissions@.len() == 0 || (*deployment is Ok && bridge::unaddressable(
                    emissions@,
                ) is None)
                &&& exists|now: i128| #[trigger]
                    bridge::rows_at(rows@, deployment_id@, emissions@, now)
            },
            Err(d) => {
                &&& emissions@.len() > 0
                &&& match *deployment {
                    Err(e) => d@ == bridge::deployment_failure(e@),
                    Ok(_) => bridge::unaddressable(emissions@) == Some(d@),
                }
            },
        },
{
    if emissions.len() > 0 {
        match deployment {
            Ok(_) => {},
            Err(e) => {
                return Err(bridge::deployment_diag(e));
            },
        }
    }
    bridge::outbox_entries(deployment_id, emissions)
}

} // verus!
