//! Resuming instances: how a claim is taken and handed back, what is rehydrated of a stored instance,
//! and what is kept of a delivery that cannot be made.
//!
//! Every answer of the store is handed over as a value. It is looked at only where the store was
//! asked, which it never is for an instance that no row can belong to.

use vstd::prelude::*;

use crate::bridge::{CarriedState, PersistenceBridge, PersistenceError, SuspendedInstance};
use crate::bridge;
use crate::diag::{Diagnostic, DiagnosticView};
use crate::diag;
use crate::keyed::TextMap;
use crate::outside;
use crate::sources;

verus! {

// ---- addressing --------------------------------------------------------------------------------

/// The instance that a request is about, or why no row can belong to it: its deployment before its
/// own id.
pub open spec fn addressed(deployment: Result<(), String>, instance_id: Seq<char>) -> Result<
    u128,
    DiagnosticView,
> {
    match deployment {
        Err(e) => Err(bridge::deployment_failure(e@)),
        Ok(_) => bridge::instance_of(instance_id),
    }
}

/// The instance that a request is about.
pub fn instance_key(deployment: &Result<(), String>, instance_id: &str) -> (r: Result<
    u128,
    Diagnostic,
>)
    ensures
        diag::diagnosed(r) == addressed(*deployment, instance_id@),
{
    match deployment {
        Err(e) => Err(bridge::deployment_diag(e)),
        Ok(_) => bridge::parse_instance(instance_id),
    }
}

/// What a store's answer about an instance comes to.
pub open spec fn answered<T>(
    key: Result<u128, DiagnosticView>,
    context: Seq<char>,
    answer: Result<T, PersistenceError>,
) -> Result<T, DiagnosticView> {
    match key {
        Err(d) => Err(d),
        Ok(_) => match answer {
            Ok(v) => Ok(v),
            Err(e) => Err(bridge::step_failure(context, e)),
        },
    }
}

fn settled<T: Copy>(
    key: Result<u128, Diagnostic>,
    context: &str,
    answer: &Result<T, PersistenceError>,
) -> (r: Result<T, Diagnostic>)
    ensures
        diag::diagnosed(r) == answered(diag::diagnosed(key), context@, *answer),
{
    match key {
        Err(d) => Err(d),
        Ok(_) => match answer {
            Ok(v) => Ok(*v),
            Err(e) => Err(bridge::persistence_diag(context, e)),
        },
    }
}

// ---- claims ------------------------------------------------------------------------------------

/// Whether an instance was claimed.
#[derive(Debug, Clone, Copy, PartialEq, Eq, Structural)]
pub enum InstanceClaimOutcome {
    Granted,
    /// A live claim stands, or the instance is gone.
    HeldByOther,
}

/// What is asked of the store to claim an instance or to release it.
#[derive(Debug, PartialEq, Eq)]
pub struct Claim {
    pub instance: u128,
    pub owner: String,
}

/// Whether this is the claim that an owner makes on an instance.
pub open spec fn claims(
    c: Claim,
    deployment: Result<(), String>,
    instance_id: Seq<char>,
    owner: Seq<char>,
) -> bool {
    &&& addressed(deployment, instance_id) == Ok::<u128, DiagnosticView>(c.instance)
    &&& c.owner@ == owner
}

/// What a claim's answer comes to.
pub open spec fn claim_outcome(won: Result<bool, DiagnosticView>) -> Result<
    InstanceClaimOutcome,
    DiagnosticView,
> {
    match won {
        Ok(true) => Ok(InstanceClaimOutcome::Granted),
        Ok(false) => Ok(InstanceClaimOutcome::HeldByOther),
        Err(d) => Err(d),
    }
}

impl PersistenceBridge {
    /// The claim on an instance that this lane takes and hands back: always under its own name.
    pub fn claim(&self, deployment: &Result<(), String>, instance_id: &str) -> (r: Result<
        Claim,
        Diagnostic,
    >)
        ensures
            match r {
                Ok(c) => {
                    &&& addressed(*deployment, instance_id@) == Ok::<u128, DiagnosticView>(
                        c.instance,
                    )
                    &&& c.owner@ == self@.claim_owner
                    &&& claims(c, *deployment, instance_id@, self@.claim_owner)
                },
                Err(d) => addressed(*deployment, instance_id@) == Err::<u128, DiagnosticView>(d@),
            },
    {
        match instance_key(deployment, instance_id) {
            Ok(instance) => Ok(Claim { instance, owner: self.claim_owner().to_owned() }),
            Err(d) => Err(d),
        }
    }

    /// Whether this lane has claimed an instance; `won` is what the store answered to the claim.
    pub fn claim_instance(
        &self,
        deployment: &Result<(), String>,
        instance_id: &str,
        won: &Result<bool, PersistenceError>,
    ) -> (r: Result<InstanceClaimOutcome, Diagnostic>)
        ensures
            diag::diagnosed(r) == claim_outcome(
                answered(addressed(*deployment, instance_id@), "instance claim failed"@, *won),
            ),
    {
        match settled(instance_key(deployment, instance_id), "instance claim failed", won) {
            Ok(true) => Ok(InstanceClaimOutcome::Granted),
            Ok(false) => Ok(InstanceClaimOutcome::HeldByOther),
            Err(d) => Err(d),
        }
    }

    /// Whether a claim was handed back. How many rows it touched does not matter: a step may have
    /// handed it back itself, or have deleted the row.
    pub fn release_instance(
        &self,
        deployment: &Result<(), String>,
        instance_id: &str,
        released: &Result<(), PersistenceError>,
    ) -> (r: Result<(), Diagnostic>)
        ensures
            diag::diagnosed(r) == answered(
                addressed(*deployment, instance_id@),
                "instance claim release failed"@,
                *released,
            ),
    {
        settled(instance_key(deployment, instance_id), "instance claim release failed", released)
    }

    /// Whether a call of an instance has a request that can never be delivered.
    pub fn poisoned_call_emission_exists(
        &self,
        deployment: &Result<(), String>,
        instance_id: &str,
        exists: &Result<bool, PersistenceError>,
    ) -> (r: Result<bool, Diagnostic>)
        ensures
            diag::diagnosed(r) == answered(
                addressed(*deployment, instance_id@),
                "outbox poisonedExistsForNode failed"@,
                *exists,
            ),
    {
        settled(
            instance_key(deployment, instance_id),
            "outbox poisonedExistsForNode failed",
            exists,
        )
    }
}

// ---- aliases -----------------------------------------------------------------------------------

impl PersistenceBridge {
    /// The id of the live instance that an alias is bound to. It is one that [`instance_key`] reads
    /// as that instance.
    pub fn find_live_alias(
        &self,
        deployment: &Result<(), String>,
        owner: &Result<Option<u128>, PersistenceError>,
    ) -> (r: Result<Option<String>, Diagnostic>)
        ensures
            match r {
                Ok(id) => *deployment is Ok && match *owner {
                    Ok(Some(v)) => id matches Some(s) && s@ == outside::uuid_text(v)
                        && bridge::instance_of(s@) == Ok::<u128, DiagnosticView>(v),
                    Ok(None) => id is None,
                    Err(_) => false,
                },
                Err(d) => match *deployment {
                    Err(e) => d@ == bridge::deployment_failure(e@),
                    Ok(_) => *owner matches Err(e) && d@ == bridge::step_failure(
                        "alias findLive failed"@,
                        e,
                    ),
                },
            },
            match r {
                Ok(id) => alias_owner(*deployment, *owner) == Ok::<
                    Option<Seq<char>>,
                    DiagnosticView,
                >(sources::opt(id)),
                Err(d) => alias_owner(*deployment, *owner) == Err::<
                    Option<Seq<char>>,
                    DiagnosticView,
                >(d@),
            },
    {
        match deployment {
            Ok(_) => {},
            Err(e) => {
                return Err(bridge::deployment_diag(e));
            },
        }
        match owner {
            Ok(Some(v)) => Ok(Some(outside::format_uuid(*v))),
            Ok(None) => Ok(None),
            Err(e) => Err(bridge::persistence_diag("alias findLive failed", e)),
        }
    }
}

// ---- rehydrating -------------------------------------------------------------------------------

/// The id of the instance that an alias is bound to.
pub open spec fn alias_owner(
    deployment: Result<(), String>,
    owner: Result<Option<u128>, PersistenceError>,
) -> Result<Option<Seq<char>>, DiagnosticView> {
    match deployment {
        Err(e) => Err(bridge::deployment_failure(e@)),
        Ok(_) => match owner {
            Err(e) => Err(bridge::step_failure("alias findLive failed"@, e)),
            Ok(None) => Ok(None),
            Ok(Some(v)) => Ok(Some(outside::uuid_text(v))),
        },
    }
}

/// A decoded snapshot.
pub struct DecodedSnapshot {
    pub rest: CarriedState,
    pub process_id: String,
    pub waiting_nodes: Vec<String>,
    pub retry_backoff: TextMap<String>,
}

/// A stored snapshot, as far as it was read.
pub struct StoredSnapshot {
    /// The key that it names.
    pub named: Result<Option<String>, String>,
    /// What the source of keys answered; looked at only where a key is used.
    pub data_key: Result<(), String>,
    /// What decoding it answered.
    pub decoded: Result<DecodedSnapshot, String>,
}

/// Why a stored snapshot cannot be resumed from.
pub open spec fn unreadable(encrypting: bool, s: StoredSnapshot, instance_id: Seq<char>) -> Option<
    DiagnosticView,
> {
    match s.named {
        Err(e) => Some(bridge::decode_failure(e@)),
        Ok(named) => match bridge::decoding_key(encrypting, sources::opt(named), instance_id) {
            Err(d) => Some(d),
            Ok(key) => match (key, s.data_key) {
                (Some(_), Err(e)) => Some(bridge::crypto_failure(e@)),
                _ => match s.decoded {
                    Err(e) => Some(bridge::decode_failure(e@)),
                    Ok(_) => None,
                },
            },
        },
    }
}

/// Why an instance cannot be loaded.
pub open spec fn load_failure(
    encrypting: bool,
    deployment: Result<(), String>,
    instance_id: Seq<char>,
    row: Result<Option<StoredSnapshot>, PersistenceError>,
) -> Option<DiagnosticView> {
    match answered(addressed(deployment, instance_id), "instance load failed"@, row) {
        Err(d) => Some(d),
        Ok(None) => None,
        Ok(Some(s)) => unreadable(encrypting, s, instance_id),
    }
}

/// Whether `i` is the instance that a stored snapshot rehydrates to: what was decoded, under the key
/// that the snapshot names, with nothing marked for encryption and no subjects, which the next park
/// works out afresh.
pub open spec fn rehydrated(i: SuspendedInstance, s: StoredSnapshot) -> bool {
    &&& s.named matches Ok(named) && i.key_id@ == match named {
        Some(k) => k@,
        None => Seq::empty(),
    }
    &&& s.decoded matches Ok(d) && i.rest == d.rest && i.process_id == d.process_id && i.waiting_nodes
        == d.waiting_nodes && i.retry_backoff == d.retry_backoff
    &&& i.encrypt_names@.len() == 0
    &&& i.subjects@.len() == 0
}

impl PersistenceBridge {
    /// Rehydrate an instance; none where the store holds none.
    pub fn load(
        &self,
        deployment: &Result<(), String>,
        instance_id: &str,
        row: Result<Option<StoredSnapshot>, PersistenceError>,
    ) -> (r: Result<Option<SuspendedInstance>, Diagnostic>)
        ensures
            match r {
                Err(d) => load_failure(self@.encrypting, *deployment, instance_id@, row) == Some(
                    d@,
                ),
                Ok(found) => {
                    &&& load_failure(self@.encrypting, *deployment, instance_id@, row) is None
                    &&& row matches Ok(stored) && match (stored, found) {
                        (None, None) => true,
                        (Some(s), Some(i)) => rehydrated(i, s),
                        _ => false,
                    }
                },
            },
    {
        match instance_key(deployment, instance_id) {
            Ok(_) => {},
            Err(d) => {
                return Err(d);
            },
        }
        let stored = match row {
            Ok(Some(s)) => s,
            Ok(None) => {
                return Ok(None);
            },
            Err(e) => {
                return Err(bridge::persistence_diag("instance load failed", &e));
            },
        };
        let named = match stored.named {
            Ok(n) => n,
            Err(e) => {
                return Err(bridge::decode_diag(&e));
            },
        };
        match self.decode_snapshot(&named, instance_id) {
            Ok(Some(_)) => match &stored.data_key {
                Ok(_) => {},
                Err(e) => {
                    return Err(bridge::crypto_diag(e));
                },
            },
            Ok(None) => {},
            Err(d) => {
                return Err(d);
            },
        }
        let decoded = match stored.decoded {
            Ok(v) => v,
            Err(e) => {
                return Err(bridge::decode_diag(&e));
            },
        };
        let key_id = match named {
            Some(k) => k,
            None => String::new(),
        };
        Ok(
            Some(
                SuspendedInstance {
                    rest: decoded.rest,
                    process_id: decoded.process_id,
                    waiting_nodes: decoded.waiting_nodes,
                    retry_backoff: decoded.retry_backoff,
                    key_id,
                    encrypt_names: Vec::new(),
                    subjects: Vec::new(),
                },
            ),
        )
    }
}

/// An instance that was stored encrypted is never resumed without a source of keys.
pub proof fn an_encrypted_instance_needs_its_key(
    s: StoredSnapshot,
    instance_id: Seq<char>,
    key: String,
)
    requires
        s.named == Ok::<Option<String>, String>(Some(key)),
    ensures
        unreadable(false, s, instance_id) is Some,
{
}

/// An instance that was rehydrated is encrypted under the key it was stored under when it parks
/// again, wherever it has anything to encrypt.
pub proof fn a_rehydrated_instance_keeps_its_key(
    i: SuspendedInstance,
    s: StoredSnapshot,
    key: String,
    parked: SuspendedInstance,
)
    requires
        s.named == Ok::<Option<String>, String>(Some(key)),
        key@.len() > 0,
        rehydrated(i, s),
        parked.key_id == i.key_id,
        parked.encrypt_names@.len() > 0,
    ensures
        bridge::encryption_key(true, parked) == Some(key@),
{
}

// ---- the inbox and dead letters ----------------------------------------------------------------

/// Whether an arrival counts as the first of its key.
pub open spec fn counts_as_first(storable: bool, first: Result<bool, String>) -> bool {
    !storable || match first {
        Ok(b) => b,
        Err(_) => true,
    }
}

/// Whether a delivery is to be processed: exactly unless the store says that it was seen before. A
/// store that cannot tell never stops a delivery.
pub fn record_seen(storable: bool, first: &Result<bool, String>) -> (r: bool)
    ensures
        r == (!storable || match *first {
            Ok(b) => b,
            Err(_) => true,
        }),
        r == counts_as_first(storable, *first),
{
    if !storable {
        return true;
    }
    match first {
        Ok(b) => *b,
        Err(_) => true,
    }
}

/// A delivery that failed for good.
pub struct InboundIncident {
    pub deployment: String,
    pub channel: String,
    pub process_id: Option<String>,
    pub dedup_key: Option<String>,
    pub failure_code: String,
    pub detail: String,
    /// When the delivery was received, as RFC 3339 text.
    pub received_at: String,
    /// What was delivered, where it was captured.
    pub payload: Option<Vec<u8>>,
    pub headers: Option<TextMap<String>>,
    pub content_type: Option<String>,
    pub tenant: Option<String>,
    pub module_key: Option<String>,
}

/// The row of a delivery that failed for good: the incident, carried unchanged, with the instant it
/// was received at.
pub struct DeadLetterRow<'a> {
    pub incident: &'a InboundIncident,
    pub received_at: i128,
}

/// Whether this is what is kept of an incident.
pub open spec fn dead_lettered(
    row: Option<DeadLetterRow>,
    storable: bool,
    incident: InboundIncident,
    now: i128,
) -> bool {
    match row {
        Some(r) => storable && *r.incident == incident && r.received_at == outside::instant_or(
            incident.received_at@,
            now,
        ),
        None => !storable,
    }
}

/// The row that an incident is recorded in, with `now` in place of a stamp that cannot be read;
/// none for a deployment that the store cannot hold rows of.
pub fn dead_letter<'a>(storable: bool, incident: &'a InboundIncident, now: i128) -> (r: Option<
    DeadLetterRow<'a>,
>)
    ensures
        match r {
            Some(row) => storable && *row.incident == *incident && row.received_at
                == outside::instant_or(incident.received_at@, now),
            None => !storable,
        },
        dead_lettered(r, storable, *incident, now),
{
    if !storable {
        return None;
    }
    Some(DeadLetterRow { incident, received_at: outside::received_or(&incident.received_at, now) })
}

impl PersistenceBridge {
    /// The row that an incident is recorded in, with the clock's time in place of a stamp that
    /// cannot be read: an incident is never dropped for its stamp.
    pub fn record<'a>(&self, storable: bool, incident: &'a InboundIncident) -> (r: Option<
        DeadLetterRow<'a>,
    >)
        ensures
            match r {
                Some(row) => storable && *row.incident == *incident && (
                outside::rfc3339_instant(incident.received_at@) matches Ok(t) ==> row.received_at
                    == t),
                None => !storable,
            },
    {
        let now: i128 = outside::now_nanos();
        dead_letter(storable, incident, now)
    }
}

} // verus!
