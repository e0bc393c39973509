//! Suspending and resuming instances durably: who owns an instance, what a step writes, and what is
//! kept of a finished one.

use vstd::prelude::*;

use crate::diag::{Code, Diagnostic, DiagnosticView};
use crate::diag;
use crate::duration::Duration;
use crate::keyed;
use crate::keyed::TextMap;
use crate::outside;
use crate::sources;
use crate::text;

verus! {

/// How many seconds a finished instance is kept where nothing else is configured: seven days.
pub const DEFAULT_RETENTION_SECS: u64 = 604800;

// ---- ownership ---------------------------------------------------------------------------------

/// The durable side of one lane.
pub struct PersistenceBridge {
    replica: String,
    claim_owner: String,
    retention: Duration,
    encrypting: bool,
}

/// The contents of a [`PersistenceBridge`].
pub struct BridgeView {
    /// The replica's identity.
    pub replica: Seq<char>,
    /// The identity that instances are claimed under.
    pub claim_owner: Seq<char>,
    /// How long a finished instance is kept.
    pub retention: Duration,
    /// Whether there is a source of encryption keys.
    pub encrypting: bool,
}

impl View for PersistenceBridge {
    type V = BridgeView;

    closed spec fn view(&self) -> BridgeView {
        BridgeView {
            replica: self.replica@,
            claim_owner: self.claim_owner@,
            retention: self.retention,
            encrypting: self.encrypting,
        }
    }
}

/// The owner of one lane's claims.
pub open spec fn lane_owner(replica: Seq<char>, shard: u32) -> Seq<char> {
    replica + "-s"@ + text::decimal(shard as nat)
}

/// Two lanes of one replica never claim under one name, so a lane cannot take a claim again that its
/// sibling holds.
pub proof fn lanes_own_apart(replica: Seq<char>, a: u32, b: u32)
    requires
        a != b,
    ensures
        lane_owner(replica, a) != lane_owner(replica, b),
{
    let x = text::decimal(a as nat);
    let y = text::decimal(b as nat);
    let head = replica + "-s"@;
    if lane_owner(replica, a) == lane_owner(replica, b) {
        assert((head + x).skip(head.len() as int) =~= x);
        assert((head + y).skip(head.len() as int) =~= y);
        decimals_differ(a as nat, b as nat);
    }
}

proof fn decimals_differ(a: nat, b: nat)
    requires
        a != b,
    ensures
        text::decimal(a) != text::decimal(b),
    decreases a + b,
{
    let x = text::decimal(a);
    let y = text::decimal(b);
    decimal_shape(a);
    decimal_shape(b);
    if x == y {
        if a >= 10 && b >= 10 {
            assert(x.drop_last() =~= text::decimal(a / 10));
            assert(y.drop_last() =~= text::decimal(b / 10));
            if a / 10 != b / 10 {
                decimals_differ(a / 10, b / 10);
            }
        } else if a >= 10 {
            decimal_shape(a / 10);
            assert(x.len() >= 2);
        } else if b >= 10 {
            decimal_shape(b / 10);
            assert(y.len() >= 2);
        }
        assert(x.last() == y.last());
    }
}

proof fn decimal_shape(n: nat)
    ensures
        text::decimal(n).len() >= 1,
        text::decimal(n).last() == text::digit(n % 10),
        n < 10 ==> text::decimal(n).len() == 1,
        n >= 10 ==> text::decimal(n) == text::decimal(n / 10).push(text::digit(n % 10)),
    decreases n,
{
    if n >= 10 {
        decimal_shape(n / 10);
    }
}

impl PersistenceBridge {
    /// A bridge without a source of encryption keys.
    pub fn new(replica: &str) -> (r: PersistenceBridge)
        ensures
            r@ == (BridgeView {
                replica: replica@,
                claim_owner: replica@,
                retention: Duration::of_secs(DEFAULT_RETENTION_SECS),
                encrypting: false,
            }),
    {
        PersistenceBridge::with_key_provider(replica, false)
    }

    /// A bridge with or without a source of encryption keys.
    pub fn with_key_provider(replica: &str, encrypting: bool) -> (r: PersistenceBridge)
        ensures
            r@ == (BridgeView {
                replica: replica@,
                claim_owner: replica@,
                retention: Duration::of_secs(DEFAULT_RETENTION_SECS),
                encrypting,
            }),
    {
        PersistenceBridge {
            replica: replica.to_owned(),
            claim_owner: replica.to_owned(),
            retention: Duration::from_secs(DEFAULT_RETENTION_SECS),
            encrypting,
        }
    }

    /// Keep finished instances this long; no time at all deletes them at once.
    pub fn with_retention(self, retention: Duration) -> (r: PersistenceBridge)
        ensures
            r@ == (BridgeView { retention, ..self@ }),
    {
        PersistenceBridge { retention, ..self }
    }

    /// Claim as one lane of the replica.
    pub fn with_shard_owner(self, shard: u32) -> (r: PersistenceBridge)
        ensures
            r@ == (BridgeView { claim_owner: lane_owner(self@.replica, shard), ..self@ }),
    {
        let owner = text::text3(&self.replica, "-s", &text::decimal_text(shard as u64));
        PersistenceBridge { claim_owner: owner, ..self }
    }

    /// The identity that instances are claimed under.
    pub fn claim_owner(&self) -> (r: &str)
        ensures
            r@ == self@.claim_owner,
    {
        self.claim_owner.as_str()
    }

    /// How long a finished instance is kept.
    pub fn retention(&self) -> (r: Duration)
        ensures
            r == self@.retention,
    {
        self.retention
    }
}

// ---- diagnostics -------------------------------------------------------------------------------

/// The diagnostic of a cipher or key failure.
pub open spec fn crypto_failure(error: Seq<char>) -> DiagnosticView {
    DiagnosticView::error(
        Code::RuntimeUnexpected,
        "snapshot encryption/decryption failed (fail-closed): "@ + error,
    )
}

/// A cipher or key failure, which never parks or resumes an instance in the clear.
pub fn crypto_diag(error: &str) -> (r: Diagnostic)
    ensures
        r@ == crypto_failure(error@),
{
    Diagnostic::error(
        Code::RuntimeUnexpected,
        text::text2("snapshot encryption/decryption failed (fail-closed): ", error),
    )
}

/// The diagnostic of a snapshot that cannot be decoded.
pub open spec fn decode_failure(error: Seq<char>) -> DiagnosticView {
    DiagnosticView::error(
        Code::RuntimeUnexpected,
        "failed to decode persisted instance snapshot: "@ + error,
    )
}

/// A snapshot that cannot be decoded.
pub fn decode_diag(error: &str) -> (r: Diagnostic)
    ensures
        r@ == decode_failure(error@),
{
    Diagnostic::error(
        Code::RuntimeUnexpected,
        text::text2("failed to decode persisted instance snapshot: ", error),
    )
}

/// The diagnostic of a deployment id that the store cannot hold rows of.
pub open spec fn deployment_failure(error: Seq<char>) -> DiagnosticView {
    DiagnosticView::error(
        Code::RuntimeUnexpected,
        "deployment id failed persistence-form validation: "@ + error,
    )
}

/// A deployment id that the store cannot hold rows of.
pub fn deployment_diag(error: &str) -> (r: Diagnostic)
    ensures
        r@ == deployment_failure(error@),
{
    Diagnostic::error(
        Code::RuntimeUnexpected,
        text::text2("deployment id failed persistence-form validation: ", error),
    )
}

/// The instance that an id names, or why it names none.
pub open spec fn instance_of(id: Seq<char>) -> Result<u128, DiagnosticView> {
    match outside::uuid_value(id) {
        Ok(v) => Ok(v),
        Err(e) => Err(
            DiagnosticView::error(
                Code::RuntimeUnexpected,
                "instance id '"@ + id + "' is not a UUID: "@ + e,
            ),
        ),
    }
}

/// Read an instance id.
pub fn parse_instance(instance_id: &str) -> (r: Result<u128, Diagnostic>)
    ensures
        diag::diagnosed(r) == instance_of(instance_id@),
{
    match outside::parse_uuid(instance_id) {
        Ok(v) => Ok(v),
        Err(e) => Err(
            Diagnostic::error(
                Code::RuntimeUnexpected,
                text::text4("instance id '", instance_id, "' is not a UUID: ", &e),
            ),
        ),
    }
}

/// Why a step could not be committed.
pub enum PersistenceError {
    /// An alias is bound to a live instance already.
    AliasCollision { name: String, value: String },
    /// Anything else, in words.
    Other(String),
}

/// The diagnostic of a step that could not be committed. A collision of aliases is the client's
/// conflict; anything else is unexpected.
pub open spec fn step_failure(context: Seq<char>, e: PersistenceError) -> DiagnosticView {
    match e {
        PersistenceError::AliasCollision { name, value } => DiagnosticView::error(
            Code::InboundAliasConflictReject,
            "<q:alias "@ + name@ + "> = '"@ + value@
                + "' already bound to a live instance (unique-live index); the step was rolled back and the arrival rejected"@,
        ),
        PersistenceError::Other(words) => DiagnosticView::error(
            Code::RuntimeUnexpected,
            context + ": "@ + words@,
        ),
    }
}

/// The diagnostic of a step that could not be committed.
pub fn persistence_diag(context: &str, e: &PersistenceError) -> (r: Diagnostic)
    ensures
        r@ == step_failure(context@, *e),
{
    match e {
        PersistenceError::AliasCollision { name, value } => Diagnostic::error(
            Code::InboundAliasConflictReject,
            text::text5(
                "<q:alias ",
                name,
                "> = '",
                value,
                "' already bound to a live instance (unique-live index); the step was rolled back and the arrival rejected",
            ),
        ),
        PersistenceError::Other(words) => Diagnostic::error(
            Code::RuntimeUnexpected,
            text::text3(context, ": ", words),
        ),
    }
}

// ---- encryption at rest ------------------------------------------------------------------------

/// What a snapshot keeps of an instance that no step reads: it is written as it stands and read back
/// as it was written.
#[derive(Debug, Clone, Default)]
pub struct CarriedState {
    pub deployment_id: String,
    pub status: String,
    /// Whether the status is that of a suspended instance.
    pub suspended: bool,
    pub completed_nodes: Vec<String>,
    /// The variables, each with its encoded value.
    pub variables: Vec<(String, Vec<u8>)>,
    /// The variables that are masked wherever they are shown.
    pub sensitive: Vec<String>,
    pub start_node: String,
    /// The coverage paths that were passed.
    pub coverage: Vec<String>,
    /// How often each node was tried.
    pub retry_attempts: Vec<(String, u32)>,
    /// The number of the last audit event.
    pub audit_seq: u32,
}

/// A suspended instance.
pub struct SuspendedInstance {
    pub rest: CarriedState,
    pub process_id: String,
    pub waiting_nodes: Vec<String>,
    /// The nodes whose retry waits for its time.
    pub retry_backoff: TextMap<String>,
    /// The key that its values are encrypted under, empty where it has none.
    pub key_id: String,
    /// The variables to encrypt.
    pub encrypt_names: Vec<String>,
    /// The subject keys and their values.
    pub subjects: Vec<(String, String)>,
}

/// The key that a snapshot is encrypted under; none where it is written in the clear.
pub open spec fn encryption_key(encrypting: bool, s: SuspendedInstance) -> Option<Seq<char>> {
    if encrypting && s.encrypt_names@.len() > 0 && s.key_id@.len() > 0 {
        Some(s.key_id@)
    } else {
        None
    }
}

/// The key that subjects are indexed under; none where they are not indexed.
pub open spec fn index_key(encrypting: bool, s: SuspendedInstance) -> Option<Seq<char>> {
    if encrypting && s.subjects@.len() > 0 && s.key_id@.len() > 0 {
        Some(s.key_id@)
    } else {
        None
    }
}

/// How a stored snapshot is read: under the key it names, or in the clear where it names none. A
/// snapshot that names a key is never read without one.
pub open spec fn decoding_key(
    encrypting: bool,
    named: Option<Seq<char>>,
    instance_id: Seq<char>,
) -> Result<Option<Seq<char>>, DiagnosticView> {
    match named {
        None => Ok(None),
        Some(k) => if encrypting {
            Ok(Some(k))
        } else {
            Err(
                DiagnosticView::error(
                    Code::RuntimeUnexpected,
                    "instance "@ + instance_id
                        + " was persisted encrypted (sutra.keyId present) but no encryption key provider is configured (sutra.crypto.master-key) — cannot decrypt; refusing to resume in the clear"@,
                ),
            )
        },
    }
}

/// What the answer about a decoding key holds.
pub open spec fn key_answer(r: Result<Option<String>, Diagnostic>) -> Result<
    Option<Seq<char>>,
    DiagnosticView,
> {
    match r {
        Ok(k) => Ok(sources::opt(k)),
        Err(d) => Err(d@),
    }
}

impl PersistenceBridge {
    /// The key that a snapshot is encrypted under.
    pub fn encode_snapshot(&self, snapshot: &SuspendedInstance) -> (r: Option<String>)
        ensures
            sources::opt(r) == encryption_key(self@.encrypting, *snapshot),
    {
        if self.encrypting && snapshot.encrypt_names.len() > 0
            && !snapshot.key_id.as_str().is_empty() {
            Some(snapshot.key_id.clone())
        } else {
            None
        }
    }

    /// The key that a stored snapshot is read under. `named` is what the snapshot says.
    pub fn decode_snapshot(&self, named: &Option<String>, instance_id: &str) -> (r: Result<
        Option<String>,
        Diagnostic,
    >)
        ensures
            key_answer(r) == decoding_key(
                self@.encrypting,
                sources::opt(*named),
                instance_id@,
            ),
    {
        match named {
            None => Ok(None),
            Some(k) => if self.encrypting {
                Ok(Some(k.clone()))
            } else {
                Err(
                    Diagnostic::error(
                        Code::RuntimeUnexpected,
                        text::text3(
                            "instance ",
                            instance_id,
                            " was persisted encrypted (sutra.keyId present) but no encryption key provider is configured (sutra.crypto.master-key) — cannot decrypt; refusing to resume in the clear",
                        ),
                    ),
                )
            },
        }
    }

    /// The key that an instance's subjects are indexed under.
    pub fn blind_subjects(&self, snapshot: &SuspendedInstance) -> (r: Option<String>)
        ensures
            sources::opt(r) == index_key(self@.encrypting, *snapshot),
    {
        if self.encrypting && snapshot.subjects.len() > 0 && !snapshot.key_id.as_str().is_empty() {
            Some(snapshot.key_id.clone())
        } else {
            None
        }
    }
}

/// What was encrypted under a key is never read in the clear.
pub proof fn encrypted_is_never_read_in_the_clear(
    encrypting: bool,
    key: Seq<char>,
    instance_id: Seq<char>,
)
    ensures
        decoding_key(encrypting, Some(key), instance_id) != Ok::<
            Option<Seq<char>>,
            DiagnosticView,
        >(None),
{
}

// ---- steps -------------------------------------------------------------------------------------

/// A wait that a step records.
#[derive(Debug, PartialEq, Eq)]
pub struct StepWait {
    pub node_id: String,
    pub process_id: String,
    /// A wait of a step is found by its node, never by a key.
    pub correlation_key: Option<String>,
}

/// What a step writes beside the snapshot, the timers and the outbox.
pub struct StepWrite {
    pub instance_id: u128,
    pub waits: Vec<StepWait>,
    pub resolved_waits: Vec<String>,
    /// The calls whose outstanding requests are withdrawn.
    pub withdrawn_call_nodes: Vec<String>,
}

/// Whether `w` is what a step of an instance writes: every waiting node waits, the satisfied waits
/// are resolved, and every node whose retry waits for its time loses its outstanding requests.
pub open spec fn writes(
    w: StepWrite,
    instance_id: Seq<char>,
    s: SuspendedInstance,
    satisfied: Seq<Seq<char>>,
) -> bool {
    &&& instance_of(instance_id) == Ok::<u128, DiagnosticView>(w.instance_id)
    &&& w.waits@.len() == s.waiting_nodes@.len()
    &&& forall|i: int|
        0 <= i < w.waits@.len() ==> (#[trigger] w.waits@[i]).node_id@ == s.waiting_nodes@[i]@
            && w.waits@[i].process_id@ == s.process_id@ && w.waits@[i].correlation_key is None
    &&& text::texts(w.resolved_waits@) == satisfied
    &&& text::texts(w.withdrawn_call_nodes@) == keyed::keys(s.retry_backoff@)
}

/// Write a step. An instance that was never parked has no satisfied waits.
pub fn build_step(instance_id: &str, snapshot: &SuspendedInstance, satisfied: &Vec<String>) -> (r:
    Result<StepWrite, Diagnostic>)
    ensures
        match r {
            Ok(w) => writes(w, instance_id@, *snapshot, text::texts(satisfied@)),
            Err(d) => instance_of(instance_id@) == Err::<u128, DiagnosticView>(d@),
        },
{
    let instance = match parse_instance(instance_id) {
        Ok(v) => v,
        Err(d) => {
            return Err(d);
        },
    };
    let mut waits: Vec<StepWait> = Vec::new();
    let mut i: usize = 0;
    while i < snapshot.waiting_nodes.len()
        invariant
            i <= snapshot.waiting_nodes.len(),
            waits.len() == i,
            forall|k: int|
                0 <= k < i ==> (#[trigger] waits@[k]).node_id@ == snapshot.waiting_nodes@[k]@
                    && waits@[k].process_id@ == snapshot.process_id@
                    && waits@[k].correlation_key is None,
        decreases snapshot.waiting_nodes.len() - i,
    {
        waits.push(
            StepWait {
                node_id: snapshot.waiting_nodes[i].clone(),
                process_id: snapshot.process_id.clone(),
                correlation_key: None,
            },
        );
        i = i + 1;
    }
    let mut withdrawn: Vec<String> = Vec::new();
    let mut j: usize = 0;
    while j < snapshot.retry_backoff.len()
        invariant
            j <= snapshot.retry_backoff@.len(),
            withdrawn.len() == j,
            forall|k: int|
                0 <= k < j ==> (#[trigger] withdrawn@[k])@ == snapshot.retry_backoff@[k].0,
        decreases snapshot.retry_backoff@.len() - j,
    {
        withdrawn.push(snapshot.retry_backoff.key_at(j).clone());
        j = j + 1;
    }
    assert(text::texts(withdrawn@) =~= keyed::keys(snapshot.retry_backoff@));
    Ok(
        StepWrite {
            instance_id: instance,
            waits,
            resolved_waits: text::copy_texts(satisfied),
            withdrawn_call_nodes: withdrawn,
        },
    )
}

/// A timer that an instance waits for.
pub struct TimerWaitRecord {
    pub node_id: String,
    /// When it is due, as RFC 3339 text.
    pub due_at: String,
}

/// A timer that a step records.
pub struct StepTimerWait {
    pub node_id: String,
    pub process_id: String,
    /// When it is due, in nanoseconds since the epoch.
    pub due_at: i128,
}

/// The contents of a [`StepTimerWait`].
pub struct TimerView {
    pub node_id: Seq<char>,
    pub process_id: Seq<char>,
    pub due_at: i128,
}

impl View for StepTimerWait {
    type V = TimerView;

    open spec fn view(&self) -> TimerView {
        TimerView { node_id: self.node_id@, process_id: self.process_id@, due_at: self.due_at }
    }
}

/// What a row of timers holds.
pub open spec fn timers(v: Seq<StepTimerWait>) -> Seq<TimerView> {
    v.map_values(|t: StepTimerWait| t@)
}

/// The timers of a step in their order, or the first whose time cannot be read.
pub open spec fn timer_waits(waits: Seq<TimerWaitRecord>, process_id: Seq<char>) -> Result<
    Seq<TimerView>,
    DiagnosticView,
>
    decreases waits.len(),
{
    if waits.len() == 0 {
        Ok(Seq::empty())
    } else {
        match timer_waits(waits.drop_last(), process_id) {
            Err(d) => Err(d),
            Ok(v) => {
                let last = waits.last();
                match outside::rfc3339_instant(last.due_at@) {
                    Ok(due_at) => Ok(
                        v.push(TimerView { node_id: last.node_id@, process_id, due_at }),
                    ),
                    Err(e) => Err(
                        DiagnosticView::error(
                            Code::RuntimeUnexpected,
                            "timer wait '"@ + last.node_id@ + "' carries unparseable due-at '"@
                                + last.due_at@ + "': "@ + e,
                        ),
                    ),
                }
            },
        }
    }
}

proof fn later_timers_keep_the_failure(
    waits: Seq<TimerWaitRecord>,
    n: int,
    process_id: Seq<char>,
)
    requires
        0 <= n <= waits.len(),
        timer_waits(waits.take(n), process_id) is Err,
    ensures
        timer_waits(waits, process_id) == timer_waits(waits.take(n), process_id),
    decreases waits.len() - n,
{
    if n < waits.len() {
        let next = waits.take(n + 1);
        assert(next.drop_last() =~= waits.take(n));
        later_timers_keep_the_failure(waits, n + 1, process_id);
    } else {
        assert(waits.take(n) =~= waits);
    }
}

/// Read the timers of a step.
pub fn step_timer_waits(waits: &Vec<TimerWaitRecord>, process_id: &str) -> (r: Result<
    Vec<StepTimerWait>,
    Diagnostic,
>)
    ensures
        match r {
            Ok(v) => timer_waits(waits@, process_id@) == Ok::<Seq<TimerView>, DiagnosticView>(
                timers(v@),
            ),
            Err(d) => timer_waits(waits@, process_id@) == Err::<Seq<TimerView>, DiagnosticView>(
                d@,
            ),
        },
{
    let mut out: Vec<StepTimerWait> = Vec::new();
    let mut i: usize = 0;
    assert(timers(out@) =~= Seq::empty());
    while i < waits.len()
        invariant
            i <= waits.len(),
            timer_waits(waits@.take(i as int), process_id@) == Ok::<
                Seq<TimerView>,
                DiagnosticView,
            >(timers(out@)),
        decreases waits.len() - i,
    {
        let w = &waits[i];
        let ghost prior = timers(out@);
        assert(waits@.take(i + 1).drop_last() =~= waits@.take(i as int));
        assert(waits@.take(i + 1).last() == *w);
        match outside::parse_rfc3339(&w.due_at) {
            Ok(due_at) => {
                let t = StepTimerWait {
                    node_id: w.node_id.clone(),
                    process_id: process_id.to_owned(),
                    due_at,
                };
                let ghost v = t@;
                out.push(t);
                assert(timers(out@) =~= prior.push(v));
            },
            Err(e) => {
                proof {
                    later_timers_keep_the_failure(waits@, i + 1, process_id@);
                }
                let head = text::text4(
                    "timer wait '",
                    &w.node_id,
                    "' carries unparseable due-at '",
                    &w.due_at,
                );
                return Err(
                    Diagnostic::error(Code::RuntimeUnexpected, text::text3(&head, "': ", &e)),
                );
            },
        }
        i = i + 1;
    }
    assert(waits@.take(waits.len() as int) =~= waits@);
    Ok(out)
}

// ---- the outbox --------------------------------------------------------------------------------

/// How a reply is framed.
#[derive(Debug, Clone, Copy, PartialEq, Eq, Structural)]
pub enum ReplyMode {
    Native,
    CloudEventBinary,
    CloudEventStructured,
    MatchInbound,
}

/// What a step sends.
pub struct OutboxEmission {
    pub instance_id: String,
    /// The node that sends.
    pub node_id: String,
    pub body: Vec<u8>,
    pub content_type: Option<String>,
    pub destination: String,
    pub headers: TextMap<String>,
    pub labels: TextMap<String>,
    pub required: bool,
    pub mode: ReplyMode,
    pub outbox_key: String,
    pub cloud_event_json: Option<String>,
    pub auth_ref_json: Option<String>,
    pub traceparent: Option<String>,
}

/// A row of the outbox: what is sent, carried unchanged, with its identity and its schedule.
pub struct OutboxEntry<'a> {
    pub deployment: String,
    pub entry_id: u128,
    pub instance_id: u128,
    pub emission: &'a OutboxEmission,
    pub created_at: i128,
    pub next_attempt_at: i128,
    pub attempt_count: u32,
    /// Why the last attempt failed.
    pub last_diagnostic_json: Option<String>,
}

/// The first emission whose instance id is none.
pub open spec fn unaddressable(emissions: Seq<OutboxEmission>) -> Option<DiagnosticView>
    decreases emissions.len(),
{
    if emissions.len() == 0 {
        None
    } else {
        match instance_of(emissions[0].instance_id@) {
            Err(d) => Some(d),
            Ok(_) => unaddressable(emissions.drop_first()),
        }
    }
}

/// Whether `e` is the outbox row of an emission: due at once, never tried, its own identity.
pub open spec fn row_of(
    e: OutboxEntry,
    dep: Seq<char>,
    emission: OutboxEmission,
    entry_id: u128,
    now: i128,
) -> bool {
    &&& e.deployment@ == dep
    &&& e.entry_id == entry_id
    &&& instance_of(emission.instance_id@) == Ok::<u128, DiagnosticView>(e.instance_id)
    &&& *e.emission == emission
    &&& e.created_at == now
    &&& e.next_attempt_at == now
    &&& e.attempt_count == 0
    &&& e.last_diagnostic_json is None
}

/// Turn a step's emissions into outbox rows under these identities, due at `now`.
pub fn outbox_rows<'a>(
    dep: &str,
    emissions: &'a Vec<OutboxEmission>,
    entry_ids: &Vec<u128>,
    now: i128,
) -> (r: Result<Vec<OutboxEntry<'a>>, Diagnostic>)
    requires
        entry_ids@.len() == emissions@.len(),
    ensures
        match r {
            Ok(v) => {
                &&& unaddressable(emissions@) is None
                &&& v@.len() == emissions@.len()
                &&& forall|i: int|
                    0 <= i < v@.len() ==> row_of(
                        #[trigger] v@[i],
                        dep@,
                        emissions@[i],
                        entry_ids@[i],
                        now,
                    )
            },
            Err(d) => unaddressable(emissions@) == Some(d@),
        },
{
    let mut out: Vec<OutboxEntry<'a>> = Vec::new();
    let mut i: usize = 0;
    assert(emissions@.skip(0) =~= emissions@);
    while i < emissions.len()
        invariant
            i <= emissions.len(),
            entry_ids@.len() == emissions@.len(),
            out.len() == i,
            unaddressable(emissions@) == unaddressable(emissions@.skip(i as int)),
            forall|k: int|
                0 <= k < i ==> row_of(#[trigger] out@[k], dep@, emissions@[k], entry_ids@[k], now),
        decreases emissions.len() - i,
    {
        let emission = &emissions[i];
        assert(emissions@.skip(i as int)[0] == *emission);
        assert(emissions@.skip(i as int).drop_first() =~= emissions@.skip(i + 1));
        let instance_id = match parse_instance(&emission.instance_id) {
            Ok(v) => v,
            Err(d) => {
                return Err(d);
            },
        };
        out.push(
            OutboxEntry {
                deployment: dep.to_owned(),
                entry_id: entry_ids[i],
                instance_id,
                emission,
                created_at: now,
                next_attempt_at: now,
                attempt_count: 0,
                last_diagnostic_json: None,
            },
        );
        i = i + 1;
    }
    Ok(out)
}

/// Whether these are the outbox rows of a step's emissions, all due at `now`.
pub open spec fn rows_at(
    rows: Seq<OutboxEntry>,
    dep: Seq<char>,
    emissions: Seq<OutboxEmission>,
    now: i128,
) -> bool {
    rows.len() == emissions.len() && forall|i: int|
        0 <= i < rows.len() ==> row_of(
            #[trigger] rows[i],
            dep,
            emissions[i],
            rows[i].entry_id,
            now,
        )
}

/// Turn a step's emissions into outbox rows: each gets a fresh identity, and all are due at once.
pub fn outbox_entries<'a>(dep: &str, emissions: &'a Vec<OutboxEmission>) -> (r: Result<
    Vec<OutboxEntry<'a>>,
    Diagnostic,
>)
    ensures
        match r {
            Ok(v) => {
                &&& unaddressable(emissions@) is None
                &&& exists|now: i128| #[trigger] rows_at(v@, dep@, emissions@, now)
            },
            Err(d) => unaddressable(emissions@) == Some(d@),
        },
{
    let now: i128 = outside::now_nanos();
    let mut entry_ids: Vec<u128> = Vec::new();
    let mut i: usize = 0;
    while i < emissions.len()
        invariant
            i <= emissions.len(),
            entry_ids.len() == i,
        decreases emissions.len() - i,
    {
        entry_ids.push(outside::random_uuid());
        i = i + 1;
    }
    let r = outbox_rows(dep, emissions, &entry_ids, now);
    proof {
        if r is Ok {
            let v = r->Ok_0@;
            assert forall|i: int| 0 <= i < v.len() implies row_of(
                #[trigger] v[i],
                dep@,
                emissions@[i],
                v[i].entry_id,
                now,
            ) by {
                assert(row_of(v[i], dep@, emissions@[i], entry_ids@[i], now));
            }
            assert(rows_at(v, dep@, emissions@, now));
        }
    }
    r
}

} // verus!
